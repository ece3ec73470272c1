use storm::color::RGBA8;
use storm::frame::Vector3Bits;
use storm::texture::{Sprite, Texture, Vector2U16};

fn atlas_part() -> Texture {
    Texture { x: 0, y: 1600, z: 0, w: 3200 }
}

#[test]
fn white_texture_is_one_pixel_at_the_origin() {
    assert_eq!(Texture::white(16), Texture { x: 0, y: 16, z: 0, w: 16 });
    assert_eq!(Texture::white(16).size(16), Vector2U16 { x: 1, y: 1 });
}

#[test]
fn mirrors_swap_one_pair_of_bounds() {
    let t = Texture { x: 1, y: 2, z: 3, w: 4 };
    assert_eq!(t.mirror_y(), Texture { x: 2, y: 1, z: 3, w: 4 });
    assert_eq!(t.mirror_x(), Texture { x: 1, y: 2, z: 4, w: 3 });
    assert_eq!(t.mirror_y().mirror_y(), t);
    assert_eq!(t.mirror_x().mirror_x(), t);
}

#[test]
fn size_is_measured_in_pixels() {
    assert_eq!(atlas_part().size(16), Vector2U16 { x: 100, y: 200 });
    assert_eq!(atlas_part().mirror_x().mirror_y().size(16), Vector2U16 { x: 100, y: 200 });
    assert_eq!(Texture { x: 10, y: 41, z: 7, w: 7 }.size(16), Vector2U16 { x: 1, y: 0 });
}

#[test]
fn sub_texture_is_offset_from_the_top_left() {
    assert_eq!(
        atlas_part().sub_texture(2, 3, 10, 20, 16),
        Ok(Texture { x: 32, y: 192, z: 48, w: 368 })
    );
    let shifted = Texture { x: 160, y: 1760, z: 320, w: 3520 };
    assert_eq!(
        shifted.sub_texture(2, 3, 10, 20, 16),
        Ok(Texture { x: 192, y: 352, z: 368, w: 688 })
    );
    assert_eq!(
        shifted.sub_texture(2, 3, 10, 20, 16).unwrap().size(16),
        Vector2U16 { x: 10, y: 20 }
    );
}

#[test]
fn sub_texture_ignores_mirroring() {
    assert_eq!(
        atlas_part().mirror_y().mirror_x().sub_texture(2, 3, 10, 20, 16),
        Ok(Texture { x: 32, y: 192, z: 48, w: 368 })
    );
}

#[test]
fn sub_texture_may_touch_the_far_edges() {
    assert_eq!(
        atlas_part().sub_texture(90, 190, 10, 10, 16),
        Ok(Texture { x: 1440, y: 1600, z: 3040, w: 3200 })
    );
    assert_eq!(atlas_part().sub_texture(0, 0, 100, 200, 16), Ok(atlas_part()));
}

#[test]
fn sub_texture_without_area_is_refused() {
    assert_eq!(atlas_part().sub_texture(0, 0, 0, 5, 16), Err("Size must be greater than 0"));
    assert_eq!(atlas_part().sub_texture(0, 0, 5, 0, 16), Err("Size must be greater than 0"));
    assert_eq!(atlas_part().sub_texture(500, 500, 0, 0, 16), Err("Size must be greater than 0"));
}

#[test]
fn sub_texture_outside_the_source_is_refused() {
    let message = "Requested subtexture is outside the bounds of the source texture.";
    assert_eq!(atlas_part().sub_texture(95, 0, 6, 1, 16), Err(message));
    assert_eq!(atlas_part().sub_texture(0, 195, 1, 6, 16), Err(message));
    assert_eq!(atlas_part().sub_texture(101, 0, 1, 1, 16), Err(message));
    let whole = Texture { x: 0, y: 65535, z: 0, w: 65535 };
    assert_eq!(whole.sub_texture(65535, 0, 65535, 1, 65535), Err(message));
    assert_eq!(whole.sub_texture(4096, 0, 1, 1, 16), Err(message));
}

#[test]
fn sprite_from_texture_takes_the_size_of_the_texture() {
    let sprite = Sprite::from_texture(atlas_part(), 16);
    assert_eq!(sprite.pos, Vector3Bits { x: 0, y: 0, z: 0 });
    assert_eq!(sprite.size, Vector2U16 { x: 100, y: 200 });
    assert_eq!(sprite.texture, atlas_part());
    assert_eq!(sprite.color, RGBA8::new_raw(255, 255, 255, 255));
    assert_eq!(sprite.rotation, 0);
}

#[test]
fn sprite_new_raw_keeps_its_members() {
    let pos = Vector3Bits { x: 1.5f32.to_bits(), y: 2.5f32.to_bits(), z: 0 };
    let sprite = Sprite::new_raw(
        pos,
        Vector2U16 { x: 7, y: 9 },
        atlas_part(),
        RGBA8::new_raw(1, 2, 3, 4),
        16384,
    );
    assert_eq!(
        sprite,
        Sprite {
            pos,
            size: Vector2U16 { x: 7, y: 9 },
            texture: atlas_part(),
            color: RGBA8::new_raw(1, 2, 3, 4),
            rotation: 16384,
        }
    );
}

#[test]
fn white_sprite_is_a_hundred_pixels_wide_and_high() {
    let sprite = Sprite::white(16);
    assert_eq!(sprite.pos, Vector3Bits { x: 0, y: 0, z: 0 });
    assert_eq!(sprite.size, Vector2U16 { x: 100, y: 100 });
    assert_eq!(sprite.texture, Texture { x: 0, y: 16, z: 0, w: 16 });
    assert_eq!(sprite.color, RGBA8::new_raw(255, 255, 255, 255));
    assert_eq!(sprite.rotation, 0);
}
