use storm::color::RGBA8;
use storm::frame::Vector3Bits;
use storm::types::{DisplayMode, FontToken, Text, Vsync, WindowSettings};

#[test]
fn default_window_settings() {
    let settings = WindowSettings::default();
    assert_eq!(settings.title, "Storm Engine");
    assert_eq!(
        settings.display_mode,
        DisplayMode::Windowed { width: 500, height: 500, resizable: true }
    );
    assert_eq!(settings.vsync, Vsync::Disabled);
}

#[test]
fn font_token_keeps_its_key() {
    assert_eq!(FontToken::new(7).key(), 7);
    assert_eq!(FontToken::default().key(), 0);
    assert_eq!(FontToken::new(0), FontToken::default());
    assert_ne!(FontToken::new(1), FontToken::default());
}

#[test]
fn default_text() {
    let text = Text::default();
    assert_eq!(text.string, "");
    assert_eq!(text.pos, Vector3Bits { x: 0, y: 0, z: 0 });
    assert_eq!(text.max_width, None);
    assert_eq!(text.scale, 24);
    assert_eq!(text.color, RGBA8::new_raw(0, 0, 0, 255));
    assert_eq!(text.font, FontToken::default());
}

#[test]
fn text_new_keeps_its_members() {
    let pos = Vector3Bits { x: 1.0f32.to_bits(), y: 2.0f32.to_bits(), z: 3.0f32.to_bits() };
    let text = Text::new(
        String::from("score"),
        pos,
        Some(120.0f32.to_bits()),
        32,
        RGBA8::new_raw(9, 8, 7, 6),
        FontToken::new(3),
    );
    assert_eq!(text.string, "score");
    assert_eq!(text.pos, pos);
    assert_eq!(text.max_width, Some(120.0f32.to_bits()));
    assert_eq!(text.scale, 32);
    assert_eq!(text.color, RGBA8::new_raw(9, 8, 7, 6));
    assert_eq!(text.font.key(), 3);
}

#[test]
fn set_string_replaces_only_the_string() {
    let mut text = Text::default();
    text.scale = 48;
    text.set_string("first");
    assert_eq!(text.string, "first");
    text.set_string("second line");
    assert_eq!(text.string, "second line");
    text.set_string("");
    assert_eq!(text.string, "");
    assert_eq!(text.scale, 48);
    assert_eq!(text.font, FontToken::default());
}
