use storm::color::RGBA8;

#[test]
fn new_raw_stores_each_channel() {
    let c = RGBA8::new_raw(255, 164, 0, 128);
    assert_eq!(c.r, 255);
    assert_eq!(c.g, 164);
    assert_eq!(c.b, 0);
    assert_eq!(c.a, 128);
    assert_eq!(c, RGBA8 { r: 255, g: 164, b: 0, a: 128 });
    assert_ne!(c, RGBA8::new_raw(128, 0, 164, 255));
}
