use diorama::{Color, SCALE_ONE};

#[test]
fn add_saturates_each_channel() {
    let c = Color::new(200, 100, 0).add(Color::new(100, 100, 5));
    assert_eq!(c, Color::new(255, 200, 5));
}

#[test]
fn add_below_limit_is_plain_sum() {
    let c = Color::new(1, 2, 3).add(Color::new(10, 20, 30));
    assert_eq!((c.r(), c.g(), c.b()), (11, 22, 33));
}

#[test]
fn scale_by_half_rounds_to_nearest() {
    let c = Color::new(100, 51, 255).scale(SCALE_ONE / 2);
    assert_eq!(c, Color::new(50, 26, 128));
}

#[test]
fn scale_by_two_saturates() {
    let c = Color::new(100, 128, 7).scale(2 * SCALE_ONE);
    assert_eq!(c, Color::new(200, 255, 14));
}

#[test]
fn scale_by_zero_and_one() {
    let c = Color::new(9, 99, 199);
    assert_eq!(c.scale(0), Color::new(0, 0, 0));
    assert_eq!(c.scale(SCALE_ONE), c);
}

#[test]
fn scale_by_largest_factor() {
    assert_eq!(Color::new(1, 0, 255).scale(u32::MAX), Color::new(255, 0, 255));
}

#[test]
fn to_u32_packs_rgb() {
    assert_eq!(Color::new(0x12, 0x34, 0x56).to_u32(), 0x123456);
    assert_eq!(Color::new(255, 255, 255).to_u32(), 0xFFFFFF);
    assert_eq!(Color::new(0, 0, 0).to_u32(), 0);
}
