use vivarium::millis::{advance_millis, MILLIS_INCREMENT};

#[test]
fn tick_is_eight_milliseconds() {
    assert_eq!(MILLIS_INCREMENT, 8);
    assert_eq!(advance_millis(0), 8);
    assert_eq!(advance_millis(1000), 1008);
}

#[test]
fn clock_wraps_around() {
    assert_eq!(advance_millis(u32::MAX - 3), 4);
    assert_eq!(advance_millis(u32::MAX - 7), 0);
}
