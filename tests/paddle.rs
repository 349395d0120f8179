use breakout::paddle::{follow_pointer, move_by_keys};

#[test]
fn pointer_outside_range_is_ignored() {
    // field half width 400, paddle half width 50: range (-350, 350)
    assert_eq!(follow_pointer(0, Some(390), 400, 50), 0);
    assert_eq!(follow_pointer(20, Some(-390), 400, 50), 20);
}

#[test]
fn pointer_inside_range_is_followed() {
    assert_eq!(follow_pointer(0, Some(100), 400, 50), 100);
    assert_eq!(follow_pointer(0, Some(-349), 400, 50), -349);
}

#[test]
fn pointer_on_the_bound_is_ignored() {
    assert_eq!(follow_pointer(7, Some(350), 400, 50), 7);
    assert_eq!(follow_pointer(7, Some(-350), 400, 50), 7);
}

#[test]
fn no_pointer_leaves_paddle() {
    assert_eq!(follow_pointer(42, None, 400, 50), 42);
}

#[test]
fn right_key_for_one_tick() {
    // speed 600 per second, 60 ticks per second
    assert_eq!(move_by_keys(0, false, true, 600, 60, 400, 50), 10);
}

#[test]
fn left_key_for_one_tick() {
    assert_eq!(move_by_keys(0, true, false, 600, 60, 400, 50), -10);
}

#[test]
fn both_or_no_keys_hold_still() {
    assert_eq!(move_by_keys(5, true, true, 600, 60, 400, 50), 5);
    assert_eq!(move_by_keys(5, false, false, 600, 60, 400, 50), 5);
}

#[test]
fn keys_always_clamp() {
    assert_eq!(move_by_keys(345, false, true, 600, 60, 400, 50), 350);
    assert_eq!(move_by_keys(-345, true, false, 600, 60, 400, 50), -350);
    // an out-of-range paddle is pulled back in even without keys
    assert_eq!(move_by_keys(390, false, false, 600, 60, 400, 50), 350);
}
