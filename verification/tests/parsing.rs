use css_transition::get_transition_info::{
    get_transition_info, get_timeout, split_style_list, to_ms, AnimationTypes, CSSTransitionInfo,
};

#[test]
fn to_ms_auto_is_zero() {
    assert_eq!(to_ms("auto"), 0);
}

#[test]
fn to_ms_empty_is_zero() {
    assert_eq!(to_ms(""), 0);
}

#[test]
fn to_ms_milliseconds_unit() {
    assert_eq!(to_ms("300ms"), 300);
}

#[test]
fn to_ms_half_second() {
    assert_eq!(to_ms("0.5s"), 500);
}

#[test]
fn to_ms_whole_seconds() {
    assert_eq!(to_ms("2s"), 2000);
    assert_eq!(to_ms("0s"), 0);
}

#[test]
fn to_ms_fraction_forms() {
    assert_eq!(to_ms(".5s"), 500);
    assert_eq!(to_ms("5.s"), 5000);
    assert_eq!(to_ms("0.25s"), 250);
    assert_eq!(to_ms("0.1234s"), 123);
}

#[test]
fn to_ms_floors_fractional_milliseconds() {
    assert_eq!(to_ms("12.7ms"), 12);
}

#[test]
fn to_ms_malformed_is_zero() {
    assert_eq!(to_ms("abc"), 0);
    assert_eq!(to_ms("1.2.3s"), 0);
    assert_eq!(to_ms("-5s"), 0);
    assert_eq!(to_ms("s"), 0);
    assert_eq!(to_ms("ms"), 0);
    assert_eq!(to_ms("."), 0);
}

#[test]
fn split_two_tokens() {
    let parts = split_style_list("0.5s, 2s");
    assert_eq!(parts, vec!["0.5s".to_string(), "2s".to_string()]);
}

#[test]
fn split_empty_gives_one_empty_token() {
    assert_eq!(split_style_list(""), vec!["".to_string()]);
}

#[test]
fn split_keeps_empty_middle_token() {
    assert_eq!(
        split_style_list("a, , b"),
        vec!["a".to_string(), "".to_string(), "b".to_string()]
    );
}

#[test]
fn timeout_cyclically_extends_short_delay_list() {
    // Durations of 300 ms and 300 ms against a single zero delay: the delay
    // list repeats, and the timeout is 300.
    let delays = vec!["0s".to_string()];
    let durations = vec!["0.3s".to_string(), "0.3s".to_string()];
    assert_eq!(get_timeout(delays, &durations), 300);
}

#[test]
fn timeout_cyclic_delays_alternate() {
    let delays = vec!["0.1s".to_string(), "0.2s".to_string()];
    let durations = vec!["0.1s".to_string(), "0.1s".to_string(), "0.1s".to_string()];
    // Delays repeat as 100, 200, 100; the middle pair wins with 300.
    assert_eq!(get_timeout(delays, &durations), 300);
}

#[test]
fn timeout_of_no_durations_is_zero() {
    assert_eq!(get_timeout(vec![], &vec![]), 0);
}

#[test]
fn timeout_includes_delay() {
    let delays = vec!["1s".to_string()];
    let durations = vec!["0.5s".to_string()];
    assert_eq!(get_timeout(delays, &durations), 1500);
}

#[test]
fn info_none_when_all_zero() {
    assert!(get_transition_info("0s", "0s", "0s", "0s").is_none());
}

#[test]
fn info_tie_prefers_transition() {
    let info = get_transition_info("0s", "1s", "0s", "1s").unwrap();
    assert!(info.types == AnimationTypes::Transition);
    assert_eq!(info.prop_count, 1);
    assert_eq!(info.timeout, 1000);
}

#[test]
fn info_animation_wins_larger_timeout() {
    let info = get_transition_info("0s", "0.1s", "0s", "0.3s").unwrap();
    assert!(info.types == AnimationTypes::Animation);
    assert_eq!(info.timeout, 300);
}

#[test]
fn info_prop_count_comes_from_winning_family() {
    // Two transition properties of 500 ms lose against one animation of a
    // second: the count is the animation's.
    let info = get_transition_info("0s", "0.5s, 0.5s", "0s", "1s").unwrap();
    assert!(info.types == AnimationTypes::Animation);
    assert_eq!(info.prop_count, 1);
    assert_eq!(info.timeout, 1000);

    let info = get_transition_info("0s", "1s, 1s", "0s", "0.2s").unwrap();
    assert!(info.types == AnimationTypes::Transition);
    assert_eq!(info.prop_count, 2);
    assert_eq!(info.timeout, 1000);
}

#[test]
fn info_struct_round_trip() {
    let info = CSSTransitionInfo {
        types: AnimationTypes::Transition,
        prop_count: 2,
        timeout: 42,
    };
    let copy = info;
    assert!(copy == info);
}
