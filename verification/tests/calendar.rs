use codex_runtime::calendar::{local_goal_timezone, timezone_from};

#[test]
fn a_name_comes_before_an_offset() {
    let name = timezone_from(Some("Asia/Tbilisi".to_string()), || panic!("no offset is needed"));
    assert_eq!(name, "Asia/Tbilisi");
    assert_eq!(timezone_from(None, || "+04:00".to_string()), "+04:00");
}

#[test]
fn the_machine_has_a_timezone() {
    assert_eq!(local_goal_timezone(), local_goal_timezone());
}
