use cleankakao::window_events::{
    desired_hook_pid, hooked_ranges, hooks_need_replacing, is_reapply_event, should_apply,
    ReapplySchedule, EVENT_OBJECT_CREATE, EVENT_OBJECT_SHOW, EVENT_SYSTEM_FOREGROUND,
    EVENT_SYSTEM_MINIMIZEEND,
};

#[test]
fn hooks_follow_blocking_and_process() {
    assert_eq!(desired_hook_pid(true, true, Some(9)), Some(9));
    assert_eq!(desired_hook_pid(false, true, Some(9)), None);
    assert_eq!(desired_hook_pid(true, false, Some(9)), None);
    assert!(hooks_need_replacing(Some(9), Some(10)));
    assert!(hooks_need_replacing(None, Some(10)));
    assert!(hooks_need_replacing(Some(9), None));
    assert!(!hooks_need_replacing(Some(9), Some(9)));
    assert!(!hooks_need_replacing(None, None));
}

#[test]
fn hooked_event_ranges() {
    assert_eq!(
        hooked_ranges(),
        vec![(0x0003, 0x0003), (0x0017, 0x0017), (0x8000, 0x8002)]
    );
}

#[test]
fn only_window_events_of_the_hooked_kinds_count() {
    assert!(is_reapply_event(EVENT_SYSTEM_FOREGROUND, true, 0, 0));
    assert!(is_reapply_event(EVENT_SYSTEM_MINIMIZEEND, true, 0, 0));
    assert!(is_reapply_event(EVENT_OBJECT_CREATE, true, 0, 0));
    assert!(is_reapply_event(EVENT_OBJECT_SHOW, true, 0, 0));
    assert!(!is_reapply_event(0x8001, true, 0, 0));
    assert!(!is_reapply_event(EVENT_OBJECT_SHOW, false, 0, 0));
    assert!(!is_reapply_event(EVENT_OBJECT_SHOW, true, -4, 0));
    assert!(!is_reapply_event(EVENT_OBJECT_SHOW, true, 0, 3));
    assert!(should_apply(true, true));
    assert!(!should_apply(true, false));
}

#[test]
fn pid_refresh_every_quarter_second() {
    let mut s = ReapplySchedule::new();
    assert!(s.refresh_due(1000));
    assert!(!s.refresh_due(1100));
    assert!(!s.refresh_due(1249));
    assert!(s.refresh_due(1250));
    assert!(!s.refresh_due(1300));
}

#[test]
fn event_starts_a_burst_of_reapplying() {
    let mut s = ReapplySchedule::new();
    assert_eq!(s.wait_ms(0), 50);
    assert!(!s.after_wait(false, 0));
    assert!(s.after_wait(true, 1000));
    assert_eq!(s.wait_ms(1000), 75);
    assert!(s.after_wait(false, 1075));
    assert!(s.after_wait(false, 1649));
    assert_eq!(s.wait_ms(1649), 75);
    assert!(!s.after_wait(false, 1650));
    assert_eq!(s.wait_ms(1650), 50);
    assert!(!s.after_wait(false, 1700));
}
