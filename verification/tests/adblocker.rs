use cleankakao::adblocker::{
    find_main_window_ads, find_popup_ads, has_chrome_window, has_class_prefix,
    is_bottom_banner_rect, is_main_window_candidate, scan_input_in_range, sorted_unique_handles, AdBlocker, AdWindow, MainWindowState, Rect, RestoreKind, RestoreOp,
    TargetState, WindowOp, WindowSnapshot, WS_POPUP_BIT,
};
use cleankakao::config::Config;

fn rect(left: i32, top: i32, right: i32, bottom: i32) -> Rect {
    Rect { left, top, right, bottom }
}

/// The width test of the banner geometry, as the front end computes it.
fn wide_enough(main: &Rect, r: &Rect) -> bool {
    ((r.right - r.left) as f32) >= ((main.right - main.left) as f32) * 0.70
}

fn banner(main: &Rect, r: &Rect) -> bool {
    is_bottom_banner_rect(main, r, wide_enough(main, r))
}

#[test]
fn bottom_banner_rect_matches_expected_geometry() {
    let main = rect(100, 100, 700, 900);
    let banner_rect = rect(120, 809, 680, 900);

    assert!(banner(&main, &banner_rect));
}

#[test]
fn bottom_banner_rect_allows_small_height_and_bottom_tolerance() {
    let main = rect(0, 0, 600, 800);

    assert!(banner(&main, &rect(0, 707, 600, 798)));
    assert!(banner(&main, &rect(0, 709, 600, 802)));
}

#[test]
fn bottom_banner_rect_rejects_wrong_height_bottom_or_width() {
    let main = rect(0, 0, 600, 800);

    assert!(!banner(&main, &rect(0, 700, 600, 800)));
    assert!(!banner(&main, &rect(0, 709, 600, 780)));
    assert!(!banner(&main, &rect(0, 709, 419, 800)));
}

fn snapshot(hwnd: isize, class: &str, title: &str, parent: Option<isize>, r: Rect) -> WindowSnapshot {
    WindowSnapshot {
        hwnd,
        pid: 7,
        class: class.to_string(),
        title: title.to_string(),
        visible: true,
        parent,
        rect: Some(r),
        style: 0,
        wide_for_banner: true,
        has_eva_descendant: false,
        has_chrome_descendant: false,
    }
}

#[test]
fn main_window_panes_are_resized_and_banner_slot_hidden() {
    let main_rect = rect(0, 0, 400, 600);
    let online = snapshot(11, "EVA_ChildWindow", "OnlineMainView_0x1", Some(1), rect(0, 0, 398, 569));
    let slot = snapshot(12, "EVA_ChildWindow", "", Some(1), rect(0, 509, 400, 600));
    let other = snapshot(13, "EVA_ChildWindow", "ChatRoom", Some(1), rect(0, 0, 10, 10));
    let ads = find_main_window_ads(1, Some(main_rect), 7, &vec![online, slot, other]);
    assert_eq!(
        ads,
        vec![
            AdWindow::MainView { hwnd: 11, width: 398, height: 569 },
            AdWindow::BannerSlot { hwnd: 12 },
        ]
    );
}

#[test]
fn lock_mode_view_keeps_full_height() {
    let main_rect = rect(10, 10, 310, 510);
    let lock = snapshot(21, "EVA_ChildWindow", "LockModeView", Some(1), rect(10, 10, 300, 400));
    let ads = find_main_window_ads(1, Some(main_rect), 7, &vec![lock]);
    assert_eq!(ads, vec![AdWindow::MainView { hwnd: 21, width: 298, height: 500 }]);
}

#[test]
fn banner_slots_need_a_main_view_pane() {
    let main_rect = rect(0, 0, 400, 600);
    let slot = snapshot(12, "EVA_ChildWindow", "", Some(1), rect(0, 509, 400, 600));
    assert!(find_main_window_ads(1, Some(main_rect), 7, &vec![slot]).is_empty());
    assert!(find_main_window_ads(1, None, 7, &Vec::new()).is_empty());
}

fn chrome_popup() -> WindowSnapshot {
    let mut popup = snapshot(31, "EVA_Window", "", None, rect(50, 50, 350, 300));
    popup.style = WS_POPUP_BIT;
    popup.has_chrome_descendant = true;
    popup
}

#[test]
fn chrome_popups_are_found_once() {
    let main_rect = rect(0, 0, 400, 600);
    let mut plain = snapshot(32, "EVA_Window", "", None, rect(50, 50, 350, 300));
    plain.style = WS_POPUP_BIT;
    let candidates = vec![chrome_popup(), plain, chrome_popup()];
    let ads = find_popup_ads(1, Some(main_rect), 7, &candidates, &Vec::new());
    assert_eq!(ads, vec![AdWindow::Popup { hwnd: 31 }]);
}

fn banner_frame() -> WindowSnapshot {
    snapshot(41, "EVA_Window_Dblclk", "", Some(1), rect(0, 510, 400, 601))
}

#[test]
fn related_banner_frames_follow_the_popup_scan() {
    let main_rect = rect(0, 0, 400, 600);
    let ads = find_popup_ads(1, Some(main_rect), 7, &Vec::new(), &vec![banner_frame(), banner_frame()]);
    assert_eq!(ads, vec![AdWindow::BannerSlot { hwnd: 41 }]);
}

#[test]
fn class_and_title_helpers() {
    let classes = vec!["Foo".to_string(), "_EVA_Bar".to_string()];
    assert!(has_class_prefix(&classes, "_EVA_"));
    assert!(!has_class_prefix(&classes, "EVA"));
    assert!(has_chrome_window(&vec!["x".to_string(), "Chrome Legacy Window".to_string()]));
    assert!(!has_chrome_window(&vec!["Chrome".to_string()]));
}

fn main_state() -> MainWindowState {
    MainWindowState { iconic: false, visible: true, pid: 7, image_is_kakaotalk: true }
}

#[test]
fn apply_scope_follows_config_and_main_window() {
    let blocker = AdBlocker::new();
    let cfg = Config { ad_block_popup: false, ..Config::default() };
    let scope = blocker.apply_all(&cfg, Some(main_state()));
    assert!(scope.banner && !scope.popup);
    let hidden = MainWindowState { visible: false, ..main_state() };
    let scope = blocker.apply_all(&Config::default(), Some(hidden));
    assert!(!scope.banner && !scope.popup);
    let other = MainWindowState { image_is_kakaotalk: false, ..main_state() };
    assert!(!blocker.apply_all(&Config::default(), Some(other)).banner);
    assert!(!blocker.apply_all(&Config::default(), None).popup);
}

#[test]
fn hide_then_restore_shows_the_window_again() {
    let mut blocker = AdBlocker::new();
    let target = TargetState { alive: true, visible: true, rect: Some(rect(0, 0, 100, 100)) };
    let op = blocker.remove_ad(&AdWindow::Popup { hwnd: 5 }, &target);
    assert_eq!(op, Some(WindowOp::Hide { hwnd: 5 }));
    assert!(blocker.has_pending_restore());
    let ops = blocker.restore_all(Some(main_state()));
    assert_eq!(ops, vec![RestoreOp::Show { hwnd: 5, visible: true }]);
    assert!(!blocker.has_pending_restore());
}

#[test]
fn resize_then_restore_gives_the_original_size_back() {
    let mut blocker = AdBlocker::new();
    let target = TargetState { alive: true, visible: true, rect: Some(rect(10, 20, 410, 620)) };
    let ad = AdWindow::MainView { hwnd: 9, width: 398, height: 569 };
    assert_eq!(
        blocker.remove_ad(&ad, &target),
        Some(WindowOp::Resize { hwnd: 9, width: 398, height: 569 })
    );
    let ops = blocker.restore_all(Some(main_state()));
    assert_eq!(ops, vec![RestoreOp::Resize { hwnd: 9, width: 400, height: 600 }]);
}

#[test]
fn already_sized_pane_and_hidden_window_are_left_alone() {
    let mut blocker = AdBlocker::new();
    let sized = TargetState { alive: true, visible: true, rect: Some(rect(0, 0, 398, 569)) };
    let ad = AdWindow::MainView { hwnd: 9, width: 398, height: 569 };
    assert_eq!(blocker.remove_ad(&ad, &sized), None);
    let hidden = TargetState { alive: true, visible: false, rect: Some(rect(0, 0, 5, 5)) };
    assert_eq!(blocker.remove_ad(&AdWindow::BannerSlot { hwnd: 3 }, &hidden), None);
    let dead = TargetState { alive: false, visible: true, rect: None };
    assert_eq!(blocker.remove_ad(&AdWindow::Popup { hwnd: 4 }, &dead), None);
    assert_eq!(blocker.saved_count(), 0);
}

#[test]
fn restore_resizes_panes_before_showing_windows_and_keeps_first_records() {
    let mut blocker = AdBlocker::new();
    blocker.save_state(1, RestoreKind::HiddenWindow, Some(rect(0, 0, 5, 5)), true);
    blocker.save_state(2, RestoreKind::ResizedPane, Some(rect(0, 0, 300, 200)), true);
    blocker.save_state(1, RestoreKind::HiddenWindow, Some(rect(0, 0, 9, 9)), false);
    assert_eq!(blocker.saved_count(), 2);
    assert_eq!(blocker.saved_state(1).unwrap().visible, true);
    let ops = blocker.restore_all(None);
    assert_eq!(
        ops,
        vec![
            RestoreOp::Resize { hwnd: 2, width: 300, height: 200 },
            RestoreOp::Show { hwnd: 1, visible: true },
        ]
    );
}

#[test]
fn restore_waits_while_the_main_window_is_minimized() {
    let mut blocker = AdBlocker::new();
    blocker.save_state(1, RestoreKind::HiddenWindow, Some(rect(0, 0, 5, 5)), true);
    let minimized = MainWindowState { iconic: true, ..main_state() };
    assert!(blocker.restore_all(Some(minimized)).is_empty());
    assert!(blocker.has_pending_restore());
}

#[test]
fn reset_forgets_everything() {
    let mut blocker = AdBlocker::new();
    blocker.set_main_hwnd(Some(77));
    blocker.save_state(1, RestoreKind::HiddenWindow, Some(rect(0, 0, 5, 5)), true);
    assert_eq!(blocker.main_hwnd(), Some(77));
    blocker.reset();
    assert_eq!(blocker.main_hwnd(), None);
    assert_eq!(blocker.saved_count(), 0);
}

#[test]
fn main_window_candidates() {
    assert!(is_main_window_candidate(true, 7, true, 0, "카카오톡"));
    assert!(!is_main_window_candidate(false, 7, true, 0, "카카오톡"));
    assert!(!is_main_window_candidate(true, 0, true, 0, "카카오톡"));
    assert!(!is_main_window_candidate(true, 7, false, 0, "카카오톡"));
    assert!(!is_main_window_candidate(true, 7, true, WS_POPUP_BIT, "카카오톡"));
    assert!(!is_main_window_candidate(true, 7, true, 0, ""));
}

#[test]
fn related_handles_are_sorted_once() {
    assert_eq!(sorted_unique_handles(&vec![5, -2, 9, 5, 0, -2]), vec![-2, 0, 5, 9]);
    assert!(sorted_unique_handles(&Vec::new()).is_empty());
}

#[test]
fn scan_input_range_check() {
    let main = Some(rect(0, 0, 400, 600));
    assert!(scan_input_in_range(&main, &vec![banner_frame()]));
    let mut far = banner_frame();
    far.rect = Some(rect(i32::MIN, 0, 0, 0));
    assert!(!scan_input_in_range(&main, &vec![far]));
    assert!(!scan_input_in_range(&Some(rect(0, 0, i32::MAX, 1)), &Vec::new()));
    assert!(scan_input_in_range(&None, &Vec::new()));
}

#[test]
fn a_window_found_by_both_scans_is_listed_once() {
    let main_rect = rect(0, 0, 400, 600);
    let mut frame = banner_frame();
    frame.style = WS_POPUP_BIT;
    let mut again = banner_frame();
    again.style = WS_POPUP_BIT;
    let ads = find_popup_ads(1, Some(main_rect), 7, &vec![frame], &vec![again]);
    assert_eq!(ads, vec![AdWindow::BannerSlot { hwnd: 41 }]);
}
