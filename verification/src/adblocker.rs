//! Which KakaoTalk windows are ads, what to do to them, and how to undo it.
//!
//! The KakaoTalk main window holds named `EVA_ChildWindow` panes
//! (`OnlineMainView`, `LockModeView`). Those panes are resized to cover the
//! bottom ad strip, and narrow, well-scoped ad windows (the empty bottom banner
//! slot, ad popups hosting a Chrome surface) are hidden. Every change is
//! recorded once, with the window's original rectangle and visibility, so it
//! can be undone: resized panes first, then hidden windows.
//!
//! The window system is observed through snapshots (`WindowSnapshot`) taken by
//! the caller; the decisions here are made on those plain values.
use vstd::prelude::*;
use crate::config::Config;
use crate::text::{starts_with, text_eq};

verus! {

/// Width reduction of a resized main-view pane (window shadow).
pub const LAYOUT_SHADOW_PADDING: i32 = 2;

/// Height reduction of `OnlineMainView`, which uncovers the bottom ad strip.
pub const MAIN_VIEW_BOTTOM_PADDING: i32 = 31;

/// Height of KakaoTalk's bottom banner slot.
pub const DIRECT_BANNER_HEIGHT: i32 = 91;

/// Allowed deviation from `DIRECT_BANNER_HEIGHT`.
pub const DIRECT_BANNER_HEIGHT_TOLERANCE_PX: i32 = 2;

/// Allowed distance between the banner's bottom edge and the main window's.
pub const DIRECT_BANNER_BOTTOM_TOLERANCE_PX: i32 = 12;

/// Smallest width and height of an ad popup.
pub const POPUP_MIN_DIM: i32 = 80;

/// Largest width and height of an ad popup.
pub const POPUP_MAX_DIM: i32 = 900;

/// The `WS_POPUP` window style bit.
pub const WS_POPUP_BIT: u32 = 0x8000_0000;

/// A window rectangle in screen coordinates.
#[derive(Clone, Copy, Debug, PartialEq, Eq, Structural)]
pub struct Rect {
    pub left: i32,
    pub top: i32,
    pub right: i32,
    pub bottom: i32,
}

pub open spec fn rect_width(r: Rect) -> int {
    r.right - r.left
}

pub open spec fn rect_height(r: Rect) -> int {
    r.bottom - r.top
}

pub open spec fn fits_i32(x: int) -> bool {
    i32::MIN <= x <= i32::MAX
}

/// Width and height of `r` are representable as `i32`.
pub open spec fn rect_dims_fit(r: Rect) -> bool {
    fits_i32(rect_width(r)) && fits_i32(rect_height(r))
}

/// The arithmetic of the banner-geometry test stays within `i32` (its
/// absolute values included).
pub open spec fn banner_arith_fits(main: Rect, r: Rect) -> bool {
    &&& rect_dims_fit(main)
    &&& rect_dims_fit(r)
    &&& i32::MIN < main.bottom - r.bottom <= i32::MAX
    &&& i32::MIN < rect_height(r) - DIRECT_BANNER_HEIGHT <= i32::MAX
}

pub open spec fn abs_int(x: int) -> int {
    if x < 0 {
        -x
    } else {
        x
    }
}

/// `r` has the shape of KakaoTalk's bottom banner inside `main`: its bottom
/// edge is within 12 px of the main window's, it is wide enough (`wide`,
/// at least 70% of the main window's width), and it is 91 px tall give or
/// take 2 px.
pub open spec fn banner_rect_spec(main: Rect, r: Rect, wide: bool) -> bool {
    &&& abs_int(main.bottom - r.bottom) <= DIRECT_BANNER_BOTTOM_TOLERANCE_PX
    &&& wide
    &&& abs_int(rect_height(r) - DIRECT_BANNER_HEIGHT) <= DIRECT_BANNER_HEIGHT_TOLERANCE_PX
}

/// The bottom-banner geometry test. `wide_enough` tells whether `rect` is at
/// least 70% as wide as `main_rect`.
pub fn is_bottom_banner_rect(main_rect: &Rect, rect: &Rect, wide_enough: bool) -> (r: bool)
    requires
        banner_arith_fits(*main_rect, *rect),
    ensures
        r == banner_rect_spec(*main_rect, *rect, wide_enough),
{
    let bottom_gap = main_rect.bottom - rect.bottom;
    let near_bottom = if bottom_gap < 0 {
        -bottom_gap
    } else {
        bottom_gap
    } <= DIRECT_BANNER_BOTTOM_TOLERANCE_PX;
    let height = rect.bottom - rect.top;
    let height_gap = height - DIRECT_BANNER_HEIGHT;
    let exact_height = if height_gap < 0 {
        -height_gap
    } else {
        height_gap
    } <= DIRECT_BANNER_HEIGHT_TOLERANCE_PX;
    near_bottom && wide_enough && exact_height
}

/// What is known of one window when the ad scan runs.
pub struct WindowSnapshot {
    /// The window handle's value.
    pub hwnd: isize,
    /// The owning process id (0 when unknown).
    pub pid: u32,
    pub class: String,
    pub title: String,
    pub visible: bool,
    /// The parent window's handle value, if any.
    pub parent: Option<isize>,
    /// The window rectangle, when it could be read.
    pub rect: Option<Rect>,
    /// The window style bits.
    pub style: u32,
    /// The window is at least 70% as wide as the main window.
    pub wide_for_banner: bool,
    /// Some descendant's class name starts with `_EVA_`.
    pub has_eva_descendant: bool,
    /// Some descendant is titled `Chrome Legacy Window`.
    pub has_chrome_descendant: bool,
}

/// An ad window and what to do to it.
#[derive(Clone, Copy, Debug, PartialEq, Eq, Structural)]
pub enum AdWindow {
    /// A main-view pane to resize to `width` x `height`.
    MainView { hwnd: isize, width: i32, height: i32 },
    /// The bottom banner slot, to hide.
    BannerSlot { hwnd: isize },
    /// An ad popup, to hide.
    Popup { hwnd: isize },
}

pub open spec fn ad_hwnd(a: AdWindow) -> isize {
    match a {
        AdWindow::MainView { hwnd, .. } => hwnd,
        AdWindow::BannerSlot { hwnd } => hwnd,
        AdWindow::Popup { hwnd } => hwnd,
    }
}

impl AdWindow {
    /// The handle value of the window.
    pub fn hwnd(&self) -> (h: isize)
        ensures
            h == ad_hwnd(*self),
    {
        match *self {
            AdWindow::MainView { hwnd, .. } => hwnd,
            AdWindow::BannerSlot { hwnd } => hwnd,
            AdWindow::Popup { hwnd } => hwnd,
        }
    }
}

/// Some class name in `classes` starts with `prefix`.
pub fn has_class_prefix(classes: &Vec<String>, prefix: &str) -> (r: bool)
    ensures
        r == exists|i: int| 0 <= i < classes@.len() && prefix@.is_prefix_of(#[trigger] classes@[i]@),
{
    let mut i: usize = 0;
    while i < classes.len()
        invariant
            i <= classes@.len(),
            forall|k: int| 0 <= k < i ==> !prefix@.is_prefix_of(#[trigger] classes@[k]@),
        decreases classes.len() - i,
    {
        if starts_with(classes[i].as_str(), prefix) {
            return true;
        }
        i = i + 1;
    }
    false
}

/// Some title in `titles` is `Chrome Legacy Window`, the title of the
/// Chrome surface that hosts KakaoTalk's ad content.
pub fn has_chrome_window(titles: &Vec<String>) -> (r: bool)
    ensures
        r == exists|i: int| 0 <= i < titles@.len() && #[trigger] titles@[i]@ == "Chrome Legacy Window"@,
{
    let mut i: usize = 0;
    while i < titles.len()
        invariant
            i <= titles@.len(),
            forall|k: int| 0 <= k < i ==> #[trigger] titles@[k]@ != "Chrome Legacy Window"@,
        decreases titles.len() - i,
    {
        if text_eq(titles[i].as_str(), "Chrome Legacy Window") {
            return true;
        }
        i = i + 1;
    }
    false
}

// ---------------------------------------------------------------------------
// Main-window ads
// ---------------------------------------------------------------------------

/// The main-view ad for `w`, a descendant of the main window: a direct child
/// owned by `pid` of class `EVA_ChildWindow` titled `OnlineMainView...`
/// (resized to the main window's width less 2 and height less 31) or
/// `LockModeView...` (width less 2, full height).
pub open spec fn main_view_ad(w: WindowSnapshot, main: isize, pid: u32, mw: int, mh: int) -> Option<
    AdWindow,
> {
    if w.parent == Some(main) && w.pid == pid && w.class@ == "EVA_ChildWindow"@ {
        if "OnlineMainView"@.is_prefix_of(w.title@) {
            Some(
                AdWindow::MainView {
                    hwnd: w.hwnd,
                    width: (mw - LAYOUT_SHADOW_PADDING) as i32,
                    height: (mh - MAIN_VIEW_BOTTOM_PADDING) as i32,
                },
            )
        } else if "LockModeView"@.is_prefix_of(w.title@) {
            Some(
                AdWindow::MainView {
                    hwnd: w.hwnd,
                    width: (mw - LAYOUT_SHADOW_PADDING) as i32,
                    height: mh as i32,
                },
            )
        } else {
            None
        }
    } else {
        None
    }
}

pub open spec fn opt_seq<T>(o: Option<T>) -> Seq<T> {
    match o {
        Some(x) => seq![x],
        None => seq![],
    }
}

pub open spec fn main_views(ds: Seq<WindowSnapshot>, main: isize, pid: u32, mw: int, mh: int) -> Seq<
    AdWindow,
>
    decreases ds.len(),
{
    if ds.len() == 0 {
        seq![]
    } else {
        main_views(ds.drop_last(), main, pid, mw, mh) + opt_seq(
            main_view_ad(ds.last(), main, pid, mw, mh),
        )
    }
}

/// The checks of the direct banner slot test that come before its geometry.
pub open spec fn slot_reaches_geometry(w: WindowSnapshot, main: isize, pid: u32) -> bool {
    &&& w.pid == pid
    &&& w.visible
    &&& w.parent == Some(main)
    &&& (w.class@ == "EVA_ChildWindow"@ || w.class@ == "EVA_Window_Dblclk"@)
    &&& w.title@.len() == 0
    &&& !w.has_eva_descendant
    &&& w.rect is Some
}

/// `w` is KakaoTalk's bottom banner slot: a visible, untitled direct child
/// of class `EVA_ChildWindow` or `EVA_Window_Dblclk` owned by `pid`, with no
/// `_EVA_` descendant, shaped like the bottom banner.
pub open spec fn direct_banner_slot(w: WindowSnapshot, main: isize, pid: u32, main_rect: Rect) -> bool {
    slot_reaches_geometry(w, main, pid) && banner_rect_spec(
        main_rect,
        w.rect.unwrap(),
        w.wide_for_banner,
    )
}

pub open spec fn banner_slots(ds: Seq<WindowSnapshot>, main: isize, pid: u32, main_rect: Rect) -> Seq<
    AdWindow,
>
    decreases ds.len(),
{
    if ds.len() == 0 {
        seq![]
    } else {
        banner_slots(ds.drop_last(), main, pid, main_rect) + (if direct_banner_slot(
            ds.last(),
            main,
            pid,
            main_rect,
        ) {
            seq![AdWindow::BannerSlot { hwnd: ds.last().hwnd }]
        } else {
            seq![]
        })
    }
}

/// The ads inside the main window: its main-view panes, then (only when a
/// main-view pane was found) its bottom banner slots.
pub open spec fn main_window_ads_spec(
    main: isize,
    main_rect: Option<Rect>,
    pid: u32,
    ds: Seq<WindowSnapshot>,
) -> Seq<AdWindow> {
    match main_rect {
        None => seq![],
        Some(r) => if rect_width(r) <= 0 || rect_height(r) <= 0 {
            seq![]
        } else {
            let views = main_views(ds, main, pid, rect_width(r), rect_height(r));
            if views.len() > 0 {
                views + banner_slots(ds, main, pid, r)
            } else {
                views
            }
        },
    }
}

/// The main window's ads are computable without `i32` overflow.
pub open spec fn main_scan_fits(
    main: isize,
    main_rect: Option<Rect>,
    pid: u32,
    ds: Seq<WindowSnapshot>,
) -> bool {
    main_rect matches Some(r) ==> {
        &&& rect_dims_fit(r)
        &&& (rect_width(r) > 0 && rect_height(r) > 0 && main_views(
            ds,
            main,
            pid,
            rect_width(r),
            rect_height(r),
        ).len() > 0) ==> forall|i: int|
            0 <= i < ds.len() && slot_reaches_geometry(#[trigger] ds[i], main, pid)
                ==> banner_arith_fits(r, ds[i].rect.unwrap())
    }
}

fn main_view_for(w: &WindowSnapshot, main: isize, pid: u32, mw: i32, mh: i32) -> (r: Option<
    AdWindow,
>)
    requires
        mw > 0,
        mh > 0,
    ensures
        r == main_view_ad(*w, main, pid, mw as int, mh as int),
{
    if w.parent != Some(main) || w.pid != pid || !text_eq(w.class.as_str(), "EVA_ChildWindow") {
        return None;
    }
    if starts_with(w.title.as_str(), "OnlineMainView") {
        Some(
            AdWindow::MainView {
                hwnd: w.hwnd,
                width: mw - LAYOUT_SHADOW_PADDING,
                height: mh - MAIN_VIEW_BOTTOM_PADDING,
            },
        )
    } else if starts_with(w.title.as_str(), "LockModeView") {
        Some(AdWindow::MainView { hwnd: w.hwnd, width: mw - LAYOUT_SHADOW_PADDING, height: mh })
    } else {
        None
    }
}

fn is_direct_banner_slot(w: &WindowSnapshot, main: isize, pid: u32, main_rect: &Rect) -> (r: bool)
    requires
        slot_reaches_geometry(*w, main, pid) ==> banner_arith_fits(*main_rect, w.rect.unwrap()),
    ensures
        r == direct_banner_slot(*w, main, pid, *main_rect),
{
    if w.pid != pid || !w.visible {
        return false;
    }
    if w.parent != Some(main) {
        return false;
    }
    let is_banner_class = text_eq(w.class.as_str(), "EVA_ChildWindow") || text_eq(
        w.class.as_str(),
        "EVA_Window_Dblclk",
    );
    if !is_banner_class || !w.title.as_str().is_empty() {
        return false;
    }
    if w.has_eva_descendant {
        return false;
    }
    match w.rect {
        None => false,
        Some(rect) => is_bottom_banner_rect(main_rect, &rect, w.wide_for_banner),
    }
}

/// The ads inside the main window `main` (rectangle `main_rect`, process
/// `pid`), given snapshots of its descendants in enumeration order.
pub fn find_main_window_ads(
    main: isize,
    main_rect: Option<Rect>,
    pid: u32,
    descendants: &Vec<WindowSnapshot>,
) -> (ads: Vec<AdWindow>)
    requires
        main_scan_fits(main, main_rect, pid, descendants@),
    ensures
        ads@ == main_window_ads_spec(main, main_rect, pid, descendants@),
        main_rect is Some && rect_width(main_rect.unwrap()) > 0 && rect_height(main_rect.unwrap()) > 0 ==> forall|i: int|
            0 <= i < descendants@.len() && is_pane_of(#[trigger] descendants@[i], main, pid)
                && "LockModeView"@.is_prefix_of(descendants@[i].title@) ==> ads@.contains(
                AdWindow::MainView {
                    hwnd: descendants@[i].hwnd,
                    width: (rect_width(main_rect.unwrap()) - LAYOUT_SHADOW_PADDING) as i32,
                    height: rect_height(main_rect.unwrap()) as i32,
                },
            ),
        main_rect is Some && rect_width(main_rect.unwrap()) > 0 && rect_height(main_rect.unwrap()) > 0 ==> forall|i: int|
            0 <= i < descendants@.len() && is_pane_of(#[trigger] descendants@[i], main, pid)
                && "OnlineMainView"@.is_prefix_of(descendants@[i].title@) ==> ads@.contains(
                AdWindow::MainView {
                    hwnd: descendants@[i].hwnd,
                    width: (rect_width(main_rect.unwrap()) - LAYOUT_SHADOW_PADDING) as i32,
                    height: (rect_height(main_rect.unwrap()) - MAIN_VIEW_BOTTOM_PADDING) as i32,
                },
            ),
{
    proof {
        if let Some(r) = main_rect {
            if rect_width(r) > 0 && rect_height(r) > 0 {
                assert forall|i: int|
                    0 <= i < descendants@.len() && is_pane_of(#[trigger] descendants@[i], main, pid)
                        && "LockModeView"@.is_prefix_of(descendants@[i].title@) implies main_window_ads_spec(
                    main,
                    main_rect,
                    pid,
                    descendants@,
                ).contains(
                    AdWindow::MainView {
                        hwnd: descendants@[i].hwnd,
                        width: (rect_width(r) - LAYOUT_SHADOW_PADDING) as i32,
                        height: rect_height(r) as i32,
                    },
                ) by {
                    lemma_lock_mode_pane_resized(main, r, pid, descendants@, i);
                }
                assert forall|i: int|
                    0 <= i < descendants@.len() && is_pane_of(#[trigger] descendants@[i], main, pid)
                        && "OnlineMainView"@.is_prefix_of(descendants@[i].title@) implies main_window_ads_spec(
                    main,
                    main_rect,
                    pid,
                    descendants@,
                ).contains(
                    AdWindow::MainView {
                        hwnd: descendants@[i].hwnd,
                        width: (rect_width(r) - LAYOUT_SHADOW_PADDING) as i32,
                        height: (rect_height(r) - MAIN_VIEW_BOTTOM_PADDING) as i32,
                    },
                ) by {
                    lemma_online_pane_resized(main, r, pid, descendants@, i);
                }
            }
        }
    }
    let r = match main_rect {
        Some(r) => r,
        None => return Vec::new(),
    };
    let main_width = r.right - r.left;
    let main_height = r.bottom - r.top;
    if main_width <= 0 || main_height <= 0 {
        return Vec::new();
    }
    let ghost ds = descendants@;
    let mut out: Vec<AdWindow> = Vec::new();
    let mut i: usize = 0;
    while i < descendants.len()
        invariant
            ds == descendants@,
            i <= ds.len(),
            main_width as int == rect_width(r),
            main_height as int == rect_height(r),
            main_width > 0,
            main_height > 0,
            out@ == main_views(ds.take(i as int), main, pid, main_width as int, main_height as int),
        decreases ds.len() - i,
    {
        let found = main_view_for(&descendants[i], main, pid, main_width, main_height);
        proof {
            assert(ds.take(i + 1).drop_last() =~= ds.take(i as int));
            assert(ds.take(i + 1).last() == ds[i as int]);
        }
        match found {
            Some(ad) => {
                out.push(ad);
            },
            None => {},
        }
        i = i + 1;
    }
    assert(ds.take(ds.len() as int) =~= ds);
    if out.len() == 0 {
        return out;
    }
    let ghost views = out@;
    let mut j: usize = 0;
    while j < descendants.len()
        invariant
            ds == descendants@,
            j <= ds.len(),
            views.len() > 0,
            views == main_views(ds, main, pid, rect_width(r), rect_height(r)),
            main_scan_fits(main, main_rect, pid, ds),
            main_rect == Some(r),
            rect_width(r) > 0,
            rect_height(r) > 0,
            out@ == views + banner_slots(ds.take(j as int), main, pid, r),
        decreases ds.len() - j,
    {
        proof {
            assert(ds.take(j + 1).drop_last() =~= ds.take(j as int));
            assert(ds.take(j + 1).last() == ds[j as int]);
            if slot_reaches_geometry(ds[j as int], main, pid) {
                assert(banner_arith_fits(r, ds[j as int].rect.unwrap()));
            }
        }
        let ghost before = out@;
        if is_direct_banner_slot(&descendants[j], main, pid, &r) {
            out.push(AdWindow::BannerSlot { hwnd: descendants[j].hwnd });
        }
        proof {
            assert(out@ =~= views + banner_slots(ds.take(j + 1), main, pid, r));
        }
        j = j + 1;
    }
    assert(ds.take(ds.len() as int) =~= ds);
    out
}

// ---------------------------------------------------------------------------
// Popup ads
// ---------------------------------------------------------------------------

/// The checks of the popup test that come before its size test.
pub open spec fn popup_reaches_size(w: WindowSnapshot, pid: u32) -> bool {
    &&& w.visible
    &&& w.pid == pid
    &&& (w.style & WS_POPUP_BIT) != 0
    &&& w.rect is Some
}

pub open spec fn in_popup_range(x: int) -> bool {
    POPUP_MIN_DIM <= x <= POPUP_MAX_DIM
}

/// An untitled `EVA_Window_Dblclk` child of the main window.
pub open spec fn frame_like(w: WindowSnapshot, main: isize) -> bool {
    w.class@ == "EVA_Window_Dblclk"@ && w.title@.len() == 0 && w.parent == Some(main)
}

/// An untitled top-level `EVA_Window`.
pub open spec fn top_level_ad_shape(w: WindowSnapshot) -> bool {
    w.class@ == "EVA_Window"@ && w.title@.len() == 0 && w.parent is None
}

/// The popup test reaches the banner geometry of `w`.
pub open spec fn popup_reaches_geometry(w: WindowSnapshot, main: isize, pid: u32) -> bool {
    popup_reaches_size(w, pid) && in_popup_range(rect_width(w.rect.unwrap())) && in_popup_range(
        rect_height(w.rect.unwrap()),
    ) && frame_like(w, main)
}

/// The ad, if any, that a visible popup-style window of `pid` between 80 and
/// 900 px in both dimensions is: a bottom-banner-shaped untitled
/// `EVA_Window_Dblclk` child of the main window is a banner slot; an
/// untitled top-level `EVA_Window`, or such a child, hosting a Chrome
/// surface is a popup.
pub open spec fn popup_ad(w: WindowSnapshot, main: isize, main_rect: Rect, pid: u32) -> Option<
    AdWindow,
> {
    if !popup_reaches_size(w, pid) {
        None
    } else if !in_popup_range(rect_width(w.rect.unwrap())) || !in_popup_range(
        rect_height(w.rect.unwrap()),
    ) {
        None
    } else if frame_like(w, main) && banner_rect_spec(main_rect, w.rect.unwrap(), w.wide_for_banner) {
        Some(AdWindow::BannerSlot { hwnd: w.hwnd })
    } else if (top_level_ad_shape(w) || frame_like(w, main)) && w.has_chrome_descendant {
        Some(AdWindow::Popup { hwnd: w.hwnd })
    } else {
        None
    }
}

/// Some window in `prefix` has handle `h`.
pub open spec fn seen_before(prefix: Seq<WindowSnapshot>, h: isize) -> bool {
    exists|j: int| 0 <= j < prefix.len() && #[trigger] prefix[j].hwnd == h
}

/// The candidate is examined: it is not the main window and was not
/// enumerated before.
pub open spec fn first_visit(cs: Seq<WindowSnapshot>, i: int, main: isize) -> bool {
    cs[i].hwnd != main && !seen_before(cs.take(i), cs[i].hwnd)
}

/// The popup ads among candidate windows, in enumeration order; the main
/// window and repeated windows are skipped.
pub open spec fn popup_scan(cs: Seq<WindowSnapshot>, main: isize, main_rect: Rect, pid: u32) -> Seq<
    AdWindow,
>
    decreases cs.len(),
{
    if cs.len() == 0 {
        seq![]
    } else {
        popup_scan(cs.drop_last(), main, main_rect, pid) + (if cs.last().hwnd != main
            && !seen_before(cs.drop_last(), cs.last().hwnd) {
            opt_seq(popup_ad(cs.last(), main, main_rect, pid))
        } else {
            seq![]
        })
    }
}

/// Some ad in `s` is for window `h`.
pub open spec fn ads_contain(s: Seq<AdWindow>, h: isize) -> bool {
    exists|i: int| 0 <= i < s.len() && ad_hwnd(#[trigger] s[i]) == h
}

/// The checks of the bottom-banner-frame test that come before its geometry.
pub open spec fn frame_reaches_geometry(w: WindowSnapshot, main: isize) -> bool {
    w.visible && frame_like(w, main) && w.rect is Some
}

/// `w` is a visible, untitled `EVA_Window_Dblclk` child of the main window
/// shaped like the bottom banner.
pub open spec fn bottom_banner_frame(w: WindowSnapshot, main: isize, main_rect: Rect) -> bool {
    frame_reaches_geometry(w, main) && banner_rect_spec(main_rect, w.rect.unwrap(), w.wide_for_banner)
}

/// `base` followed by a banner slot for each related window, in order, that
/// is a bottom banner frame and not already selected.
pub open spec fn frames_after(
    base: Seq<AdWindow>,
    rs: Seq<WindowSnapshot>,
    main: isize,
    main_rect: Rect,
) -> Seq<AdWindow>
    decreases rs.len(),
{
    if rs.len() == 0 {
        base
    } else {
        let prev = frames_after(base, rs.drop_last(), main, main_rect);
        if !ads_contain(prev, rs.last().hwnd) && bottom_banner_frame(rs.last(), main, main_rect) {
            prev.push(AdWindow::BannerSlot { hwnd: rs.last().hwnd })
        } else {
            prev
        }
    }
}

/// The popup-level ads around the main window: the popup scan over the
/// candidates, then the bottom banner frames among the related windows.
pub open spec fn popup_ads_spec(
    main: isize,
    main_rect: Option<Rect>,
    pid: u32,
    cs: Seq<WindowSnapshot>,
    rs: Seq<WindowSnapshot>,
) -> Seq<AdWindow> {
    match main_rect {
        None => seq![],
        Some(r) => frames_after(popup_scan(cs, main, r, pid), rs, main, r),
    }
}

/// The popup scan is computable without `i32` overflow.
pub open spec fn popup_scan_fits(
    main: isize,
    main_rect: Option<Rect>,
    pid: u32,
    cs: Seq<WindowSnapshot>,
    rs: Seq<WindowSnapshot>,
) -> bool {
    main_rect matches Some(r) ==> {
        &&& forall|i: int|
            0 <= i < cs.len() && first_visit(cs, i, main) && popup_reaches_size(#[trigger] cs[i], pid)
                ==> rect_dims_fit(cs[i].rect.unwrap())
        &&& forall|i: int|
            0 <= i < cs.len() && first_visit(cs, i, main) && popup_reaches_geometry(
                #[trigger] cs[i],
                main,
                pid,
            ) ==> banner_arith_fits(r, cs[i].rect.unwrap())
        &&& forall|i: int|
            0 <= i < rs.len() && frame_reaches_geometry(#[trigger] rs[i], main) && !ads_contain(
                frames_after(popup_scan(cs, main, r, pid), rs.take(i), main, r),
                rs[i].hwnd,
            ) ==> banner_arith_fits(r, rs[i].rect.unwrap())
    }
}

fn classify_popup(w: &WindowSnapshot, main: isize, main_rect: &Rect, pid: u32) -> (r: Option<
    AdWindow,
>)
    requires
        popup_reaches_size(*w, pid) ==> rect_dims_fit(w.rect.unwrap()),
        popup_reaches_geometry(*w, main, pid) ==> banner_arith_fits(*main_rect, w.rect.unwrap()),
    ensures
        r == popup_ad(*w, main, *main_rect, pid),
{
    if !w.visible || w.pid != pid || w.style & WS_POPUP_BIT == 0 {
        return None;
    }
    let rect = match w.rect {
        Some(rect) => rect,
        None => return None,
    };
    let width = rect.right - rect.left;
    let height = rect.bottom - rect.top;
    if !(POPUP_MIN_DIM <= width && width <= POPUP_MAX_DIM) || !(POPUP_MIN_DIM <= height && height
        <= POPUP_MAX_DIM) {
        return None;
    }
    let untitled = w.title.as_str().is_empty();
    let is_dblclk = text_eq(w.class.as_str(), "EVA_Window_Dblclk");
    let frame = is_dblclk && untitled && w.parent == Some(main);
    if frame && is_bottom_banner_rect(main_rect, &rect, w.wide_for_banner) {
        return Some(AdWindow::BannerSlot { hwnd: w.hwnd });
    }
    let top_level = text_eq(w.class.as_str(), "EVA_Window") && untitled && w.parent.is_none();
    if !(top_level || frame) {
        return None;
    }
    if !w.has_chrome_descendant {
        return None;
    }
    Some(AdWindow::Popup { hwnd: w.hwnd })
}

/// Whether a window with handle `h` appears among the first `n` candidates.
fn seen_among(cs: &Vec<WindowSnapshot>, n: usize, h: isize) -> (r: bool)
    requires
        n <= cs@.len(),
    ensures
        r == seen_before(cs@.take(n as int), h),
{
    let mut j: usize = 0;
    while j < n
        invariant
            n <= cs@.len(),
            j <= n,
            forall|k: int| 0 <= k < j ==> cs@[k].hwnd != h,
        decreases n - j,
    {
        if cs[j].hwnd == h {
            assert(cs@.take(n as int)[j as int].hwnd == h);
            return true;
        }
        j = j + 1;
    }
    proof {
        if seen_before(cs@.take(n as int), h) {
            let k = choose|k: int| 0 <= k < n && #[trigger] cs@.take(n as int)[k].hwnd == h;
            assert(cs@[k].hwnd == h);
        }
    }
    false
}

/// Whether some ad in `ads` is for window `h`.
fn ads_include(ads: &Vec<AdWindow>, h: isize) -> (r: bool)
    ensures
        r == ads_contain(ads@, h),
{
    let mut i: usize = 0;
    while i < ads.len()
        invariant
            i <= ads@.len(),
            forall|k: int| 0 <= k < i ==> ad_hwnd(#[trigger] ads@[k]) != h,
        decreases ads.len() - i,
    {
        if ads[i].hwnd() == h {
            return true;
        }
        i = i + 1;
    }
    false
}

fn is_bottom_banner_frame(w: &WindowSnapshot, main: isize, main_rect: &Rect) -> (r: bool)
    requires
        frame_reaches_geometry(*w, main) ==> banner_arith_fits(*main_rect, w.rect.unwrap()),
    ensures
        r == bottom_banner_frame(*w, main, *main_rect),
{
    if !w.visible {
        return false;
    }
    if !text_eq(w.class.as_str(), "EVA_Window_Dblclk") || !w.title.as_str().is_empty() {
        return false;
    }
    if w.parent != Some(main) {
        return false;
    }
    match w.rect {
        None => false,
        Some(rect) => is_bottom_banner_rect(main_rect, &rect, w.wide_for_banner),
    }
}

/// The popup-level ads around the main window `main` (rectangle `main_rect`,
/// process `pid`). `candidates` are the top-level windows followed by the
/// main window thread's windows, in enumeration order; `related` are the
/// windows of `pid` and their descendants.
pub fn find_popup_ads(
    main: isize,
    main_rect: Option<Rect>,
    pid: u32,
    candidates: &Vec<WindowSnapshot>,
    related: &Vec<WindowSnapshot>,
) -> (ads: Vec<AdWindow>)
    requires
        popup_scan_fits(main, main_rect, pid, candidates@, related@),
    ensures
        ads@ == popup_ads_spec(main, main_rect, pid, candidates@, related@),
        main_rect is Some ==> forall|i: int|
            0 <= i < candidates@.len() && first_visit(candidates@, i, main) && chrome_popup_candidate(
                #[trigger] candidates@[i],
                main,
                main_rect.unwrap(),
                pid,
            ) ==> ads@.contains(AdWindow::Popup { hwnd: candidates@[i].hwnd }),
{
    proof {
        if let Some(r) = main_rect {
            assert forall|i: int|
                0 <= i < candidates@.len() && first_visit(candidates@, i, main)
                    && chrome_popup_candidate(#[trigger] candidates@[i], main, r, pid) implies popup_ads_spec(
                main,
                main_rect,
                pid,
                candidates@,
                related@,
            ).contains(AdWindow::Popup { hwnd: candidates@[i].hwnd }) by {
                lemma_chrome_popup_found(main, r, pid, candidates@, related@, i);
            }
        }
    }
    let r = match main_rect {
        Some(r) => r,
        None => return Vec::new(),
    };
    let ghost cs = candidates@;
    let ghost rs = related@;
    let mut out: Vec<AdWindow> = Vec::new();
    let mut i: usize = 0;
    while i < candidates.len()
        invariant
            cs == candidates@,
            i <= cs.len(),
            main_rect == Some(r),
            popup_scan_fits(main, main_rect, pid, cs, rs),
            out@ == popup_scan(cs.take(i as int), main, r, pid),
        decreases cs.len() - i,
    {
        proof {
            assert(cs.take(i + 1).drop_last() =~= cs.take(i as int));
            assert(cs.take(i + 1).last() == cs[i as int]);
        }
        let h = candidates[i].hwnd;
        if h != main && !seen_among(candidates, i, h) {
            proof {
                assert(first_visit(cs, i as int, main));
                if popup_reaches_size(cs[i as int], pid) {
                    assert(rect_dims_fit(cs[i as int].rect.unwrap()));
                }
                if popup_reaches_geometry(cs[i as int], main, pid) {
                    assert(banner_arith_fits(r, cs[i as int].rect.unwrap()));
                }
            }
            match classify_popup(&candidates[i], main, &r, pid) {
                Some(ad) => out.push(ad),
                None => {},
            }
        }
        i = i + 1;
    }
    assert(cs.take(cs.len() as int) =~= cs);
    let ghost base = out@;
    let mut k: usize = 0;
    while k < related.len()
        invariant
            cs == candidates@,
            rs == related@,
            k <= rs.len(),
            main_rect == Some(r),
            popup_scan_fits(main, main_rect, pid, cs, rs),
            base == popup_scan(cs, main, r, pid),
            out@ == frames_after(base, rs.take(k as int), main, r),
        decreases rs.len() - k,
    {
        proof {
            assert(rs.take(k + 1).drop_last() =~= rs.take(k as int));
            assert(rs.take(k + 1).last() == rs[k as int]);
        }
        let h = related[k].hwnd;
        if !ads_include(&out, h) {
            proof {
                if frame_reaches_geometry(rs[k as int], main) {
                    assert(banner_arith_fits(r, rs[k as int].rect.unwrap()));
                }
            }
            if is_bottom_banner_frame(&related[k], main, &r) {
                out.push(AdWindow::BannerSlot { hwnd: h });
            }
        }
        k = k + 1;
    }
    assert(rs.take(rs.len() as int) =~= rs);
    out
}

// ---------------------------------------------------------------------------
// Applying and undoing
// ---------------------------------------------------------------------------

/// How a window was changed, and so how to undo it.
#[derive(Clone, Copy, Debug, PartialEq, Eq, Structural)]
pub enum RestoreKind {
    ResizedPane,
    HiddenWindow,
}

/// The original state of a changed window.
#[derive(Clone, Copy, Debug, PartialEq, Eq, Structural)]
pub struct SavedWindow {
    pub hwnd: isize,
    pub rect: Rect,
    pub visible: bool,
    pub kind: RestoreKind,
}

/// What is known of an ad window when it is about to be changed.
#[derive(Clone, Copy, Debug, PartialEq, Eq, Structural)]
pub struct TargetState {
    /// The handle still names a window.
    pub alive: bool,
    pub visible: bool,
    /// The window rectangle, when it could be read.
    pub rect: Option<Rect>,
}

/// What is known of KakaoTalk's main window.
#[derive(Clone, Copy, Debug, PartialEq, Eq, Structural)]
pub struct MainWindowState {
    pub iconic: bool,
    pub visible: bool,
    /// The owning process id (0 when unknown).
    pub pid: u32,
    /// The owning process's image is KakaoTalk's executable.
    pub image_is_kakaotalk: bool,
}

/// A change to make to a window.
#[derive(Clone, Copy, Debug, PartialEq, Eq, Structural)]
pub enum WindowOp {
    /// Resize the window (keeping its position) to `width` x `height` and
    /// raise it above its siblings.
    Resize { hwnd: isize, width: i32, height: i32 },
    /// Hide the window.
    Hide { hwnd: isize },
}

/// A step of undoing; it applies only to a window that still exists.
#[derive(Clone, Copy, Debug, PartialEq, Eq, Structural)]
pub enum RestoreOp {
    /// Give the pane back its size, keeping its position.
    Resize { hwnd: isize, width: i32, height: i32 },
    /// Show or hide the window as it was, then repaint it.
    Show { hwnd: isize, visible: bool },
}

/// Which ad scans an apply pass runs.
#[derive(Clone, Copy, Debug, PartialEq, Eq, Structural)]
pub struct ApplyScope {
    pub banner: bool,
    pub popup: bool,
}

/// The ad-blocking state: the cached main window and the original state of
/// every window changed since the last restore.
pub struct AdBlocker {
    main_hwnd: Option<isize>,
    original: Vec<SavedWindow>,
}

/// No two saved states are for the same window, and every resized pane's
/// saved size is representable.
pub open spec fn saved_wf(s: Seq<SavedWindow>) -> bool {
    &&& forall|i: int, j: int| 0 <= i < j < s.len() ==> #[trigger] s[i].hwnd != #[trigger] s[j].hwnd
    &&& forall|i: int|
        0 <= i < s.len() && (#[trigger] s[i]).kind == RestoreKind::ResizedPane ==> rect_dims_fit(
            s[i].rect,
        )
}

pub open spec fn saved_has(s: Seq<SavedWindow>, h: isize) -> bool {
    exists|i: int| 0 <= i < s.len() && (#[trigger] s[i]).hwnd == h
}

/// Recording a window's original state: the first record for a window is
/// kept, and a window whose rectangle is unknown is not recorded.
pub open spec fn save_spec(
    s: Seq<SavedWindow>,
    h: isize,
    kind: RestoreKind,
    rect: Option<Rect>,
    visible: bool,
) -> Seq<SavedWindow> {
    if saved_has(s, h) {
        s
    } else {
        match rect {
            Some(r) => s.push(SavedWindow { hwnd: h, rect: r, visible, kind }),
            None => s,
        }
    }
}

/// The steps giving resized panes their saved size back, in saved order;
/// a pane whose saved size is not positive is left alone.
pub open spec fn resize_ops(s: Seq<SavedWindow>) -> Seq<RestoreOp>
    decreases s.len(),
{
    if s.len() == 0 {
        seq![]
    } else {
        let w = s.last();
        resize_ops(s.drop_last()) + (if w.kind == RestoreKind::ResizedPane && rect_width(w.rect)
            > 0 && rect_height(w.rect) > 0 {
            seq![
                RestoreOp::Resize {
                    hwnd: w.hwnd,
                    width: rect_width(w.rect) as i32,
                    height: rect_height(w.rect) as i32,
                },
            ]
        } else {
            seq![]
        })
    }
}

/// The steps giving hidden windows their saved visibility back, in saved
/// order.
pub open spec fn show_ops(s: Seq<SavedWindow>) -> Seq<RestoreOp>
    decreases s.len(),
{
    if s.len() == 0 {
        seq![]
    } else {
        let w = s.last();
        show_ops(s.drop_last()) + (if w.kind == RestoreKind::HiddenWindow {
            seq![RestoreOp::Show { hwnd: w.hwnd, visible: w.visible }]
        } else {
            seq![]
        })
    }
}

/// The main window (when known) is minimized or hidden, so undoing waits.
pub open spec fn restore_deferred(main: Option<MainWindowState>) -> bool {
    main matches Some(m) && (m.iconic || !m.visible)
}

/// The scans an apply pass runs for configuration `cfg` and main window
/// `main`: none when the main window is unknown, minimized, hidden, of an
/// unknown process or not KakaoTalk's; otherwise those the configuration
/// enables.
pub open spec fn apply_scope_spec(cfg: Config, main: Option<MainWindowState>) -> ApplyScope {
    match main {
        Some(m) => if m.iconic || !m.visible || m.pid == 0 || !m.image_is_kakaotalk {
            ApplyScope { banner: false, popup: false }
        } else {
            ApplyScope { banner: cfg.ad_block_banner, popup: cfg.ad_block_popup }
        },
        None => ApplyScope { banner: false, popup: false },
    }
}

impl AdBlocker {
    #[verifier::type_invariant]
    spec fn inv(self) -> bool {
        saved_wf(self.original@)
    }

    /// The recorded original states, oldest first.
    pub closed spec fn saved(self) -> Seq<SavedWindow> {
        self.original@
    }

    /// The cached main window handle.
    pub closed spec fn cached_main(self) -> Option<isize> {
        self.main_hwnd
    }

    /// A blocker with no cached main window and nothing to restore.
    pub fn new() -> (b: AdBlocker)
        ensures
            b.cached_main() is None,
            b.saved() == Seq::<SavedWindow>::empty(),
    {
        AdBlocker { main_hwnd: None, original: Vec::new() }
    }

    /// The cached main window handle (the caller checks it is still a window).
    pub fn main_hwnd(&self) -> (h: Option<isize>)
        ensures
            h == self.cached_main(),
    {
        self.main_hwnd
    }

    /// Caches `h` as KakaoTalk's main window.
    pub fn set_main_hwnd(&mut self, h: Option<isize>)
        ensures
            final(self).cached_main() == h,
            final(self).saved() == old(self).saved(),
    {
        proof {
            use_type_invariant(&*self);
        }
        self.main_hwnd = h;
    }

    /// Forgets the main window and every recorded state (KakaoTalk exited).
    pub fn reset(&mut self)
        ensures
            final(self).cached_main() is None,
            final(self).saved() == Seq::<SavedWindow>::empty(),
    {
        self.original = Vec::new();
        self.main_hwnd = None;
    }

    /// Whether some change is waiting to be undone.
    pub fn has_pending_restore(&self) -> (r: bool)
        ensures
            r == (self.saved().len() > 0),
    {
        self.original.len() > 0
    }

    /// The number of recorded states.
    pub fn saved_count(&self) -> (n: usize)
        ensures
            n == self.saved().len(),
    {
        self.original.len()
    }

    /// The recorded state of window `h`, if any.
    pub fn saved_state(&self, h: isize) -> (r: Option<SavedWindow>)
        ensures
            r is Some <==> saved_has(self.saved(), h),
            r matches Some(w) ==> w.hwnd == h && self.saved().contains(w),
    {
        let mut i: usize = 0;
        while i < self.original.len()
            invariant
                i <= self.original@.len(),
                forall|k: int| 0 <= k < i ==> self.original@[k].hwnd != h,
            decreases self.original.len() - i,
        {
            if self.original[i].hwnd == h {
                return Some(self.original[i]);
            }
            i = i + 1;
        }
        None
    }

    /// Records the original state of window `h` before it is changed; a
    /// window already recorded keeps its first record.
    pub fn save_state(&mut self, h: isize, kind: RestoreKind, rect: Option<Rect>, visible: bool)
        requires
            kind == RestoreKind::ResizedPane && rect is Some ==> rect_dims_fit(rect.unwrap()),
        ensures
            final(self).saved() == save_spec(old(self).saved(), h, kind, rect, visible),
            final(self).cached_main() == old(self).cached_main(),
    {
        proof {
            use_type_invariant(&*self);
        }
        if self.saved_state(h).is_some() {
            return;
        }
        match rect {
            Some(r) => {
                let mut saved: Vec<SavedWindow> = Vec::new();
                std::mem::swap(&mut saved, &mut self.original);
                saved.push(SavedWindow { hwnd: h, rect: r, visible, kind });
                proof {
                    assert(saved_wf(saved@));
                }
                self.original = saved;
            },
            None => {},
        }
    }

    /// Which scans an apply pass runs for `cfg`, given KakaoTalk's main
    /// window (`None` when none was found).
    pub fn apply_all(&self, cfg: &Config, main: Option<MainWindowState>) -> (scope: ApplyScope)
        ensures
            scope == apply_scope_spec(*cfg, main),
            main is None ==> !scope.banner && !scope.popup,
            main matches Some(m) && (m.iconic || !m.visible || m.pid == 0 || !m.image_is_kakaotalk)
                ==> !scope.banner && !scope.popup,
            main matches Some(m) && !m.iconic && m.visible && m.pid != 0 && m.image_is_kakaotalk
                ==> scope.banner == cfg.ad_block_banner && scope.popup == cfg.ad_block_popup,
    {
        let m = match main {
            Some(m) => m,
            None => return ApplyScope { banner: false, popup: false },
        };
        if m.iconic || !m.visible {
            return ApplyScope { banner: false, popup: false };
        }
        if m.pid == 0 || !m.image_is_kakaotalk {
            return ApplyScope { banner: false, popup: false };
        }
        ApplyScope { banner: cfg.ad_block_banner, popup: cfg.ad_block_popup }
    }

    /// Decides the change for ad `ad` in state `target` and records the
    /// window's original state. A main-view pane is resized unless it is
    /// gone, the target size is not positive, its rectangle is unknown or it
    /// already has the target size; a banner slot or popup is hidden unless it
    /// is gone or already hidden.
    pub fn remove_ad(&mut self, ad: &AdWindow, target: &TargetState) -> (op: Option<WindowOp>)
        requires
            ad matches AdWindow::MainView { width, height, .. } && target.alive && width > 0 && height
                > 0 && target.rect is Some ==> rect_dims_fit(target.rect.unwrap()),
        ensures
            final(self).cached_main() == old(self).cached_main(),
            match *ad {
                AdWindow::MainView { hwnd, width, height } => {
                    if !target.alive || width <= 0 || height <= 0 || target.rect is None || (
                    rect_width(target.rect.unwrap()) == width && rect_height(target.rect.unwrap())
                        == height) {
                        op is None && final(self).saved() == old(self).saved()
                    } else {
                        op == Some(WindowOp::Resize { hwnd, width, height }) && final(self).saved()
                            == save_spec(
                            old(self).saved(),
                            hwnd,
                            RestoreKind::ResizedPane,
                            target.rect,
                            target.visible,
                        )
                    }
                },
                AdWindow::BannerSlot { hwnd } | AdWindow::Popup { hwnd } => {
                    if !target.alive || !target.visible {
                        op is None && final(self).saved() == old(self).saved()
                    } else {
                        op == Some(WindowOp::Hide { hwnd }) && final(self).saved() == save_spec(
                            old(self).saved(),
                            hwnd,
                            RestoreKind::HiddenWindow,
                            target.rect,
                            target.visible,
                        )
                    }
                },
            },
    {
        match *ad {
            AdWindow::MainView { hwnd, width, height } => {
                if !target.alive || width <= 0 || height <= 0 {
                    return None;
                }
                let current = match target.rect {
                    Some(r) => r,
                    None => return None,
                };
                let current_w = current.right - current.left;
                let current_h = current.bottom - current.top;
                if current_w == width && current_h == height {
                    return None;
                }
                self.save_state(hwnd, RestoreKind::ResizedPane, target.rect, target.visible);
                Some(WindowOp::Resize { hwnd, width, height })
            },
            AdWindow::BannerSlot { hwnd } | AdWindow::Popup { hwnd } => {
                if !target.alive || !target.visible {
                    return None;
                }
                self.save_state(hwnd, RestoreKind::HiddenWindow, target.rect, target.visible);
                Some(WindowOp::Hide { hwnd })
            },
        }
    }

    /// The steps undoing every recorded change: resized panes first, then
    /// hidden windows, each in the order they were recorded. Nothing happens
    /// (and the records are kept) while KakaoTalk's main window `main` is
    /// minimized or hidden; otherwise the records are cleared.
    pub fn restore_all(&mut self, main: Option<MainWindowState>) -> (ops: Vec<RestoreOp>)
        ensures
            final(self).cached_main() == old(self).cached_main(),
            old(self).saved().len() == 0 || restore_deferred(main) ==> ops@.len() == 0
                && final(self).saved() == old(self).saved(),
            !(old(self).saved().len() == 0 || restore_deferred(main)) ==> ops@ == resize_ops(
                old(self).saved(),
            ) + show_ops(old(self).saved()) && final(self).saved() == Seq::<SavedWindow>::empty(),
            main matches Some(m) && (m.iconic || !m.visible)
                ==> ops@.len() == 0 && final(self).saved() == old(self).saved(),
            (main is None || (main matches Some(m) && !m.iconic && m.visible))
                ==> final(self).saved().len() == 0,
    {
        proof {
            use_type_invariant(&*self);
        }
        if self.original.len() == 0 {
            return Vec::new();
        }
        match main {
            Some(m) => {
                if m.iconic || !m.visible {
                    return Vec::new();
                }
            },
            None => {},
        }
        let mut states: Vec<SavedWindow> = Vec::new();
        std::mem::swap(&mut states, &mut self.original);
        let ghost s = states@;
        let mut ops: Vec<RestoreOp> = Vec::new();
        let mut i: usize = 0;
        while i < states.len()
            invariant
                s == states@,
                saved_wf(s),
                i <= s.len(),
                ops@ == resize_ops(s.take(i as int)),
            decreases s.len() - i,
        {
            proof {
                assert(s.take(i + 1).drop_last() =~= s.take(i as int));
                assert(s.take(i + 1).last() == s[i as int]);
            }
            let w = states[i];
            if w.kind == RestoreKind::ResizedPane {
                assert(rect_dims_fit(s[i as int].rect));
                let width = w.rect.right - w.rect.left;
                let height = w.rect.bottom - w.rect.top;
                if width > 0 && height > 0 {
                    ops.push(RestoreOp::Resize { hwnd: w.hwnd, width, height });
                }
            }
            i = i + 1;
        }
        assert(s.take(s.len() as int) =~= s);
        let ghost resized = ops@;
        let mut j: usize = 0;
        while j < states.len()
            invariant
                s == states@,
                j <= s.len(),
                resized == resize_ops(s),
                ops@ == resized + show_ops(s.take(j as int)),
            decreases s.len() - j,
        {
            proof {
                assert(s.take(j + 1).drop_last() =~= s.take(j as int));
                assert(s.take(j + 1).last() == s[j as int]);
            }
            let w = states[j];
            let ghost before = ops@;
            if w.kind == RestoreKind::HiddenWindow {
                ops.push(RestoreOp::Show { hwnd: w.hwnd, visible: w.visible });
            }
            proof {
                assert(ops@ =~= resized + show_ops(s.take(j + 1)));
            }
            j = j + 1;
        }
        assert(s.take(s.len() as int) =~= s);
        ops
    }
}

// ---------------------------------------------------------------------------
// Window discovery
// ---------------------------------------------------------------------------

/// A top-level window that can be KakaoTalk's main window: visible, owned by
/// a known process whose image is KakaoTalk's, not a popup, and titled.
pub open spec fn main_window_candidate_spec(
    visible: bool,
    pid: u32,
    image_is_kakaotalk: bool,
    style: u32,
    title: Seq<char>,
) -> bool {
    visible && pid != 0 && image_is_kakaotalk && (style & WS_POPUP_BIT) == 0 && title.len() > 0
}

/// Whether a top-level window found while enumerating can be KakaoTalk's
/// main window.
pub fn is_main_window_candidate(
    visible: bool,
    pid: u32,
    image_is_kakaotalk: bool,
    style: u32,
    title: &str,
) -> (r: bool)
    ensures
        r == main_window_candidate_spec(visible, pid, image_is_kakaotalk, style, title@),
{
    visible && pid != 0 && image_is_kakaotalk && style & WS_POPUP_BIT == 0 && !title.is_empty()
}

pub open spec fn strictly_increasing(s: Seq<isize>) -> bool {
    forall|i: int, j: int| 0 <= i < j < s.len() ==> s[i] < s[j]
}

/// The window handles `hs` sorted by value, each once.
pub fn sorted_unique_handles(hs: &Vec<isize>) -> (r: Vec<isize>)
    ensures
        strictly_increasing(r@),
        forall|x: isize| r@.contains(x) <==> hs@.contains(x),
{
    let mut r: Vec<isize> = Vec::new();
    let mut i: usize = 0;
    while i < hs.len()
        invariant
            i <= hs@.len(),
            strictly_increasing(r@),
            forall|x: isize| r@.contains(x) <==> hs@.take(i as int).contains(x),
        decreases hs.len() - i,
    {
        let h = hs[i];
        let mut p: usize = 0;
        while p < r.len() && r[p] < h
            invariant
                p <= r@.len(),
                forall|k: int| 0 <= k < p ==> r@[k] < h,
            decreases r.len() - p,
        {
            p = p + 1;
        }
        let ghost old_r = r@;
        assert(forall|x: isize| old_r.contains(x) <==> hs@.take(i as int).contains(x));
        assert(strictly_increasing(old_r));
        assert(hs@.take(i + 1) =~= hs@.take(i as int).push(h));
        if p < r.len() && r[p] == h {
            assert forall|x: isize| r@.contains(x) <==> hs@.take(i + 1).contains(x) by {
                if x == h {
                    assert(r@[p as int] == h);
                }
            }
        } else {
            r.insert(p, h);
            assert forall|a: int, b: int| 0 <= a < b < r@.len() implies r@[a] < r@[b] by {
                if b < p {
                } else if a < p && b == p {
                } else if a < p {
                    assert(r@[b] == old_r[b - 1]);
                } else if a == p {
                    assert(r@[b] == old_r[b - 1]);
                    assert(old_r[p as int] > h);
                } else {
                    assert(r@[a] == old_r[a - 1] && r@[b] == old_r[b - 1]);
                }
            }
            assert forall|x: isize| r@.contains(x) <==> hs@.take(i + 1).contains(x) by {
                let t = hs@.take(i as int);
                let t1 = hs@.take(i + 1);
                if t1.contains(x) {
                    let k = choose|k: int| 0 <= k < t1.len() && t1[k] == x;
                    if k < i {
                        assert(t[k] == x);
                        assert(t.contains(x));
                        assert(old_r.contains(x));
                    }
                }
                if old_r.contains(x) {
                    assert(t.contains(x));
                    let j = choose|j: int| 0 <= j < t.len() && t[j] == x;
                    assert(t1[j] == x);
                }
                if x == h {
                    assert(t1[i as int] == h);
                }
                if old_r.contains(x) {
                    let k = choose|k: int| 0 <= k < old_r.len() && old_r[k] == x;
                    if k < p {
                        assert(r@[k] == x);
                    } else {
                        assert(r@[k + 1] == x);
                    }
                }
                if r@.contains(x) {
                    let k = choose|k: int| 0 <= k < r@.len() && r@[k] == x;
                    if k < p {
                        assert(old_r[k] == x);
                    } else if k > p {
                        assert(old_r[k - 1] == x);
                    }
                }
                if x == h {
                    assert(r@[p as int] == h);
                }
            }
        }
        i = i + 1;
    }
    assert(hs@.take(hs@.len() as int) =~= hs@);
    r
}

/// Screen coordinates small enough for every subtraction of the ad scans.
pub open spec fn coord_in_range(x: i32) -> bool {
    -0x2000_0000 <= x <= 0x2000_0000
}

pub open spec fn rect_in_range(r: Rect) -> bool {
    coord_in_range(r.left) && coord_in_range(r.top) && coord_in_range(r.right) && coord_in_range(
        r.bottom,
    )
}

pub open spec fn snapshot_in_range(w: WindowSnapshot) -> bool {
    w.rect matches Some(r) ==> rect_in_range(r)
}

/// Every rectangle of a scan's input lies in the coordinate range.
pub open spec fn scan_in_range(main_rect: Option<Rect>, ws: Seq<WindowSnapshot>) -> bool {
    &&& main_rect matches Some(m) ==> rect_in_range(m)
    &&& forall|i: int| 0 <= i < ws.len() ==> snapshot_in_range(#[trigger] ws[i])
}

fn rect_ok(r: &Rect) -> (b: bool)
    ensures
        b == rect_in_range(*r),
{
    -0x2000_0000 <= r.left && r.left <= 0x2000_0000 && -0x2000_0000 <= r.top && r.top
        <= 0x2000_0000 && -0x2000_0000 <= r.right && r.right <= 0x2000_0000 && -0x2000_0000
        <= r.bottom && r.bottom <= 0x2000_0000
}

/// Whether the main rectangle and every window rectangle lie within the
/// coordinate range in which the ad scans cannot overflow.
pub fn scan_input_in_range(main_rect: &Option<Rect>, windows: &Vec<WindowSnapshot>) -> (b: bool)
    ensures
        b == scan_in_range(*main_rect, windows@),
{
    if let Some(m) = main_rect {
        if !rect_ok(m) {
            return false;
        }
    }
    let mut i: usize = 0;
    while i < windows.len()
        invariant
            i <= windows@.len(),
            forall|k: int| 0 <= k < i ==> snapshot_in_range(#[trigger] windows@[k]),
        decreases windows.len() - i,
    {
        if let Some(r) = &windows[i].rect {
            if !rect_ok(r) {
                return false;
            }
        }
        i = i + 1;
    }
    true
}

proof fn lemma_banner_arith_in_range(m: Rect, r: Rect)
    requires
        rect_in_range(m),
        rect_in_range(r),
    ensures
        banner_arith_fits(m, r),
        rect_dims_fit(r),
{
}

/// Rectangles within the coordinate range make the main-window scan free of
/// overflow.
pub proof fn lemma_main_scan_in_range(main: isize, main_rect: Option<Rect>, pid: u32, ds: Seq<WindowSnapshot>)
    requires
        scan_in_range(main_rect, ds),
    ensures
        main_scan_fits(main, main_rect, pid, ds),
{
    if let Some(m) = main_rect {
        assert forall|i: int| 0 <= i < ds.len() && slot_reaches_geometry(#[trigger] ds[i], main, pid)
            implies banner_arith_fits(m, ds[i].rect.unwrap()) by {
            assert(snapshot_in_range(ds[i]));
            lemma_banner_arith_in_range(m, ds[i].rect.unwrap());
        }
    }
}

/// Rectangles within the coordinate range make the popup scan free of
/// overflow.
pub proof fn lemma_popup_scan_in_range(
    main: isize,
    main_rect: Option<Rect>,
    pid: u32,
    cs: Seq<WindowSnapshot>,
    rs: Seq<WindowSnapshot>,
)
    requires
        scan_in_range(main_rect, cs),
        scan_in_range(main_rect, rs),
    ensures
        popup_scan_fits(main, main_rect, pid, cs, rs),
{
    if let Some(m) = main_rect {
        assert forall|i: int|
            0 <= i < cs.len() && first_visit(cs, i, main) && popup_reaches_size(#[trigger] cs[i], pid)
            implies rect_dims_fit(cs[i].rect.unwrap()) by {
            assert(snapshot_in_range(cs[i]));
            lemma_banner_arith_in_range(m, cs[i].rect.unwrap());
        }
        assert forall|i: int|
            0 <= i < cs.len() && first_visit(cs, i, main) && popup_reaches_geometry(
                #[trigger] cs[i],
                main,
                pid,
            ) implies banner_arith_fits(m, cs[i].rect.unwrap()) by {
            assert(snapshot_in_range(cs[i]));
            lemma_banner_arith_in_range(m, cs[i].rect.unwrap());
        }
        assert forall|i: int|
            0 <= i < rs.len() && frame_reaches_geometry(#[trigger] rs[i], main) && !ads_contain(
                frames_after(popup_scan(cs, main, m, pid), rs.take(i), main, m),
                rs[i].hwnd,
            ) implies banner_arith_fits(m, rs[i].rect.unwrap()) by {
            assert(snapshot_in_range(rs[i]));
            lemma_banner_arith_in_range(m, rs[i].rect.unwrap());
        }
    }
}

/// No two ads in `s` are for the same window.
pub open spec fn ads_distinct(s: Seq<AdWindow>) -> bool {
    forall|i: int, j: int| 0 <= i < j < s.len() ==> ad_hwnd(#[trigger] s[i]) != ad_hwnd(#[trigger] s[j])
}

proof fn lemma_popup_scan_from_candidates(cs: Seq<WindowSnapshot>, main: isize, main_rect: Rect, pid: u32)
    ensures
        forall|i: int|
            0 <= i < popup_scan(cs, main, main_rect, pid).len() ==> seen_before(
                cs,
                ad_hwnd(#[trigger] popup_scan(cs, main, main_rect, pid)[i]),
            ),
    decreases cs.len(),
{
    if cs.len() > 0 {
        let prefix = cs.drop_last();
        lemma_popup_scan_from_candidates(prefix, main, main_rect, pid);
        let before = popup_scan(prefix, main, main_rect, pid);
        let all = popup_scan(cs, main, main_rect, pid);
        assert forall|i: int| 0 <= i < all.len() implies seen_before(cs, ad_hwnd(#[trigger] all[i])) by {
            if i < before.len() {
                assert(all[i] == before[i]);
                let j = choose|j: int| 0 <= j < prefix.len() && #[trigger] prefix[j].hwnd == ad_hwnd(
                    before[i],
                );
                assert(cs[j].hwnd == prefix[j].hwnd);
            } else {
                assert(ad_hwnd(all[i]) == cs.last().hwnd);
                assert(cs[cs.len() - 1].hwnd == cs.last().hwnd);
            }
        }
    }
}

proof fn lemma_popup_scan_distinct(cs: Seq<WindowSnapshot>, main: isize, main_rect: Rect, pid: u32)
    ensures
        ads_distinct(popup_scan(cs, main, main_rect, pid)),
    decreases cs.len(),
{
    if cs.len() > 0 {
        let prefix = cs.drop_last();
        lemma_popup_scan_distinct(prefix, main, main_rect, pid);
        lemma_popup_scan_from_candidates(prefix, main, main_rect, pid);
        let before = popup_scan(prefix, main, main_rect, pid);
        let all = popup_scan(cs, main, main_rect, pid);
        assert forall|i: int, j: int| 0 <= i < j < all.len() implies ad_hwnd(#[trigger] all[i])
            != ad_hwnd(#[trigger] all[j]) by {
            if j < before.len() {
                assert(all[i] == before[i] && all[j] == before[j]);
            } else {
                assert(all[i] == before[i]);
                assert(ad_hwnd(all[j]) == cs.last().hwnd);
                assert(seen_before(prefix, ad_hwnd(before[i])));
            }
        }
    }
}

proof fn lemma_frames_after_distinct(
    base: Seq<AdWindow>,
    rs: Seq<WindowSnapshot>,
    main: isize,
    main_rect: Rect,
)
    requires
        ads_distinct(base),
    ensures
        ads_distinct(frames_after(base, rs, main, main_rect)),
    decreases rs.len(),
{
    if rs.len() > 0 {
        lemma_frames_after_distinct(base, rs.drop_last(), main, main_rect);
        let prev = frames_after(base, rs.drop_last(), main, main_rect);
        let h = rs.last().hwnd;
        if !ads_contain(prev, h) && bottom_banner_frame(rs.last(), main, main_rect) {
            let all = prev.push(AdWindow::BannerSlot { hwnd: h });
            assert forall|i: int, j: int| 0 <= i < j < all.len() implies ad_hwnd(#[trigger] all[i])
                != ad_hwnd(#[trigger] all[j]) by {
                if j < prev.len() {
                    assert(all[i] == prev[i] && all[j] == prev[j]);
                } else {
                    assert(all[i] == prev[i]);
                    assert(ad_hwnd(all[j]) == h);
                }
            }
        }
    }
}

/// The popup-level scan never yields two ads for one window: a window
/// enumerated twice is examined once, and a related window already chosen is
/// not added again.
pub proof fn lemma_popup_ads_distinct(
    main: isize,
    main_rect: Option<Rect>,
    pid: u32,
    cs: Seq<WindowSnapshot>,
    rs: Seq<WindowSnapshot>,
)
    ensures
        ads_distinct(popup_ads_spec(main, main_rect, pid, cs, rs)),
{
    if let Some(r) = main_rect {
        lemma_popup_scan_distinct(cs, main, r, pid);
        lemma_frames_after_distinct(popup_scan(cs, main, r, pid), rs, main, r);
    }
}

/// Recording keeps at most one record per window: the records stay free of
/// duplicates whatever is recorded, so undoing touches each window once.
pub proof fn lemma_save_keeps_records_distinct(
    s: Seq<SavedWindow>,
    h: isize,
    kind: RestoreKind,
    rect: Option<Rect>,
    visible: bool,
)
    requires
        saved_wf(s),
        kind == RestoreKind::ResizedPane && rect is Some ==> rect_dims_fit(rect.unwrap()),
    ensures
        saved_wf(save_spec(s, h, kind, rect, visible)),
{
    if !saved_has(s, h) {
        if let Some(r) = rect {
            let n = s.push(SavedWindow { hwnd: h, rect: r, visible, kind });
            assert forall|i: int, j: int| 0 <= i < j < n.len() implies #[trigger] n[i].hwnd
                != #[trigger] n[j].hwnd by {
                if j == s.len() {
                    assert(n[i] == s[i]);
                    assert(!(s[i].hwnd == h));
                } else {
                    assert(n[i] == s[i] && n[j] == s[j]);
                }
            }
            assert forall|i: int|
                0 <= i < n.len() && (#[trigger] n[i]).kind == RestoreKind::ResizedPane implies rect_dims_fit(
                n[i].rect,
            ) by {
                if i < s.len() {
                    assert(n[i] == s[i]);
                }
            }
        }
    }
}

/// A direct `EVA_ChildWindow` child of the main window owned by `pid`: the
/// kind of window KakaoTalk's main-view panes are.
pub open spec fn is_pane_of(w: WindowSnapshot, main: isize, pid: u32) -> bool {
    w.parent == Some(main) && w.pid == pid && w.class@ == "EVA_ChildWindow"@
}

proof fn lemma_main_views_contains(ds: Seq<WindowSnapshot>, main: isize, pid: u32, mw: int, mh: int, i: int)
    requires
        0 <= i < ds.len(),
        main_view_ad(ds[i], main, pid, mw, mh) is Some,
    ensures
        main_views(ds, main, pid, mw, mh).contains(main_view_ad(ds[i], main, pid, mw, mh).unwrap()),
    decreases ds.len(),
{
    let prefix = ds.drop_last();
    let before = main_views(prefix, main, pid, mw, mh);
    let all = main_views(ds, main, pid, mw, mh);
    let a = main_view_ad(ds[i], main, pid, mw, mh).unwrap();
    if i == ds.len() - 1 {
        assert(all[before.len() as int] == a);
    } else {
        assert(prefix[i] == ds[i]);
        lemma_main_views_contains(prefix, main, pid, mw, mh, i);
        let k = choose|k: int| 0 <= k < before.len() && before[k] == a;
        assert(all[k] == a);
    }
}

proof fn lemma_main_ads_contain_view(main: isize, r: Rect, pid: u32, ds: Seq<WindowSnapshot>, i: int)
    requires
        rect_width(r) > 0,
        rect_height(r) > 0,
        0 <= i < ds.len(),
        main_view_ad(ds[i], main, pid, rect_width(r), rect_height(r)) is Some,
    ensures
        main_window_ads_spec(main, Some(r), pid, ds).contains(
            main_view_ad(ds[i], main, pid, rect_width(r), rect_height(r)).unwrap(),
        ),
{
    lemma_main_views_contains(ds, main, pid, rect_width(r), rect_height(r), i);
    let views = main_views(ds, main, pid, rect_width(r), rect_height(r));
    let a = main_view_ad(ds[i], main, pid, rect_width(r), rect_height(r)).unwrap();
    let k = choose|k: int| 0 <= k < views.len() && views[k] == a;
    let all = views + banner_slots(ds, main, pid, r);
    assert(all[k] == a);
}

/// Every lock-mode pane of the main window is resized to the main window's
/// width less the shadow padding and its full height, whatever follows
/// `LockModeView` in its title.
pub proof fn lemma_lock_mode_pane_resized(main: isize, r: Rect, pid: u32, ds: Seq<WindowSnapshot>, i: int)
    requires
        rect_width(r) > 0,
        rect_height(r) > 0,
        0 <= i < ds.len(),
        is_pane_of(ds[i], main, pid),
        "LockModeView"@.is_prefix_of(ds[i].title@),
    ensures
        main_window_ads_spec(main, Some(r), pid, ds).contains(
            AdWindow::MainView {
                hwnd: ds[i].hwnd,
                width: (rect_width(r) - LAYOUT_SHADOW_PADDING) as i32,
                height: rect_height(r) as i32,
            },
        ),
{
    reveal_strlit("LockModeView");
    reveal_strlit("OnlineMainView");
    let t = ds[i].title@;
    assert(t[0] == 'L') by {
        assert(t.subrange(0, 12)[0] == t[0]);
    }
    if "OnlineMainView"@.is_prefix_of(t) {
        assert(t.subrange(0, 14)[0] == t[0]);
        assert(false);
    }
    lemma_main_ads_contain_view(main, r, pid, ds, i);
}

/// Every online main-view pane of the main window is resized to the main
/// window's width less the shadow padding and its height less the bottom
/// ad strip, whatever follows `OnlineMainView` in its title.
pub proof fn lemma_online_pane_resized(main: isize, r: Rect, pid: u32, ds: Seq<WindowSnapshot>, i: int)
    requires
        rect_width(r) > 0,
        rect_height(r) > 0,
        0 <= i < ds.len(),
        is_pane_of(ds[i], main, pid),
        "OnlineMainView"@.is_prefix_of(ds[i].title@),
    ensures
        main_window_ads_spec(main, Some(r), pid, ds).contains(
            AdWindow::MainView {
                hwnd: ds[i].hwnd,
                width: (rect_width(r) - LAYOUT_SHADOW_PADDING) as i32,
                height: (rect_height(r) - MAIN_VIEW_BOTTOM_PADDING) as i32,
            },
        ),
{
    lemma_main_ads_contain_view(main, r, pid, ds, i);
}

/// A candidate that is an ad popup: a visible popup-style window of `pid`,
/// 80 to 900 px in both dimensions, not shaped like the bottom banner, that
/// is an untitled top-level `EVA_Window` or an untitled `EVA_Window_Dblclk`
/// child of the main window, and hosts a Chrome surface.
pub open spec fn chrome_popup_candidate(w: WindowSnapshot, main: isize, main_rect: Rect, pid: u32) -> bool {
    &&& w.visible
    &&& w.pid == pid
    &&& (w.style & WS_POPUP_BIT) != 0
    &&& w.rect matches Some(rc) && {
        &&& POPUP_MIN_DIM <= rc.right - rc.left <= POPUP_MAX_DIM
        &&& POPUP_MIN_DIM <= rc.bottom - rc.top <= POPUP_MAX_DIM
        &&& !banner_rect_spec(main_rect, rc, w.wide_for_banner)
    }
    &&& w.title@.len() == 0
    &&& ((w.class@ == "EVA_Window"@ && w.parent is None) || (w.class@ == "EVA_Window_Dblclk"@
        && w.parent == Some(main)))
    &&& w.has_chrome_descendant
}

proof fn lemma_popup_scan_contains(cs: Seq<WindowSnapshot>, main: isize, r: Rect, pid: u32, i: int)
    requires
        0 <= i < cs.len(),
        first_visit(cs, i, main),
        popup_ad(cs[i], main, r, pid) is Some,
    ensures
        popup_scan(cs, main, r, pid).contains(popup_ad(cs[i], main, r, pid).unwrap()),
    decreases cs.len(),
{
    let prefix = cs.drop_last();
    let before = popup_scan(prefix, main, r, pid);
    let all = popup_scan(cs, main, r, pid);
    let a = popup_ad(cs[i], main, r, pid).unwrap();
    if i == cs.len() - 1 {
        assert(cs.take(i) =~= prefix);
        assert(all[before.len() as int] == a);
    } else {
        assert(prefix[i] == cs[i]);
        assert(prefix.take(i) =~= cs.take(i));
        lemma_popup_scan_contains(prefix, main, r, pid, i);
        let k = choose|k: int| 0 <= k < before.len() && before[k] == a;
        assert(all[k] == a);
    }
}

proof fn lemma_frames_after_keeps_base(base: Seq<AdWindow>, rs: Seq<WindowSnapshot>, main: isize, r: Rect)
    ensures
        frames_after(base, rs, main, r).len() >= base.len(),
        forall|k: int| 0 <= k < base.len() ==> #[trigger] frames_after(base, rs, main, r)[k] == base[k],
    decreases rs.len(),
{
    if rs.len() > 0 {
        lemma_frames_after_keeps_base(base, rs.drop_last(), main, r);
    }
}

/// Every first-seen candidate that is an ad popup is hidden as a popup,
/// whether it is a top-level `EVA_Window` or an `EVA_Window_Dblclk` child of
/// the main window.
pub proof fn lemma_chrome_popup_found(
    main: isize,
    r: Rect,
    pid: u32,
    cs: Seq<WindowSnapshot>,
    rs: Seq<WindowSnapshot>,
    i: int,
)
    requires
        0 <= i < cs.len(),
        first_visit(cs, i, main),
        chrome_popup_candidate(cs[i], main, r, pid),
    ensures
        popup_ads_spec(main, Some(r), pid, cs, rs).contains(AdWindow::Popup { hwnd: cs[i].hwnd }),
{
    let w = cs[i];
    assert(popup_ad(w, main, r, pid) == Some(AdWindow::Popup { hwnd: w.hwnd }));
    lemma_popup_scan_contains(cs, main, r, pid, i);
    let scan = popup_scan(cs, main, r, pid);
    let a = AdWindow::Popup { hwnd: w.hwnd };
    let k = choose|k: int| 0 <= k < scan.len() && scan[k] == a;
    lemma_frames_after_keeps_base(scan, rs, main, r);
    assert(frames_after(scan, rs, main, r)[k] == a);
}

/// Undoing waits while KakaoTalk's main window is minimized or hidden in the
/// tray: no step is taken and every record is kept. Otherwise every record
/// is consumed.
pub proof fn lemma_restore_waits_for_visible_window(m: MainWindowState)
    ensures
        m.iconic ==> restore_deferred(Some(m)),
        !m.visible ==> restore_deferred(Some(m)),
        !m.iconic && m.visible ==> !restore_deferred(Some(m)),
        !restore_deferred(None),
{
}

/// No scan runs unless the main window is known, shown, not minimized, and
/// owned by a known process running KakaoTalk's executable; when it is, the
/// configuration alone chooses the scans.
pub proof fn lemma_apply_scope(cfg: Config, m: MainWindowState)
    ensures
        m.iconic ==> apply_scope_spec(cfg, Some(m)) == (ApplyScope { banner: false, popup: false }),
        !m.visible ==> apply_scope_spec(cfg, Some(m)) == (ApplyScope { banner: false, popup: false }),
        m.pid == 0 ==> apply_scope_spec(cfg, Some(m)) == (ApplyScope { banner: false, popup: false }),
        !m.image_is_kakaotalk ==> apply_scope_spec(cfg, Some(m)) == (ApplyScope {
            banner: false,
            popup: false,
        }),
        !m.iconic && m.visible && m.pid != 0 && m.image_is_kakaotalk ==> apply_scope_spec(
            cfg,
            Some(m),
        ) == (ApplyScope { banner: cfg.ad_block_banner, popup: cfg.ad_block_popup }),
        apply_scope_spec(cfg, None) == (ApplyScope { banner: false, popup: false }),
{
}

proof fn lemma_banner_slots_contains(ds: Seq<WindowSnapshot>, main: isize, pid: u32, r: Rect, i: int)
    requires
        0 <= i < ds.len(),
        direct_banner_slot(ds[i], main, pid, r),
    ensures
        banner_slots(ds, main, pid, r).contains(AdWindow::BannerSlot { hwnd: ds[i].hwnd }),
    decreases ds.len(),
{
    let prefix = ds.drop_last();
    let before = banner_slots(prefix, main, pid, r);
    let all = banner_slots(ds, main, pid, r);
    let a = AdWindow::BannerSlot { hwnd: ds[i].hwnd };
    if i == ds.len() - 1 {
        assert(all[before.len() as int] == a);
    } else {
        assert(prefix[i] == ds[i]);
        lemma_banner_slots_contains(prefix, main, pid, r, i);
        let k = choose|k: int| 0 <= k < before.len() && before[k] == a;
        assert(all[k] == a);
    }
}

/// Once a main-view pane is found, the empty bottom banner slot is hidden:
/// a visible, untitled `EVA_ChildWindow` or `EVA_Window_Dblclk` direct child
/// of the main window owned by `pid`, without `_EVA_` descendants, whose
/// rectangle is shaped like the bottom banner.
pub proof fn lemma_banner_slot_hidden(
    main: isize,
    r: Rect,
    pid: u32,
    ds: Seq<WindowSnapshot>,
    pane: int,
    i: int,
)
    requires
        rect_width(r) > 0,
        rect_height(r) > 0,
        0 <= pane < ds.len(),
        is_pane_of(ds[pane], main, pid),
        "OnlineMainView"@.is_prefix_of(ds[pane].title@) || "LockModeView"@.is_prefix_of(
            ds[pane].title@,
        ),
        0 <= i < ds.len(),
        ds[i].pid == pid,
        ds[i].visible,
        ds[i].parent == Some(main),
        ds[i].class@ == "EVA_ChildWindow"@ || ds[i].class@ == "EVA_Window_Dblclk"@,
        ds[i].title@.len() == 0,
        !ds[i].has_eva_descendant,
        ds[i].rect matches Some(rc) && banner_rect_spec(r, rc, ds[i].wide_for_banner),
    ensures
        main_window_ads_spec(main, Some(r), pid, ds).contains(AdWindow::BannerSlot { hwnd: ds[i].hwnd }),
{
    if "OnlineMainView"@.is_prefix_of(ds[pane].title@) {
        lemma_online_pane_resized(main, r, pid, ds, pane);
    } else {
        lemma_lock_mode_pane_resized(main, r, pid, ds, pane);
    }
    let views = main_views(ds, main, pid, rect_width(r), rect_height(r));
    lemma_main_views_contains(ds, main, pid, rect_width(r), rect_height(r), pane);
    assert(views.len() > 0);
    lemma_banner_slots_contains(ds, main, pid, r, i);
    let slots = banner_slots(ds, main, pid, r);
    let a = AdWindow::BannerSlot { hwnd: ds[i].hwnd };
    let k = choose|k: int| 0 <= k < slots.len() && slots[k] == a;
    assert((views + slots)[views.len() + k] == a);
}

/// What a main-window ad may be for: a direct child of the main window owned
/// by `pid`; a resized pane is an `EVA_ChildWindow`, and a hidden banner slot
/// is visible, untitled, without `_EVA_` descendants and shaped like the
/// bottom banner.
pub open spec fn main_ad_justified(a: AdWindow, w: WindowSnapshot, main: isize, pid: u32, r: Rect) -> bool {
    &&& w.hwnd == ad_hwnd(a)
    &&& w.parent == Some(main)
    &&& w.pid == pid
    &&& (a is MainView ==> w.class@ == "EVA_ChildWindow"@)
    &&& (a is BannerSlot ==> w.visible && w.title@.len() == 0 && !w.has_eva_descendant && (
    w.rect matches Some(rc) && banner_rect_spec(r, rc, w.wide_for_banner)))
    &&& !(a is Popup)
}

proof fn lemma_main_views_justified(ds: Seq<WindowSnapshot>, main: isize, pid: u32, r: Rect)
    ensures
        forall|k: int|
            0 <= k < main_views(ds, main, pid, rect_width(r), rect_height(r)).len() ==> exists|i: int|
                0 <= i < ds.len() && main_ad_justified(
                    #[trigger] main_views(ds, main, pid, rect_width(r), rect_height(r))[k],
                    ds[i],
                    main,
                    pid,
                    r,
                ),
    decreases ds.len(),
{
    if ds.len() > 0 {
        let prefix = ds.drop_last();
        lemma_main_views_justified(prefix, main, pid, r);
        let before = main_views(prefix, main, pid, rect_width(r), rect_height(r));
        let all = main_views(ds, main, pid, rect_width(r), rect_height(r));
        assert forall|k: int| 0 <= k < all.len() implies exists|i: int|
            0 <= i < ds.len() && main_ad_justified(#[trigger] all[k], ds[i], main, pid, r) by {
            if k < before.len() {
                assert(all[k] == before[k]);
                let i = choose|i: int| 0 <= i < prefix.len() && main_ad_justified(before[k], prefix[i], main, pid, r);
                assert(prefix[i] == ds[i]);
            } else {
                assert(main_ad_justified(all[k], ds[ds.len() - 1], main, pid, r));
            }
        }
    }
}

proof fn lemma_banner_slots_justified(ds: Seq<WindowSnapshot>, main: isize, pid: u32, r: Rect)
    ensures
        forall|k: int|
            0 <= k < banner_slots(ds, main, pid, r).len() ==> exists|i: int|
                0 <= i < ds.len() && main_ad_justified(
                    #[trigger] banner_slots(ds, main, pid, r)[k],
                    ds[i],
                    main,
                    pid,
                    r,
                ),
    decreases ds.len(),
{
    if ds.len() > 0 {
        let prefix = ds.drop_last();
        lemma_banner_slots_justified(prefix, main, pid, r);
        let before = banner_slots(prefix, main, pid, r);
        let all = banner_slots(ds, main, pid, r);
        assert forall|k: int| 0 <= k < all.len() implies exists|i: int|
            0 <= i < ds.len() && main_ad_justified(#[trigger] all[k], ds[i], main, pid, r) by {
            if k < before.len() {
                assert(all[k] == before[k]);
                let i = choose|i: int| 0 <= i < prefix.len() && main_ad_justified(before[k], prefix[i], main, pid, r);
                assert(prefix[i] == ds[i]);
            } else {
                assert(main_ad_justified(all[k], ds[ds.len() - 1], main, pid, r));
            }
        }
    }
}

/// Every main-window ad is for one of the main window's own direct children
/// owned by KakaoTalk's process: only `EVA_ChildWindow` panes are resized, and
/// only visible, untitled, banner-shaped windows without `_EVA_` descendants
/// are hidden.
pub proof fn lemma_main_ads_justified(main: isize, r: Rect, pid: u32, ds: Seq<WindowSnapshot>, k: int)
    requires
        0 <= k < main_window_ads_spec(main, Some(r), pid, ds).len(),
    ensures
        exists|i: int|
            0 <= i < ds.len() && main_ad_justified(
                main_window_ads_spec(main, Some(r), pid, ds)[k],
                ds[i],
                main,
                pid,
                r,
            ),
{
    lemma_main_views_justified(ds, main, pid, r);
    lemma_banner_slots_justified(ds, main, pid, r);
    let views = main_views(ds, main, pid, rect_width(r), rect_height(r));
    let slots = banner_slots(ds, main, pid, r);
    let all = main_window_ads_spec(main, Some(r), pid, ds);
    if k < views.len() {
        assert(all[k] == views[k]);
    } else {
        assert(all[k] == slots[k - views.len()]);
    }
}

/// A first-seen candidate that is a visible popup-style window of `pid`, 80
/// to 900 px in both dimensions, an untitled `EVA_Window_Dblclk` child of the
/// main window and shaped like the bottom banner, is hidden as a banner slot.
pub proof fn lemma_banner_frame_candidate_hidden(
    main: isize,
    r: Rect,
    pid: u32,
    cs: Seq<WindowSnapshot>,
    rs: Seq<WindowSnapshot>,
    i: int,
)
    requires
        0 <= i < cs.len(),
        first_visit(cs, i, main),
        cs[i].visible,
        cs[i].pid == pid,
        (cs[i].style & WS_POPUP_BIT) != 0,
        cs[i].rect matches Some(rc) && POPUP_MIN_DIM <= rc.right - rc.left <= POPUP_MAX_DIM
            && POPUP_MIN_DIM <= rc.bottom - rc.top <= POPUP_MAX_DIM && banner_rect_spec(
            r,
            rc,
            cs[i].wide_for_banner,
        ),
        cs[i].class@ == "EVA_Window_Dblclk"@,
        cs[i].title@.len() == 0,
        cs[i].parent == Some(main),
    ensures
        popup_ads_spec(main, Some(r), pid, cs, rs).contains(AdWindow::BannerSlot { hwnd: cs[i].hwnd }),
{
    let w = cs[i];
    assert(popup_ad(w, main, r, pid) == Some(AdWindow::BannerSlot { hwnd: w.hwnd }));
    lemma_popup_scan_contains(cs, main, r, pid, i);
    let scan = popup_scan(cs, main, r, pid);
    let a = AdWindow::BannerSlot { hwnd: w.hwnd };
    let k = choose|k: int| 0 <= k < scan.len() && scan[k] == a;
    lemma_frames_after_keeps_base(scan, rs, main, r);
    assert(frames_after(scan, rs, main, r)[k] == a);
}

proof fn lemma_frames_after_covers(base: Seq<AdWindow>, rs: Seq<WindowSnapshot>, main: isize, r: Rect, i: int)
    requires
        0 <= i < rs.len(),
        bottom_banner_frame(rs[i], main, r),
    ensures
        ads_contain(frames_after(base, rs, main, r), rs[i].hwnd),
    decreases rs.len(),
{
    let prefix = rs.drop_last();
    let prev = frames_after(base, prefix, main, r);
    let all = frames_after(base, rs, main, r);
    if i == rs.len() - 1 {
        if ads_contain(prev, rs[i].hwnd) {
            let k = choose|k: int| 0 <= k < prev.len() && ad_hwnd(#[trigger] prev[k]) == rs[i].hwnd;
            assert(all == prev);
            assert(ad_hwnd(all[k]) == rs[i].hwnd);
        } else {
            assert(ad_hwnd(all[prev.len() as int]) == rs[i].hwnd);
        }
    } else {
        assert(prefix[i] == rs[i]);
        lemma_frames_after_covers(base, prefix, main, r, i);
        let k = choose|k: int| 0 <= k < prev.len() && ad_hwnd(#[trigger] prev[k]) == rs[i].hwnd;
        lemma_frames_after_keeps_base(prev, seq![rs.last()], main, r);
        if !ads_contain(prev, rs.last().hwnd) && bottom_banner_frame(rs.last(), main, r) {
            assert(all == prev.push(AdWindow::BannerSlot { hwnd: rs.last().hwnd }));
            assert(all[k] == prev[k]);
        } else {
            assert(all == prev);
        }
        assert(ad_hwnd(all[k]) == rs[i].hwnd);
    }
}

/// Every related window that is a visible, untitled `EVA_Window_Dblclk`
/// child of the main window shaped like the bottom banner ends up among the
/// popup-level ads.
pub proof fn lemma_related_banner_frame_hidden(
    main: isize,
    r: Rect,
    pid: u32,
    cs: Seq<WindowSnapshot>,
    rs: Seq<WindowSnapshot>,
    i: int,
)
    requires
        0 <= i < rs.len(),
        rs[i].visible,
        rs[i].class@ == "EVA_Window_Dblclk"@,
        rs[i].title@.len() == 0,
        rs[i].parent == Some(main),
        rs[i].rect matches Some(rc) && banner_rect_spec(r, rc, rs[i].wide_for_banner),
    ensures
        ads_contain(popup_ads_spec(main, Some(r), pid, cs, rs), rs[i].hwnd),
{
    lemma_frames_after_covers(popup_scan(cs, main, r, pid), rs, main, r, i);
}

/// What a popup-level ad may be for: a visible candidate of `pid` with the
/// popup style, 80 to 900 px in both dimensions, that is an untitled
/// top-level `EVA_Window` or an untitled `EVA_Window_Dblclk` child of the main
/// window; or a visible, untitled, banner-shaped `EVA_Window_Dblclk` child of
/// the main window among the related windows.
pub open spec fn popup_ad_justified(
    a: AdWindow,
    main: isize,
    r: Rect,
    pid: u32,
    cs: Seq<WindowSnapshot>,
    rs: Seq<WindowSnapshot>,
) -> bool {
    ||| exists|i: int|
        0 <= i < cs.len() && #[trigger] cs[i].hwnd == ad_hwnd(a) && cs[i].hwnd != main && cs[i].visible
            && cs[i].pid == pid && (cs[i].style & WS_POPUP_BIT) != 0 && (cs[i].rect matches Some(rc)
            && POPUP_MIN_DIM <= rc.right - rc.left <= POPUP_MAX_DIM && POPUP_MIN_DIM <= rc.bottom
            - rc.top <= POPUP_MAX_DIM) && cs[i].title@.len() == 0 && ((cs[i].class@ == "EVA_Window"@
            && cs[i].parent is None) || (cs[i].class@ == "EVA_Window_Dblclk"@ && cs[i].parent == Some(
            main,
        ))) && (a is Popup ==> cs[i].has_chrome_descendant) && !(a is MainView)
    ||| exists|i: int|
        0 <= i < rs.len() && #[trigger] rs[i].hwnd == ad_hwnd(a) && a is BannerSlot && rs[i].visible
            && rs[i].class@ == "EVA_Window_Dblclk"@ && rs[i].title@.len() == 0 && rs[i].parent == Some(
            main,
        ) && (rs[i].rect matches Some(rc) && banner_rect_spec(r, rc, rs[i].wide_for_banner))
}

proof fn lemma_popup_scan_justified(cs: Seq<WindowSnapshot>, main: isize, r: Rect, pid: u32, rs: Seq<WindowSnapshot>)
    ensures
        forall|k: int|
            0 <= k < popup_scan(cs, main, r, pid).len() ==> popup_ad_justified(
                #[trigger] popup_scan(cs, main, r, pid)[k],
                main,
                r,
                pid,
                cs,
                rs,
            ),
    decreases cs.len(),
{
    if cs.len() > 0 {
        let prefix = cs.drop_last();
        lemma_popup_scan_justified(prefix, main, r, pid, rs);
        let before = popup_scan(prefix, main, r, pid);
        let all = popup_scan(cs, main, r, pid);
        assert forall|k: int| 0 <= k < all.len() implies popup_ad_justified(#[trigger] all[k], main, r, pid, cs, rs) by {
            if k < before.len() {
                assert(all[k] == before[k]);
                assert(popup_ad_justified(before[k], main, r, pid, prefix, rs));
                assert forall|i: int| 0 <= i < prefix.len() implies prefix[i] == cs[i] by {}
            } else {
                let j = cs.len() - 1;
                assert(cs[j] == cs.last());
                assert(cs[j].hwnd == ad_hwnd(all[k]));
            }
        }
    }
}

proof fn lemma_frames_after_justified(
    base: Seq<AdWindow>,
    rs: Seq<WindowSnapshot>,
    main: isize,
    r: Rect,
    pid: u32,
    cs: Seq<WindowSnapshot>,
    all_rs: Seq<WindowSnapshot>,
)
    requires
        forall|k: int| 0 <= k < base.len() ==> popup_ad_justified(#[trigger] base[k], main, r, pid, cs, all_rs),
        all_rs.take(rs.len() as int) == rs,
        rs.len() <= all_rs.len(),
    ensures
        forall|k: int|
            0 <= k < frames_after(base, rs, main, r).len() ==> popup_ad_justified(
                #[trigger] frames_after(base, rs, main, r)[k],
                main,
                r,
                pid,
                cs,
                all_rs,
            ),
    decreases rs.len(),
{
    if rs.len() > 0 {
        let prefix = rs.drop_last();
        assert(all_rs.take(prefix.len() as int) =~= prefix);
        lemma_frames_after_justified(base, prefix, main, r, pid, cs, all_rs);
        let prev = frames_after(base, prefix, main, r);
        let all = frames_after(base, rs, main, r);
        assert forall|k: int| 0 <= k < all.len() implies popup_ad_justified(#[trigger] all[k], main, r, pid, cs, all_rs) by {
            if k < prev.len() {
                assert(all[k] == prev[k]);
            } else {
                let j = rs.len() - 1;
                assert(all_rs[j] == rs[j]);
                assert(rs[j] == rs.last());
                assert(all_rs[j].hwnd == ad_hwnd(all[k]));
            }
        }
    }
}

/// Every popup-level ad is justified: a popup-style KakaoTalk window of popup
/// size and shape among the candidates (a Chrome host when it is hidden as a
/// popup), or a banner-shaped frame of the main window among the related
/// windows. The main window itself is never one.
pub proof fn lemma_popup_ads_justified(
    main: isize,
    r: Rect,
    pid: u32,
    cs: Seq<WindowSnapshot>,
    rs: Seq<WindowSnapshot>,
    k: int,
)
    requires
        0 <= k < popup_ads_spec(main, Some(r), pid, cs, rs).len(),
    ensures
        popup_ad_justified(popup_ads_spec(main, Some(r), pid, cs, rs)[k], main, r, pid, cs, rs),
{
    lemma_popup_scan_justified(cs, main, r, pid, rs);
    assert(rs.take(rs.len() as int) =~= rs);
    lemma_frames_after_justified(popup_scan(cs, main, r, pid), rs, main, r, pid, cs, rs);
}

/// Recording adds a record only for a window not yet recorded whose
/// rectangle is known, with that rectangle, visibility and kind; otherwise
/// the records are unchanged.
pub proof fn lemma_save_records(
    s: Seq<SavedWindow>,
    h: isize,
    kind: RestoreKind,
    rect: Option<Rect>,
    visible: bool,
)
    ensures
        rect is None ==> save_spec(s, h, kind, rect, visible) == s,
        (exists|i: int| 0 <= i < s.len() && s[i].hwnd == h) ==> save_spec(s, h, kind, rect, visible)
            == s,
        (forall|i: int| 0 <= i < s.len() ==> s[i].hwnd != h) && rect is Some ==> save_spec(
            s,
            h,
            kind,
            rect,
            visible,
        ) == s.push(SavedWindow { hwnd: h, rect: rect.unwrap(), visible, kind }),
{
}

/// Undoing gives every hidden window its recorded visibility back.
pub proof fn lemma_restore_shows_hidden(s: Seq<SavedWindow>, i: int)
    requires
        0 <= i < s.len(),
        s[i].kind == RestoreKind::HiddenWindow,
    ensures
        show_ops(s).contains(RestoreOp::Show { hwnd: s[i].hwnd, visible: s[i].visible }),
    decreases s.len(),
{
    let op = RestoreOp::Show { hwnd: s[i].hwnd, visible: s[i].visible };
    if i == s.len() - 1 {
        assert(show_ops(s) == show_ops(s.drop_last()) + seq![op]);
        assert(show_ops(s)[show_ops(s).len() - 1] == op);
    } else {
        lemma_restore_shows_hidden(s.drop_last(), i);
        let k = choose|k: int| 0 <= k < show_ops(s.drop_last()).len() && show_ops(s.drop_last())[k] == op;
        assert(show_ops(s)[k] == op);
    }
}

/// Undoing gives every resized pane of positive recorded size that size back.
pub proof fn lemma_restore_resizes_panes(s: Seq<SavedWindow>, i: int)
    requires
        0 <= i < s.len(),
        s[i].kind == RestoreKind::ResizedPane,
        rect_width(s[i].rect) > 0,
        rect_height(s[i].rect) > 0,
    ensures
        resize_ops(s).contains(
            RestoreOp::Resize {
                hwnd: s[i].hwnd,
                width: rect_width(s[i].rect) as i32,
                height: rect_height(s[i].rect) as i32,
            },
        ),
    decreases s.len(),
{
    let op = RestoreOp::Resize {
        hwnd: s[i].hwnd,
        width: rect_width(s[i].rect) as i32,
        height: rect_height(s[i].rect) as i32,
    };
    if i == s.len() - 1 {
        assert(resize_ops(s) == resize_ops(s.drop_last()) + seq![op]);
        assert(resize_ops(s)[resize_ops(s).len() - 1] == op);
    } else {
        lemma_restore_resizes_panes(s.drop_last(), i);
        let k = choose|k: int|
            0 <= k < resize_ops(s.drop_last()).len() && resize_ops(s.drop_last())[k] == op;
        assert(resize_ops(s)[k] == op);
    }
}

/// Undoing resizes panes before it shows or hides windows: every step of
/// the resize part is a resize and every step of the show part is a show.
pub proof fn lemma_restore_order(s: Seq<SavedWindow>)
    ensures
        forall|k: int| 0 <= k < resize_ops(s).len() ==> #[trigger] resize_ops(s)[k] is Resize,
        forall|k: int| 0 <= k < show_ops(s).len() ==> #[trigger] show_ops(s)[k] is Show,
    decreases s.len(),
{
    if s.len() > 0 {
        lemma_restore_order(s.drop_last());
        assert forall|k: int| 0 <= k < resize_ops(s).len() implies #[trigger] resize_ops(s)[k] is Resize by {
            if k < resize_ops(s.drop_last()).len() {
                assert(resize_ops(s)[k] == resize_ops(s.drop_last())[k]);
            }
        }
        assert forall|k: int| 0 <= k < show_ops(s).len() implies #[trigger] show_ops(s)[k] is Show by {
            if k < show_ops(s.drop_last()).len() {
                assert(show_ops(s)[k] == show_ops(s.drop_last())[k]);
            }
        }
    }
}

/// A window already recorded keeps its first record: changing it again
/// does not overwrite the state it had before the first change.
pub proof fn lemma_first_record_kept(
    s: Seq<SavedWindow>,
    h: isize,
    kind: RestoreKind,
    rect: Option<Rect>,
    visible: bool,
)
    requires
        saved_has(s, h),
    ensures
        save_spec(s, h, kind, rect, visible) == s,
{
}

/// Hiding a window that was not yet recorded and then undoing shows it
/// again with the visibility it had.
pub proof fn lemma_hide_then_restore(s: Seq<SavedWindow>, h: isize, rect: Rect, visible: bool)
    requires
        !saved_has(s, h),
    ensures
        show_ops(save_spec(s, h, RestoreKind::HiddenWindow, Some(rect), visible)).contains(
            RestoreOp::Show { hwnd: h, visible },
        ),
{
    let t = save_spec(s, h, RestoreKind::HiddenWindow, Some(rect), visible);
    assert(t[t.len() - 1].hwnd == h);
    lemma_restore_shows_hidden(t, t.len() - 1);
}

/// Resizing a pane that was not yet recorded and then undoing gives it back
/// the size it had.
pub proof fn lemma_resize_then_restore(s: Seq<SavedWindow>, h: isize, rect: Rect, visible: bool)
    requires
        !saved_has(s, h),
        rect_width(rect) > 0,
        rect_height(rect) > 0,
    ensures
        resize_ops(save_spec(s, h, RestoreKind::ResizedPane, Some(rect), visible)).contains(
            RestoreOp::Resize {
                hwnd: h,
                width: rect_width(rect) as i32,
                height: rect_height(rect) as i32,
            },
        ),
{
    let t = save_spec(s, h, RestoreKind::ResizedPane, Some(rect), visible);
    lemma_restore_resizes_panes(t, t.len() - 1);
}

} // verus!
