//! Tray menu events and the tray's text.
use vstd::prelude::*;

verus! {

/// An action requested from the tray icon or its menu.
#[derive(Clone, Copy, Debug, PartialEq, Eq, Structural)]
pub enum TrayEvent {
    OpenSettings,
    ToggleBlocking,
    CheckForUpdates,
    Quit,
}

/// The tray tooltip for the blocking state.
pub fn tooltip_for_active(active: bool) -> (r: &'static str)
    ensures
        active ==> r@ == "CleanKakao - 차단 중"@,
        !active ==> r@ == "CleanKakao - 비활성"@,
{
    if active {
        "CleanKakao - 차단 중"
    } else {
        "CleanKakao - 비활성"
    }
}

/// Extra wait after the double-click time before a single click counts.
pub const SINGLE_CLICK_DELAY_PADDING_MS: u64 = 50;

/// How long a left click on the tray icon waits for a second click before
/// it counts as a single click: the system's double-click time plus a small
/// margin.
pub fn single_click_delay_ms(double_click_time_ms: u32) -> (d: u64)
    ensures
        d == double_click_time_ms + SINGLE_CLICK_DELAY_PADDING_MS,
{
    double_click_time_ms as u64 + SINGLE_CLICK_DELAY_PADDING_MS
}

/// Tells single clicks on the tray icon from double clicks: each click, and
/// each double click, starts a new generation; a single click is acted on
/// only if no click came after it within the delay.
pub struct ClickTracker {
    generation: u64,
}

impl ClickTracker {
    /// The number of clicks and double clicks seen, modulo 2^64.
    pub closed spec fn generation_spec(self) -> u64 {
        self.generation
    }

    pub fn new() -> (t: ClickTracker)
        ensures
            t.generation_spec() == 0,
    {
        ClickTracker { generation: 0 }
    }

    /// Records a left click and returns its generation, to be checked with
    /// `is_latest` once the delay has passed.
    pub fn single_click(&mut self) -> (g: u64)
        ensures
            g == old(self).generation_spec().wrapping_add(1),
            final(self).generation_spec() == g,
    {
        self.generation = self.generation.wrapping_add(1);
        self.generation
    }

    /// Records a double click, which cancels a pending single click.
    pub fn double_click(&mut self)
        ensures
            final(self).generation_spec() == old(self).generation_spec().wrapping_add(1),
    {
        self.generation = self.generation.wrapping_add(1);
    }

    /// Whether the click of generation `g` is still the latest click.
    pub fn is_latest(&self, g: u64) -> (r: bool)
        ensures
            r == (g == self.generation_spec()),
    {
        self.generation == g
    }
}

/// A double click after a single click cancels it: the single click is no
/// longer the latest.
pub proof fn lemma_double_click_cancels(g: u64)
    ensures
        g.wrapping_add(1) != g,
{
    assert(g.wrapping_add(1) != g) by (bit_vector);
}

} // verus!
