//! Reapplying ad blocking when KakaoTalk's windows come back.
//!
//! A worker watches window events of the KakaoTalk process. It keeps its
//! event hooks on the process it should watch, tells the relevant events
//! apart, and after such an event keeps reapplying for a short burst, since
//! KakaoTalk recreates its ad surfaces over several frames after a restore.
//! Times are milliseconds of a monotonic clock.
use vstd::prelude::*;

verus! {

/// A window became the foreground window.
pub const EVENT_SYSTEM_FOREGROUND: u32 = 0x0003;
/// A minimized window was restored.
pub const EVENT_SYSTEM_MINIMIZEEND: u32 = 0x0017;
/// An object was created.
pub const EVENT_OBJECT_CREATE: u32 = 0x8000;
/// A hidden object was shown.
pub const EVENT_OBJECT_SHOW: u32 = 0x8002;
/// The object id of a window itself.
pub const OBJID_WINDOW: i32 = 0;
/// The child id of an object itself.
pub const CHILDID_SELF: i32 = 0;

/// How often the hooked process id is brought up to date.
pub const PID_REFRESH_INTERVAL_MS: u64 = 250;
/// How long the worker waits for window messages when nothing is pending.
pub const EVENT_LOOP_WAIT_MS: u64 = 50;
/// How long reapplying goes on after an event.
pub const RESTORE_BURST_DURATION_MS: u64 = 650;
/// How often reapplying happens during a burst.
pub const RESTORE_BURST_INTERVAL_MS: u64 = 75;

/// The event ranges the worker hooks, each as (first, last) event.
pub open spec fn hooked_ranges_spec() -> Seq<(u32, u32)> {
    seq![
        (EVENT_SYSTEM_FOREGROUND, EVENT_SYSTEM_FOREGROUND),
        (EVENT_SYSTEM_MINIMIZEEND, EVENT_SYSTEM_MINIMIZEEND),
        (EVENT_OBJECT_CREATE, EVENT_OBJECT_SHOW),
    ]
}

/// The event ranges to hook, each as (first, last) event.
pub fn hooked_ranges() -> (r: Vec<(u32, u32)>)
    ensures
        r@ == hooked_ranges_spec(),
{
    vec![
        (EVENT_SYSTEM_FOREGROUND, EVENT_SYSTEM_FOREGROUND),
        (EVENT_SYSTEM_MINIMIZEEND, EVENT_SYSTEM_MINIMIZEEND),
        (EVENT_OBJECT_CREATE, EVENT_OBJECT_SHOW),
    ]
}

/// The process whose windows should be hooked: KakaoTalk's, while blocking
/// is on and KakaoTalk runs; none otherwise.
pub fn desired_hook_pid(blocking_enabled: bool, kakaotalk_running: bool, pid: Option<u32>) -> (r:
    Option<u32>)
    ensures
        r == (if blocking_enabled && kakaotalk_running {
            pid
        } else {
            None
        }),
{
    if blocking_enabled && kakaotalk_running {
        pid
    } else {
        None
    }
}

/// Whether the hooks must be replaced: they watch another process than the
/// one wanted (no hooks count as watching none).
pub fn hooks_need_replacing(installed: Option<u32>, desired: Option<u32>) -> (r: bool)
    ensures
        r == (installed != desired),
{
    match (installed, desired) {
        (Some(a), Some(b)) => a != b,
        (None, None) => false,
        _ => true,
    }
}

/// An event that calls for reapplying: one of the hooked kinds, about a
/// window itself rather than a part of one, with a valid window handle.
pub open spec fn is_reapply_event_spec(event: u32, hwnd_valid: bool, id_object: i32, id_child: i32) -> bool {
    &&& hwnd_valid
    &&& id_object == OBJID_WINDOW
    &&& id_child == CHILDID_SELF
    &&& (event == EVENT_SYSTEM_FOREGROUND || event == EVENT_SYSTEM_MINIMIZEEND || event
        == EVENT_OBJECT_CREATE || event == EVENT_OBJECT_SHOW)
}

/// Whether a window event calls for reapplying.
pub fn is_reapply_event(event: u32, hwnd_valid: bool, id_object: i32, id_child: i32) -> (r: bool)
    ensures
        r == is_reapply_event_spec(event, hwnd_valid, id_object, id_child),
{
    if !hwnd_valid {
        return false;
    }
    if id_object != OBJID_WINDOW || id_child != CHILDID_SELF {
        return false;
    }
    event == EVENT_SYSTEM_FOREGROUND || event == EVENT_SYSTEM_MINIMIZEEND || event
        == EVENT_OBJECT_CREATE || event == EVENT_OBJECT_SHOW
}

/// Reapplying runs only while blocking is on and KakaoTalk runs.
pub fn should_apply(blocking_enabled: bool, kakaotalk_running: bool) -> (r: bool)
    ensures
        r == (blocking_enabled && kakaotalk_running),
{
    blocking_enabled && kakaotalk_running
}

/// The burst ending at `burst_until` is still going on at `now`.
pub open spec fn burst_active(burst_until: Option<u64>, now: u64) -> bool {
    match burst_until {
        Some(deadline) => now < deadline,
        None => false,
    }
}

/// The timing state of the reapply worker.
pub struct ReapplySchedule {
    last_pid_refresh_ms: Option<u64>,
    burst_until_ms: Option<u64>,
}

impl ReapplySchedule {
    /// When the hooked process was last brought up to date, if ever.
    pub closed spec fn last_refresh(self) -> Option<u64> {
        self.last_pid_refresh_ms
    }

    /// When the current burst of reapplying ends, if one was started.
    pub closed spec fn burst_until(self) -> Option<u64> {
        self.burst_until_ms
    }

    /// A schedule that has done nothing yet: the first refresh is due at
    /// once and no burst runs.
    pub fn new() -> (s: ReapplySchedule)
        ensures
            s.last_refresh() is None,
            s.burst_until() is None,
    {
        ReapplySchedule { last_pid_refresh_ms: None, burst_until_ms: None }
    }

    /// Whether the hooked process id is to be brought up to date at `now`:
    /// the first time, and then once the refresh interval has passed since
    /// the last refresh. When due, `now` becomes the last refresh.
    pub fn refresh_due(&mut self, now_ms: u64) -> (due: bool)
        ensures
            due == match old(self).last_refresh() {
                None => true,
                Some(last) => now_ms >= last + PID_REFRESH_INTERVAL_MS,
            },
            due ==> final(self).last_refresh() == Some(now_ms),
            !due ==> final(self).last_refresh() == old(self).last_refresh(),
            final(self).burst_until() == old(self).burst_until(),
    {
        let due = match self.last_pid_refresh_ms {
            None => true,
            Some(last) => now_ms >= last && now_ms - last >= PID_REFRESH_INTERVAL_MS,
        };
        if due {
            self.last_pid_refresh_ms = Some(now_ms);
        }
        due
    }

    /// How long to wait for window messages at `now`: the burst interval
    /// while a burst runs, the idle wait otherwise.
    pub fn wait_ms(&self, now_ms: u64) -> (w: u64)
        ensures
            w == (if burst_active(self.burst_until(), now_ms) {
                RESTORE_BURST_INTERVAL_MS
            } else {
                EVENT_LOOP_WAIT_MS
            }),
    {
        match self.burst_until_ms {
            Some(deadline) => if now_ms < deadline {
                RESTORE_BURST_INTERVAL_MS
            } else {
                EVENT_LOOP_WAIT_MS
            },
            None => EVENT_LOOP_WAIT_MS,
        }
    }

    /// After waiting, at `now`: an observed event asks for a pass and starts
    /// a new burst; otherwise a running burst asks for a pass, and an ended
    /// burst is forgotten. Returns whether to reapply.
    pub fn after_wait(&mut self, event_pending: bool, now_ms: u64) -> (apply: bool)
        requires
            now_ms + RESTORE_BURST_DURATION_MS <= u64::MAX,
        ensures
            apply == (event_pending || burst_active(old(self).burst_until(), now_ms)),
            event_pending ==> final(self).burst_until() == Some(
                (now_ms + RESTORE_BURST_DURATION_MS) as u64,
            ),
            !event_pending && burst_active(old(self).burst_until(), now_ms)
                ==> final(self).burst_until() == old(self).burst_until(),
            !event_pending && !burst_active(old(self).burst_until(), now_ms)
                ==> final(self).burst_until() is None,
            final(self).last_refresh() == old(self).last_refresh(),
    {
        if event_pending {
            self.burst_until_ms = Some(now_ms + RESTORE_BURST_DURATION_MS);
            return true;
        }
        let active = match self.burst_until_ms {
            Some(deadline) => now_ms < deadline,
            None => false,
        };
        if !active {
            self.burst_until_ms = None;
        }
        active
    }
}

/// Foreground changes, restores from minimized, object creations and
/// object shows of a window itself call for reapplying; no event about a
/// part of a window, no event with an invalid window, and no other kind of
/// event does.
pub proof fn lemma_reapply_events(event: u32, hwnd_valid: bool, id_object: i32, id_child: i32)
    ensures
        is_reapply_event_spec(EVENT_SYSTEM_FOREGROUND, true, 0, 0),
        is_reapply_event_spec(EVENT_SYSTEM_MINIMIZEEND, true, 0, 0),
        is_reapply_event_spec(EVENT_OBJECT_CREATE, true, 0, 0),
        is_reapply_event_spec(EVENT_OBJECT_SHOW, true, 0, 0),
        is_reapply_event_spec(event, hwnd_valid, id_object, id_child) ==> hwnd_valid && id_object
            == 0 && id_child == 0,
        event != 0x0003 && event != 0x0017 && event != 0x8000 && event != 0x8002
            ==> !is_reapply_event_spec(event, hwnd_valid, id_object, id_child),
        hooked_ranges_spec().len() == 3,
        forall|k: int|
            0 <= k < 3 ==> #[trigger] hooked_ranges_spec()[k].0 <= hooked_ranges_spec()[k].1,
        hooked_ranges_spec()[0] == (0x0003u32, 0x0003u32) && hooked_ranges_spec()[1] == (
            0x0017u32,
            0x0017u32,
        ) && hooked_ranges_spec()[2] == (0x8000u32, 0x8002u32),
{
}

/// After an event at `t`, every later wake-up before `t` plus the burst
/// duration reapplies, and waits the burst interval; from then on, with no
/// new event, the worker neither reapplies nor waits less than the idle wait.
pub proof fn lemma_burst_after_event(t: u64, later: u64)
    requires
        t + RESTORE_BURST_DURATION_MS <= u64::MAX,
    ensures
        ({
            let b = Some((t + RESTORE_BURST_DURATION_MS) as u64);
            &&& t <= later < t + RESTORE_BURST_DURATION_MS ==> burst_active(b, later)
            &&& later >= t + RESTORE_BURST_DURATION_MS ==> !burst_active(b, later)
        }),
{
}

} // verus!
