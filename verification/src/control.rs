//! The tray application's reactions: to tray events, to a reloaded
//! configuration, and to the periodic reapply tick. Each reaction is a list
//! of commands that the caller carries out in order.
use vstd::prelude::*;
use vstd::string::StringExecFns;
use crate::config::Config;
use crate::tray::TrayEvent;

verus! {

/// Something the tray application does.
#[derive(Clone, Copy, Debug, PartialEq, Eq, Structural)]
pub enum Command {
    /// Switch both kinds of ad blocking to the value in the shared
    /// configuration and save it.
    PersistBlocking(bool),
    /// Set the shared "blocking enabled" flag.
    SetBlockingEnabled(bool),
    /// Show the tray icon, tooltip and menu check mark for the state.
    SetTrayActive(bool),
    /// Run an ad-blocking pass.
    ApplyAds,
    /// Undo every change made to KakaoTalk's windows.
    RestoreAds,
    /// Open the settings window.
    OpenSettings,
    /// Check for an update in the background.
    CheckForUpdates,
    /// Register or unregister the application to start with Windows.
    SyncAutoStart(bool),
    /// Tell every worker to stop.
    StopApp,
    /// Leave the message loop.
    Quit,
}

pub open spec fn apply_or_restore(active: bool) -> Command {
    if active {
        Command::ApplyAds
    } else {
        Command::RestoreAds
    }
}

/// The reaction to a tray event while blocking is `blocking_enabled`.
pub open spec fn tray_event_commands_spec(event: TrayEvent, blocking_enabled: bool) -> Seq<Command> {
    match event {
        TrayEvent::ToggleBlocking => {
            let active = !blocking_enabled;
            seq![
                Command::PersistBlocking(active),
                Command::SetBlockingEnabled(active),
                Command::SetTrayActive(active),
                apply_or_restore(active),
            ]
        },
        TrayEvent::OpenSettings => seq![Command::OpenSettings],
        TrayEvent::CheckForUpdates => seq![Command::CheckForUpdates],
        TrayEvent::Quit => seq![Command::StopApp, Command::RestoreAds, Command::Quit],
    }
}

/// The reaction to a tray event: toggling flips blocking, saves it, updates
/// the tray and applies or undoes ad blocking; quitting stops the workers and
/// undoes ad blocking before leaving.
pub fn tray_event_commands(event: TrayEvent, blocking_enabled: bool) -> (cmds: Vec<Command>)
    ensures
        cmds@ == tray_event_commands_spec(event, blocking_enabled),
{
    match event {
        TrayEvent::ToggleBlocking => {
            let active = !blocking_enabled;
            let last = if active {
                Command::ApplyAds
            } else {
                Command::RestoreAds
            };
            let v = vec![
                Command::PersistBlocking(active),
                Command::SetBlockingEnabled(active),
                Command::SetTrayActive(active),
                last,
            ];
            assert(v@ =~= tray_event_commands_spec(event, blocking_enabled));
            v
        },
        TrayEvent::OpenSettings => {
            let v = vec![Command::OpenSettings];
            assert(v@ =~= tray_event_commands_spec(event, blocking_enabled));
            v
        },
        TrayEvent::CheckForUpdates => {
            let v = vec![Command::CheckForUpdates];
            assert(v@ =~= tray_event_commands_spec(event, blocking_enabled));
            v
        },
        TrayEvent::Quit => {
            let v = vec![Command::StopApp, Command::RestoreAds, Command::Quit];
            assert(v@ =~= tray_event_commands_spec(event, blocking_enabled));
            v
        },
    }
}

pub open spec fn configured_active(c: Config) -> bool {
    c.ad_block_banner || c.ad_block_popup
}

/// The reaction to a reloaded configuration.
pub open spec fn config_reload_commands_spec(
    previous: Config,
    reloaded: Config,
    blocking_enabled: bool,
) -> Seq<Command> {
    let sync = if previous.auto_start != reloaded.auto_start {
        seq![Command::SyncAutoStart(reloaded.auto_start)]
    } else {
        seq![]
    };
    let was = configured_active(previous);
    let is = configured_active(reloaded);
    let rest = if was != is {
        seq![Command::SetBlockingEnabled(is), Command::SetTrayActive(is), apply_or_restore(is)]
    } else if is && blocking_enabled {
        seq![Command::ApplyAds]
    } else {
        seq![]
    };
    sync + rest
}

/// The reaction to a configuration reloaded from disk (`previous` was in
/// effect): a changed auto-start setting is synced; a change between "some
/// blocking on" and "all blocking off" updates the flag and the tray and
/// applies or undoes ad blocking; otherwise active blocking is reapplied.
pub fn config_reload_commands(previous: &Config, reloaded: &Config, blocking_enabled: bool) -> (cmds:
    Vec<Command>)
    ensures
        cmds@ == config_reload_commands_spec(*previous, *reloaded, blocking_enabled),
        previous.auto_start != reloaded.auto_start ==> cmds@.len() > 0 && cmds@[0]
            == Command::SyncAutoStart(reloaded.auto_start),
        previous.auto_start == reloaded.auto_start ==> forall|k: int|
            0 <= k < cmds@.len() ==> !(#[trigger] cmds@[k] is SyncAutoStart),
{
    let mut cmds: Vec<Command> = Vec::new();
    if previous.auto_start != reloaded.auto_start {
        cmds.push(Command::SyncAutoStart(reloaded.auto_start));
    }
    let was = previous.blocking_configured();
    let is = reloaded.blocking_configured();
    if was != is {
        cmds.push(Command::SetBlockingEnabled(is));
        cmds.push(Command::SetTrayActive(is));
        if is {
            cmds.push(Command::ApplyAds);
        } else {
            cmds.push(Command::RestoreAds);
        }
    } else if is && blocking_enabled {
        cmds.push(Command::ApplyAds);
    }
    assert(cmds@ =~= config_reload_commands_spec(*previous, *reloaded, blocking_enabled));
    proof {
        lemma_reload_syncs_auto_start(*previous, *reloaded, blocking_enabled);
    }
    cmds
}

/// The periodic reapply tick: while KakaoTalk runs, apply ad blocking when
/// it is enabled and undo it when it is not.
pub fn reapply_command(kakaotalk_running: bool, blocking_enabled: bool) -> (cmd: Option<Command>)
    ensures
        kakaotalk_running ==> cmd == Some(apply_or_restore(blocking_enabled)),
        !kakaotalk_running ==> cmd is None,
{
    if kakaotalk_running {
        if blocking_enabled {
            Some(Command::ApplyAds)
        } else {
            Some(Command::RestoreAds)
        }
    } else {
        None
    }
}

/// The command registered to start the application with Windows: the
/// executable's path in double quotes.
pub fn auto_start_command(exe_path: &str) -> (r: String)
    ensures
        r@ == "\""@ + exe_path@ + "\""@,
{
    let mut s = String::from_str("\"");
    s.append(exe_path);
    s.append("\"");
    s
}

/// Toggling twice from the tray returns to the original blocking state, and
/// each toggle saves, shows and enacts the state it switches to.
pub proof fn lemma_toggle_twice(blocking_enabled: bool)
    ensures
        ({
            let first = tray_event_commands_spec(TrayEvent::ToggleBlocking, blocking_enabled);
            let second = tray_event_commands_spec(TrayEvent::ToggleBlocking, !blocking_enabled);
            &&& first[1] == Command::SetBlockingEnabled(!blocking_enabled)
            &&& second[1] == Command::SetBlockingEnabled(blocking_enabled)
            &&& first[0] == Command::PersistBlocking(!blocking_enabled)
            &&& first[2] == Command::SetTrayActive(!blocking_enabled)
            &&& first[3] == apply_or_restore(!blocking_enabled)
        }),
{
}

/// Opening the settings and checking for updates each do exactly that and
/// nothing else; toggling changes the blocking state to its opposite and
/// undoes ad blocking exactly when it turns blocking off.
pub proof fn lemma_tray_events(blocking_enabled: bool)
    ensures
        tray_event_commands_spec(TrayEvent::OpenSettings, blocking_enabled) == seq![
            Command::OpenSettings,
        ],
        tray_event_commands_spec(TrayEvent::CheckForUpdates, blocking_enabled) == seq![
            Command::CheckForUpdates,
        ],
        tray_event_commands_spec(TrayEvent::ToggleBlocking, blocking_enabled).contains(
            Command::RestoreAds,
        ) == blocking_enabled,
        tray_event_commands_spec(TrayEvent::ToggleBlocking, blocking_enabled).contains(
            Command::ApplyAds,
        ) == !blocking_enabled,
{
    let t = tray_event_commands_spec(TrayEvent::ToggleBlocking, blocking_enabled);
    assert(t[3] == apply_or_restore(!blocking_enabled));
    if blocking_enabled {
        assert(!t.contains(Command::ApplyAds));
    } else {
        assert(!t.contains(Command::RestoreAds));
    }
}

/// Quitting always undoes ad blocking before leaving the message loop.
pub proof fn lemma_quit_restores(blocking_enabled: bool)
    ensures
        ({
            let cmds = tray_event_commands_spec(TrayEvent::Quit, blocking_enabled);
            &&& cmds.last() == Command::Quit
            &&& cmds.contains(Command::RestoreAds)
            &&& cmds[0] == Command::StopApp
        }),
{
    let cmds = tray_event_commands_spec(TrayEvent::Quit, blocking_enabled);
    assert(cmds[1] == Command::RestoreAds);
}

/// A reloaded configuration whose auto-start setting changed, in either
/// direction, first registers or unregisters the application with that
/// setting; one whose auto-start setting is unchanged touches no
/// registration. A change between "some blocking on" and "all blocking off"
/// sets the flag and the tray to the new state and applies or undoes ad
/// blocking accordingly.
pub proof fn lemma_reload_syncs_auto_start(previous: Config, reloaded: Config, blocking_enabled: bool)
    ensures
        ({
            let cmds = config_reload_commands_spec(previous, reloaded, blocking_enabled);
            let is = reloaded.ad_block_banner || reloaded.ad_block_popup;
            let was = previous.ad_block_banner || previous.ad_block_popup;
            &&& previous.auto_start != reloaded.auto_start ==> cmds.len() > 0 && cmds[0]
                == Command::SyncAutoStart(reloaded.auto_start)
            &&& previous.auto_start == reloaded.auto_start ==> forall|k: int|
                0 <= k < cmds.len() ==> !(#[trigger] cmds[k] is SyncAutoStart)
            &&& was != is ==> cmds.contains(Command::SetBlockingEnabled(is)) && cmds.contains(
                Command::SetTrayActive(is),
            ) && cmds.last() == (if is {
                Command::ApplyAds
            } else {
                Command::RestoreAds
            })
        }),
{
    let cmds = config_reload_commands_spec(previous, reloaded, blocking_enabled);
    let off = if previous.auto_start != reloaded.auto_start {
        1int
    } else {
        0int
    };
    let was = previous.ad_block_banner || previous.ad_block_popup;
    let is = reloaded.ad_block_banner || reloaded.ad_block_popup;
    if was != is {
        assert(cmds[off] == Command::SetBlockingEnabled(is));
        assert(cmds[off + 1] == Command::SetTrayActive(is));
    }
}

/// Reloading an unchanged configuration changes no state: it only reapplies
/// active blocking.
pub proof fn lemma_reload_unchanged(c: Config, blocking_enabled: bool)
    ensures
        config_reload_commands_spec(c, c, blocking_enabled) == (if configured_active(c)
            && blocking_enabled {
            seq![Command::ApplyAds]
        } else {
            seq![]
        }),
{
    assert(config_reload_commands_spec(c, c, blocking_enabled) =~= (if configured_active(c)
        && blocking_enabled {
        seq![Command::ApplyAds]
    } else {
        seq![]
    }));
}

} // verus!
