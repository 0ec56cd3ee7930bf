use vstd::prelude::*;

use crate::config::{spec_dark_mode, DarkLight, SystemTheme};
use crate::lifecycle::{Command, CommandView};

verus! {

/// An application-level event on the orchestrator's channel.
#[derive(Clone, Copy, Debug, PartialEq, Eq, Structural)]
pub enum AppEvent {
    VrchatStarted,
    VrchatStopped,
    AppWindowRequested,
    ShutdownRequested,
}

/// A discrete event from the settings window.
pub enum UiEvent {
    PluginToggle(String, bool),
    TrayIconsToggle(DarkLight),
    AutoStartToggle(bool),
    OpenLogsFolder,
    StartPlugins,
}

/// A property change pushed to the tray icon task.
#[derive(Clone, Copy, Debug, PartialEq, Eq, Structural)]
pub enum TrayProperty {
    Running(bool),
    DarkMode(bool),
}

/// A message emitted by the tray icon's menu.
#[derive(Clone, Copy, Debug, PartialEq, Eq, Structural)]
pub enum TrayMessage {
    ReloadPlugins,
    Exit,
}

/// What the orchestrator does in response to one application event.
pub struct AppDirective {
    pub command: Option<Command>,
    pub tray: Option<TrayProperty>,
    pub show_window: bool,
    pub request_shutdown: bool,
}

/// Translates one application event: an activity edge starts or stops the
/// plugins and retints the tray; a window request only raises the window;
/// a shutdown request only asks the tree to shut down.
pub fn route_app_event(event: AppEvent) -> (r: AppDirective)
    ensures
        match event {
            AppEvent::VrchatStarted => {
                &&& r.command matches Some(c) && c@ == CommandView::StartPlugins
                &&& r.tray == Some(TrayProperty::Running(true))
                &&& !r.show_window
                &&& !r.request_shutdown
            },
            AppEvent::VrchatStopped => {
                &&& r.command matches Some(c) && c@ == CommandView::StopPlugins
                &&& r.tray == Some(TrayProperty::Running(false))
                &&& !r.show_window
                &&& !r.request_shutdown
            },
            AppEvent::AppWindowRequested => {
                &&& r.command is None
                &&& r.tray is None
                &&& r.show_window
                &&& !r.request_shutdown
            },
            AppEvent::ShutdownRequested => {
                &&& r.command is None
                &&& r.tray is None
                &&& !r.show_window
                &&& r.request_shutdown
            },
        },
{
    match event {
        AppEvent::VrchatStarted => AppDirective {
            command: Some(Command::StartPlugins),
            tray: Some(TrayProperty::Running(true)),
            show_window: false,
            request_shutdown: false,
        },
        AppEvent::VrchatStopped => AppDirective {
            command: Some(Command::StopPlugins),
            tray: Some(TrayProperty::Running(false)),
            show_window: false,
            request_shutdown: false,
        },
        AppEvent::AppWindowRequested => AppDirective {
            command: None,
            tray: None,
            show_window: true,
            request_shutdown: false,
        },
        AppEvent::ShutdownRequested => AppDirective {
            command: None,
            tray: None,
            show_window: false,
            request_shutdown: true,
        },
    }
}

/// What the orchestrator does in response to one settings-window event.
pub struct UiDirective {
    pub command: Option<Command>,
    pub tray: Option<TrayProperty>,
    pub persist_dark_light: Option<DarkLight>,
    pub set_autostart: Option<bool>,
    pub open_logs: bool,
}

/// Translates one settings-window event: a plugin toggle becomes an
/// enable or disable command; a theme toggle retints the tray (for the
/// system theme the shell observed) and records the choice; the autostart
/// and log-folder requests are handed to the platform shell; a manual
/// start request starts the plugins.
pub fn route_ui_event(event: UiEvent, system: SystemTheme) -> (r: UiDirective)
    ensures
        match event {
            UiEvent::PluginToggle(id, enabled) => {
                &&& r.command matches Some(c) && c@ == (if enabled {
                    CommandView::EnablePlugin(id@)
                } else {
                    CommandView::DisablePlugin(id@)
                })
                &&& r.tray is None
                &&& r.persist_dark_light is None
                &&& r.set_autostart is None
                &&& !r.open_logs
            },
            UiEvent::TrayIconsToggle(mode) => {
                &&& r.tray == Some(TrayProperty::DarkMode(spec_dark_mode(mode, system)))
                &&& r.persist_dark_light == Some(mode)
                &&& r.command is None
                &&& r.set_autostart is None
                &&& !r.open_logs
            },
            UiEvent::AutoStartToggle(enabled) => {
                &&& r.set_autostart == Some(enabled)
                &&& r.command is None
                &&& r.tray is None
                &&& r.persist_dark_light is None
                &&& !r.open_logs
            },
            UiEvent::OpenLogsFolder => {
                &&& r.open_logs
                &&& r.command is None
                &&& r.tray is None
                &&& r.persist_dark_light is None
                &&& r.set_autostart is None
            },
            UiEvent::StartPlugins => {
                &&& r.command matches Some(c) && c@ == CommandView::StartPlugins
                &&& r.tray == Some(TrayProperty::Running(true))
                &&& r.persist_dark_light is None
                &&& r.set_autostart is None
                &&& !r.open_logs
            },
        },
{
    match event {
        UiEvent::PluginToggle(id, enabled) => UiDirective {
            command: Some(
                if enabled {
                    Command::EnablePlugin(id)
                } else {
                    Command::DisablePlugin(id)
                },
            ),
            tray: None,
            persist_dark_light: None,
            set_autostart: None,
            open_logs: false,
        },
        UiEvent::TrayIconsToggle(mode) => UiDirective {
            command: None,
            tray: Some(TrayProperty::DarkMode(mode.dark_mode(system))),
            persist_dark_light: Some(mode),
            set_autostart: None,
            open_logs: false,
        },
        UiEvent::AutoStartToggle(enabled) => UiDirective {
            command: None,
            tray: None,
            persist_dark_light: None,
            set_autostart: Some(enabled),
            open_logs: false,
        },
        UiEvent::OpenLogsFolder => UiDirective {
            command: None,
            tray: None,
            persist_dark_light: None,
            set_autostart: None,
            open_logs: true,
        },
        UiEvent::StartPlugins => UiDirective {
            command: Some(Command::StartPlugins),
            tray: Some(TrayProperty::Running(true)),
            persist_dark_light: None,
            set_autostart: None,
            open_logs: false,
        },
    }
}

/// The icon the tray must show.
#[derive(Clone, Copy, Debug, PartialEq, Eq, Structural)]
pub enum IconKind {
    DarkActive,
    DarkInactive,
    LightActive,
    LightInactive,
}

/// The tray task's state: whether the agent is active, and which palette
/// the icons use.
#[derive(Clone, Copy, Debug, PartialEq, Eq, Structural)]
pub struct TrayState {
    pub running: bool,
    pub dark_mode: bool,
}

impl TrayState {
    pub fn new(dark_mode: bool) -> (r: Self)
        ensures
            !r.running,
            r.dark_mode == dark_mode,
    {
        TrayState { running: false, dark_mode }
    }

    /// Applies one property change.
    pub fn apply(&mut self, property: TrayProperty)
        ensures
            *final(self) == match property {
                TrayProperty::Running(b) => TrayState { running: b, ..*old(self) },
                TrayProperty::DarkMode(b) => TrayState { dark_mode: b, ..*old(self) },
            },
    {
        match property {
            TrayProperty::Running(b) => self.running = b,
            TrayProperty::DarkMode(b) => self.dark_mode = b,
        }
    }

    /// The icon matching the current state.
    pub fn icon(&self) -> (r: IconKind)
        ensures
            r == if self.dark_mode {
                if self.running {
                    IconKind::DarkActive
                } else {
                    IconKind::DarkInactive
                }
            } else {
                if self.running {
                    IconKind::LightActive
                } else {
                    IconKind::LightInactive
                }
            },
    {
        if self.dark_mode {
            if self.running {
                IconKind::DarkActive
            } else {
                IconKind::DarkInactive
            }
        } else {
            if self.running {
                IconKind::LightActive
            } else {
                IconKind::LightInactive
            }
        }
    }
}

/// Reorders decoded icon pixels from RGBA to ARGB, pixel by pixel: the
/// alpha byte moves to the front of each four-byte group.
pub fn rgba_to_argb(data: &Vec<u8>) -> (r: Vec<u8>)
    requires
        data@.len() % 4 == 0,
    ensures
        r@.len() == data@.len(),
        forall|p: int|
            0 <= p < data@.len() / 4 ==> {
                &&& #[trigger] r@[4 * p] == data@[4 * p + 3]
                &&& r@[4 * p + 1] == data@[4 * p]
                &&& r@[4 * p + 2] == data@[4 * p + 1]
                &&& r@[4 * p + 3] == data@[4 * p + 2]
            },
{
    let n = data.len();
    let mut r: Vec<u8> = Vec::new();
    let mut i: usize = 0;
    while i < n
        invariant
            0 <= i <= n,
            i % 4 == 0,
            n % 4 == 0,
            n == data@.len(),
            r@.len() == i,
            forall|p: int|
                0 <= p < i / 4 ==> {
                    &&& #[trigger] r@[4 * p] == data@[4 * p + 3]
                    &&& r@[4 * p + 1] == data@[4 * p]
                    &&& r@[4 * p + 2] == data@[4 * p + 1]
                    &&& r@[4 * p + 3] == data@[4 * p + 2]
                },
        decreases n - i,
    {
        let ghost pre = r@;
        r.push(data[i + 3]);
        r.push(data[i]);
        r.push(data[i + 1]);
        r.push(data[i + 2]);
        proof {
            let p0 = i as int / 4;
            assert(4 * p0 == i as int);
            assert(r@ =~= pre + seq![
                data@[i as int + 3],
                data@[i as int],
                data@[i as int + 1],
                data@[i as int + 2],
            ]);
            assert forall|p: int| 0 <= p < p0 implies #[trigger] r@[4 * p] == pre[4 * p] && r@[4
                * p + 1] == pre[4 * p + 1] && r@[4 * p + 2] == pre[4 * p + 2] && r@[4 * p + 3]
                == pre[4 * p + 3] by {}
            assert(r@[4 * p0] == data@[4 * p0 + 3]);
            assert(r@[4 * p0 + 1] == data@[4 * p0]);
            assert(r@[4 * p0 + 2] == data@[4 * p0 + 1]);
            assert(r@[4 * p0 + 3] == data@[4 * p0 + 2]);
            assert((i as int + 4) / 4 == p0 + 1) by (nonlinear_arith)
                requires
                    4 * p0 == i as int,
            ;
        }
        i = i + 4;
    }
    r
}

} // verus!
