use vstd::prelude::*;

use crate::node::OscAccess;
use crate::paths::str_eq;
use crate::service::OscQueryServiceBuilder;

verus! {

/// Persisted settings of the shocker plugin.  The float-valued session
/// state (intensity and its cap) lives with the unverified shell.
pub struct CoreConfig {
    pub username: String,
    pub api_key: String,
    pub codes: Vec<String>,
    pub duration: u8,
}

impl Default for CoreConfig {
    fn default() -> (r: Self)
        ensures
            r.username@ == Seq::<char>::empty(),
            r.api_key@ == Seq::<char>::empty(),
            r.codes@.len() == 1 && r.codes@[0]@ == Seq::<char>::empty(),
            r.duration == 4,
    {
        let mut codes: Vec<String> = Vec::new();
        codes.push(String::new());
        CoreConfig { username: String::new(), api_key: String::new(), codes, duration: 4 }
    }
}

/// The remote operation the plugin can trigger.
#[derive(Clone, Copy, Debug, PartialEq, Eq, Structural)]
pub enum Operation {
    Shock,
    Vibrate,
}

impl Operation {
    /// The operation code the remote API expects.
    pub fn into_byte(self) -> (r: u8)
        ensures
            self == Operation::Shock ==> r == 0,
            self == Operation::Vibrate ==> r == 1,
    {
        match self {
            Operation::Shock => 0,
            Operation::Vibrate => 1,
        }
    }

    pub fn is_shock(self) -> (r: bool)
        ensures
            r <==> self == Operation::Shock,
    {
        match self {
            Operation::Shock => true,
            _ => false,
        }
    }
}

/// What the remote API's textual status means.
#[derive(Clone, Copy, Debug, PartialEq, Eq, Structural)]
pub enum ApiOutcome {
    /// The operation went — or was at least attempted.
    Accepted,
    /// The stored credentials were rejected.
    NotAuthorized,
    /// An unrecognized status line.
    Unrecognized,
}

/// Classifies the status text the remote API answered with.
pub fn classify_api_response(status: &str) -> (r: ApiOutcome)
    ensures
        r == ApiOutcome::Accepted <==> (status@ == "Operation Succeeded."@ || status@
            == "Operation Attempted."@),
        r == ApiOutcome::NotAuthorized <==> status@ == "Not Authorized."@,
{
    proof {
        reveal_strlit("Operation Succeeded.");
        reveal_strlit("Operation Attempted.");
        reveal_strlit("Not Authorized.");
        assert("Operation Succeeded."@ != "Operation Attempted."@) by {
            assert("Operation Succeeded."@[10] != "Operation Attempted."@[10]);
        }
        assert("Operation Succeeded."@ != "Not Authorized."@) by {
            assert("Operation Succeeded."@.len() != "Not Authorized."@.len());
        }
        assert("Operation Attempted."@ != "Not Authorized."@) by {
            assert("Operation Attempted."@.len() != "Not Authorized."@.len());
        }
    }
    if str_eq(status, "Operation Succeeded.") {
        ApiOutcome::Accepted
    } else if str_eq(status, "Operation Attempted.") {
        ApiOutcome::Accepted
    } else if str_eq(status, "Not Authorized.") {
        ApiOutcome::NotAuthorized
    } else {
        ApiOutcome::Unrecognized
    }
}

/// Clamps a configured duration into the 1 to 15 second range the remote
/// API accepts.
pub fn clamp_duration(d: u8) -> (r: u8)
    ensures
        1 <= r <= 15,
        r == if d < 1 {
            1u8
        } else if d > 15 {
            15u8
        } else {
            d
        },
{
    if d < 1 {
        1
    } else if d > 15 {
        15
    } else {
        d
    }
}

/// The in-game buttons the plugin watches.
#[derive(Clone, Copy, Debug, PartialEq, Eq, Structural)]
pub enum Button {
    Minus,
    Plus,
    ShockLeft,
    ShockRight,
}

/// Which buttons are currently held.
#[derive(Clone, Copy, Debug, PartialEq, Eq, Structural)]
pub struct PiShockButtons {
    pub minus: bool,
    pub plus: bool,
    pub shock_left: bool,
    pub shock_right: bool,
}

/// The plugin's session state machine: the held buttons, and whether the
/// continuous intensity-modifier and shock-sender units are running.
#[derive(Clone, Copy, Debug, PartialEq, Eq, Structural)]
pub struct PiShockState {
    pub buttons: PiShockButtons,
    pub modifier_active: bool,
    pub shock_active: bool,
}

/// The direction of a running intensity modification.
#[derive(Clone, Copy, Debug, PartialEq, Eq, Structural)]
pub enum Direction {
    Up,
    Down,
}

/// What the caller must do about the intensity-modifier unit.
#[derive(Clone, Copy, Debug, PartialEq, Eq, Structural)]
pub enum ModifierAction {
    Start(Direction),
    Stop,
    Keep,
}

/// What the caller must do about the continuous-shock unit.
#[derive(Clone, Copy, Debug, PartialEq, Eq, Structural)]
pub enum ShockAction {
    Start,
    Stop,
    Keep,
}

impl PiShockState {
    /// A fresh session: nothing held, nothing running.
    pub fn new() -> (r: Self)
        ensures
            r == PiShockState::spec_initial(),
    {
        PiShockState {
            buttons: PiShockButtons {
                minus: false,
                plus: false,
                shock_left: false,
                shock_right: false,
            },
            modifier_active: false,
            shock_active: false,
        }
    }

    pub open spec fn spec_initial() -> PiShockState {
        PiShockState {
            buttons: PiShockButtons {
                minus: false,
                plus: false,
                shock_left: false,
                shock_right: false,
            },
            modifier_active: false,
            shock_active: false,
        }
    }

    /// Clears the session state, as on every fresh plugin start.
    pub fn reset(&mut self)
        ensures
            *final(self) == PiShockState::spec_initial(),
    {
        *self = Self::new();
    }

    /// Records a button going down or up.
    pub fn toggle_button(&mut self, button: Button, pressed: bool)
        ensures
            final(self).buttons == match button {
                Button::Minus => PiShockButtons { minus: pressed, ..old(self).buttons },
                Button::Plus => PiShockButtons { plus: pressed, ..old(self).buttons },
                Button::ShockLeft => PiShockButtons { shock_left: pressed, ..old(self).buttons },
                Button::ShockRight => PiShockButtons { shock_right: pressed, ..old(self).buttons },
            },
            final(self).modifier_active == old(self).modifier_active,
            final(self).shock_active == old(self).shock_active,
    {
        match button {
            Button::Minus => self.buttons.minus = pressed,
            Button::Plus => self.buttons.plus = pressed,
            Button::ShockLeft => self.buttons.shock_left = pressed,
            Button::ShockRight => self.buttons.shock_right = pressed,
        }
    }

    /// After a minus/plus edge: starts the intensity modifier when exactly
    /// one of the two buttons is held and none runs; any change while one
    /// runs stops it.
    pub fn check_modifier_state(&mut self) -> (r: ModifierAction)
        ensures
            final(self).buttons == old(self).buttons,
            final(self).shock_active == old(self).shock_active,
            ({
                let b = old(self).buttons;
                if !old(self).modifier_active && b.minus && !b.plus {
                    r == ModifierAction::Start(Direction::Down) && final(self).modifier_active
                } else if !old(self).modifier_active && !b.minus && b.plus {
                    r == ModifierAction::Start(Direction::Up) && final(self).modifier_active
                } else if old(self).modifier_active {
                    r == ModifierAction::Stop && !final(self).modifier_active
                } else {
                    r == ModifierAction::Keep && final(self).modifier_active == old(self).modifier_active
                }
            }),
    {
        if !self.modifier_active && self.buttons.minus && !self.buttons.plus {
            self.modifier_active = true;
            ModifierAction::Start(Direction::Down)
        } else if !self.modifier_active && !self.buttons.minus && self.buttons.plus {
            self.modifier_active = true;
            ModifierAction::Start(Direction::Up)
        } else if self.modifier_active {
            self.modifier_active = false;
            ModifierAction::Stop
        } else {
            ModifierAction::Keep
        }
    }

    /// After a shock-button edge: starts the continuous shock sender when
    /// both shock buttons are held and it does not run; stops it when it
    /// runs and the grip was released.
    pub fn check_shock_state(&mut self) -> (r: ShockAction)
        ensures
            final(self).buttons == old(self).buttons,
            final(self).modifier_active == old(self).modifier_active,
            ({
                let both = old(self).buttons.shock_left && old(self).buttons.shock_right;
                if !old(self).shock_active && both {
                    r == ShockAction::Start && final(self).shock_active
                } else if old(self).shock_active && !both {
                    r == ShockAction::Stop && !final(self).shock_active
                } else {
                    r == ShockAction::Keep && final(self).shock_active == old(self).shock_active
                }
            }),
    {
        let both = self.buttons.shock_left && self.buttons.shock_right;
        if !self.shock_active && both {
            self.shock_active = true;
            ShockAction::Start
        } else if self.shock_active && !both {
            self.shock_active = false;
            ShockAction::Stop
        } else {
            ShockAction::Keep
        }
    }
}

/// What one inbound boolean parameter asks the plugin loop to do.
#[derive(Clone, Copy, Debug, PartialEq, Eq, Structural)]
pub struct ButtonActions {
    pub modifier: ModifierAction,
    pub shock: ShockAction,
}

impl PiShockState {
    /// Handles one boolean-valued parameter the way the plugin loop does:
    /// a minus/plus edge is recorded and decides the intensity-modifier
    /// unit; a shock-button edge is recorded and decides the continuous
    /// shock sender; every other parameter leaves the state alone.
    pub fn handle_bool_param(&mut self, param: PiShockParam, value: bool) -> (r: ButtonActions)
        ensures
            ({
                let held = spec_after_toggle(old(self).buttons, param, value);
                match param {
                    PiShockParam::MinusPressed | PiShockParam::PlusPressed => {
                        &&& final(self).buttons == held
                        &&& final(self).shock_active == old(self).shock_active
                        &&& r.shock == ShockAction::Keep
                        &&& (if !old(self).modifier_active && held.minus && !held.plus {
                            r.modifier == ModifierAction::Start(Direction::Down) && final(self).modifier_active
                        } else if !old(self).modifier_active && !held.minus && held.plus {
                            r.modifier == ModifierAction::Start(Direction::Up) && final(self).modifier_active
                        } else if old(self).modifier_active {
                            r.modifier == ModifierAction::Stop && !final(self).modifier_active
                        } else {
                            r.modifier == ModifierAction::Keep && final(self).modifier_active
                                == old(self).modifier_active
                        })
                    },
                    PiShockParam::ShockLeftPressed | PiShockParam::ShockRightPressed => {
                        &&& final(self).buttons == held
                        &&& final(self).modifier_active == old(self).modifier_active
                        &&& r.modifier == ModifierAction::Keep
                        &&& (if !old(self).shock_active && held.shock_left && held.shock_right {
                            r.shock == ShockAction::Start && final(self).shock_active
                        } else if old(self).shock_active && !(held.shock_left
                            && held.shock_right) {
                            r.shock == ShockAction::Stop && !final(self).shock_active
                        } else {
                            r.shock == ShockAction::Keep && final(self).shock_active == old(self).shock_active
                        })
                    },
                    _ => *final(self) == *old(self) && r.modifier == ModifierAction::Keep
                        && r.shock == ShockAction::Keep,
                }
            }),
    {
        match param {
            PiShockParam::MinusPressed => {
                self.toggle_button(Button::Minus, value);
                ButtonActions { modifier: self.check_modifier_state(), shock: ShockAction::Keep }
            },
            PiShockParam::PlusPressed => {
                self.toggle_button(Button::Plus, value);
                ButtonActions { modifier: self.check_modifier_state(), shock: ShockAction::Keep }
            },
            PiShockParam::ShockLeftPressed => {
                self.toggle_button(Button::ShockLeft, value);
                ButtonActions { modifier: ModifierAction::Keep, shock: self.check_shock_state() }
            },
            PiShockParam::ShockRightPressed => {
                self.toggle_button(Button::ShockRight, value);
                ButtonActions { modifier: ModifierAction::Keep, shock: self.check_shock_state() }
            },
            _ => ButtonActions { modifier: ModifierAction::Keep, shock: ShockAction::Keep },
        }
    }
}

/// The held buttons after recording one parameter edge.
pub open spec fn spec_after_toggle(
    b: PiShockButtons,
    param: PiShockParam,
    value: bool,
) -> PiShockButtons {
    match param {
        PiShockParam::MinusPressed => PiShockButtons { minus: value, ..b },
        PiShockParam::PlusPressed => PiShockButtons { plus: value, ..b },
        PiShockParam::ShockLeftPressed => PiShockButtons { shock_left: value, ..b },
        PiShockParam::ShockRightPressed => PiShockButtons { shock_right: value, ..b },
        _ => b,
    }
}

/// The active-window rule of the shock activity monitor: a shock of
/// `duration` landing at `now` extends the parameter-off deadline only if
/// it outlasts the current one.
pub fn extend_deadline(current: u64, now: u64, duration: u64) -> (r: Option<u64>)
    requires
        now + duration <= u64::MAX,
    ensures
        r == if now + duration > current {
            Some((now + duration) as u64)
        } else {
            Option::<u64>::None
        },
{
    let candidate = now + duration;
    if candidate > current {
        Some(candidate)
    } else {
        None
    }
}

/// The parameters the shocker plugin listens to or publishes.
#[derive(Clone, Copy, Debug, PartialEq, Eq, Structural)]
pub enum PiShockParam {
    MinusPressed,
    PlusPressed,
    ShockLeftPressed,
    ShockRightPressed,
    Intensity,
    IntensityCap,
    QuickVibrate,
    QuickShock,
    AvatarChange,
    Unrecognized,
}

/// Classifies an inbound address into the parameter it names.
pub fn classify_param(addr: &str) -> (r: PiShockParam)
    ensures
        r == PiShockParam::MinusPressed <==> addr@ == "/avatar/parameters/PS_Minus_Pressed"@,
        r == PiShockParam::PlusPressed <==> addr@ == "/avatar/parameters/PS_Plus_Pressed"@,
        r == PiShockParam::ShockLeftPressed <==> addr@
            == "/avatar/parameters/PS_ShockLeft_Pressed"@,
        r == PiShockParam::ShockRightPressed <==> addr@
            == "/avatar/parameters/PS_ShockRight_Pressed"@,
        r == PiShockParam::Intensity <==> addr@ == "/avatar/parameters/PS_Intensity"@,
        r == PiShockParam::IntensityCap <==> addr@ == "/avatar/parameters/PS_IntensityCap"@,
        r == PiShockParam::QuickVibrate <==> addr@ == "/avatar/parameters/PS_QuickVibrate"@,
        r == PiShockParam::QuickShock <==> addr@ == "/avatar/parameters/PS_QuickShock"@,
        r == PiShockParam::AvatarChange <==> addr@ == "/avatar/change"@,
{
    proof {
        reveal_strlit("/avatar/parameters/PS_Minus_Pressed");
        reveal_strlit("/avatar/parameters/PS_Plus_Pressed");
        reveal_strlit("/avatar/parameters/PS_ShockLeft_Pressed");
        reveal_strlit("/avatar/parameters/PS_ShockRight_Pressed");
        reveal_strlit("/avatar/parameters/PS_Intensity");
        reveal_strlit("/avatar/parameters/PS_IntensityCap");
        reveal_strlit("/avatar/parameters/PS_QuickVibrate");
        reveal_strlit("/avatar/parameters/PS_QuickShock");
        reveal_strlit("/avatar/change");
        assert("/avatar/parameters/PS_Minus_Pressed"@ != "/avatar/parameters/PS_Plus_Pressed"@) by {
            assert("/avatar/parameters/PS_Minus_Pressed"@.len() != "/avatar/parameters/PS_Plus_Pressed"@.len());
        }
        assert("/avatar/parameters/PS_Minus_Pressed"@ != "/avatar/parameters/PS_ShockLeft_Pressed"@) by {
            assert("/avatar/parameters/PS_Minus_Pressed"@.len() != "/avatar/parameters/PS_ShockLeft_Pressed"@.len());
        }
        assert("/avatar/parameters/PS_Minus_Pressed"@ != "/avatar/parameters/PS_ShockRight_Pressed"@) by {
            assert("/avatar/parameters/PS_Minus_Pressed"@.len() != "/avatar/parameters/PS_ShockRight_Pressed"@.len());
        }
        assert("/avatar/parameters/PS_Minus_Pressed"@ != "/avatar/parameters/PS_Intensity"@) by {
            assert("/avatar/parameters/PS_Minus_Pressed"@.len() != "/avatar/parameters/PS_Intensity"@.len());
        }
        assert("/avatar/parameters/PS_Minus_Pressed"@ != "/avatar/parameters/PS_IntensityCap"@) by {
            assert("/avatar/parameters/PS_Minus_Pressed"@.len() != "/avatar/parameters/PS_IntensityCap"@.len());
        }
        assert("/avatar/parameters/PS_Minus_Pressed"@ != "/avatar/parameters/PS_QuickVibrate"@) by {
            assert("/avatar/parameters/PS_Minus_Pressed"@.len() != "/avatar/parameters/PS_QuickVibrate"@.len());
        }
        assert("/avatar/parameters/PS_Minus_Pressed"@ != "/avatar/parameters/PS_QuickShock"@) by {
            assert("/avatar/parameters/PS_Minus_Pressed"@.len() != "/avatar/parameters/PS_QuickShock"@.len());
        }
        assert("/avatar/parameters/PS_Minus_Pressed"@ != "/avatar/change"@) by {
            assert("/avatar/parameters/PS_Minus_Pressed"@.len() != "/avatar/change"@.len());
        }
        assert("/avatar/parameters/PS_Plus_Pressed"@ != "/avatar/parameters/PS_ShockLeft_Pressed"@) by {
            assert("/avatar/parameters/PS_Plus_Pressed"@.len() != "/avatar/parameters/PS_ShockLeft_Pressed"@.len());
        }
        assert("/avatar/parameters/PS_Plus_Pressed"@ != "/avatar/parameters/PS_ShockRight_Pressed"@) by {
            assert("/avatar/parameters/PS_Plus_Pressed"@.len() != "/avatar/parameters/PS_ShockRight_Pressed"@.len());
        }
        assert("/avatar/parameters/PS_Plus_Pressed"@ != "/avatar/parameters/PS_Intensity"@) by {
            assert("/avatar/parameters/PS_Plus_Pressed"@.len() != "/avatar/parameters/PS_Intensity"@.len());
        }
        assert("/avatar/parameters/PS_Plus_Pressed"@ != "/avatar/parameters/PS_IntensityCap"@) by {
            assert("/avatar/parameters/PS_Plus_Pressed"@[22] != "/avatar/parameters/PS_IntensityCap"@[22]);
        }
        assert("/avatar/parameters/PS_Plus_Pressed"@ != "/avatar/parameters/PS_QuickVibrate"@) by {
            assert("/avatar/parameters/PS_Plus_Pressed"@[22] != "/avatar/parameters/PS_QuickVibrate"@[22]);
        }
        assert("/avatar/parameters/PS_Plus_Pressed"@ != "/avatar/parameters/PS_QuickShock"@) by {
            assert("/avatar/parameters/PS_Plus_Pressed"@.len() != "/avatar/parameters/PS_QuickShock"@.len());
        }
        assert("/avatar/parameters/PS_Plus_Pressed"@ != "/avatar/change"@) by {
            assert("/avatar/parameters/PS_Plus_Pressed"@.len() != "/avatar/change"@.len());
        }
        assert("/avatar/parameters/PS_ShockLeft_Pressed"@ != "/avatar/parameters/PS_ShockRight_Pressed"@) by {
            assert("/avatar/parameters/PS_ShockLeft_Pressed"@.len() != "/avatar/parameters/PS_ShockRight_Pressed"@.len());
        }
        assert("/avatar/parameters/PS_ShockLeft_Pressed"@ != "/avatar/parameters/PS_Intensity"@) by {
            assert("/avatar/parameters/PS_ShockLeft_Pressed"@.len() != "/avatar/parameters/PS_Intensity"@.len());
        }
        assert("/avatar/parameters/PS_ShockLeft_Pressed"@ != "/avatar/parameters/PS_IntensityCap"@) by {
            assert("/avatar/parameters/PS_ShockLeft_Pressed"@.len() != "/avatar/parameters/PS_IntensityCap"@.len());
        }
        assert("/avatar/parameters/PS_ShockLeft_Pressed"@ != "/avatar/parameters/PS_QuickVibrate"@) by {
            assert("/avatar/parameters/PS_ShockLeft_Pressed"@.len() != "/avatar/parameters/PS_QuickVibrate"@.len());
        }
        assert("/avatar/parameters/PS_ShockLeft_Pressed"@ != "/avatar/parameters/PS_QuickShock"@) by {
            assert("/avatar/parameters/PS_ShockLeft_Pressed"@.len() != "/avatar/parameters/PS_QuickShock"@.len());
        }
        assert("/avatar/parameters/PS_ShockLeft_Pressed"@ != "/avatar/change"@) by {
            assert("/avatar/parameters/PS_ShockLeft_Pressed"@.len() != "/avatar/change"@.len());
        }
        assert("/avatar/parameters/PS_ShockRight_Pressed"@ != "/avatar/parameters/PS_Intensity"@) by {
            assert("/avatar/parameters/PS_ShockRight_Pressed"@.len() != "/avatar/parameters/PS_Intensity"@.len());
        }
        assert("/avatar/parameters/PS_ShockRight_Pressed"@ != "/avatar/parameters/PS_IntensityCap"@) by {
            assert("/avatar/parameters/PS_ShockRight_Pressed"@.len() != "/avatar/parameters/PS_IntensityCap"@.len());
        }
        assert("/avatar/parameters/PS_ShockRight_Pressed"@ != "/avatar/parameters/PS_QuickVibrate"@) by {
            assert("/avatar/parameters/PS_ShockRight_Pressed"@.len() != "/avatar/parameters/PS_QuickVibrate"@.len());
        }
        assert("/avatar/parameters/PS_ShockRight_Pressed"@ != "/avatar/parameters/PS_QuickShock"@) by {
            assert("/avatar/parameters/PS_ShockRight_Pressed"@.len() != "/avatar/parameters/PS_QuickShock"@.len());
        }
        assert("/avatar/parameters/PS_ShockRight_Pressed"@ != "/avatar/change"@) by {
            assert("/avatar/parameters/PS_ShockRight_Pressed"@.len() != "/avatar/change"@.len());
        }
        assert("/avatar/parameters/PS_Intensity"@ != "/avatar/parameters/PS_IntensityCap"@) by {
            assert("/avatar/parameters/PS_Intensity"@.len() != "/avatar/parameters/PS_IntensityCap"@.len());
        }
        assert("/avatar/parameters/PS_Intensity"@ != "/avatar/parameters/PS_QuickVibrate"@) by {
            assert("/avatar/parameters/PS_Intensity"@.len() != "/avatar/parameters/PS_QuickVibrate"@.len());
        }
        assert("/avatar/parameters/PS_Intensity"@ != "/avatar/parameters/PS_QuickShock"@) by {
            assert("/avatar/parameters/PS_Intensity"@.len() != "/avatar/parameters/PS_QuickShock"@.len());
        }
        assert("/avatar/parameters/PS_Intensity"@ != "/avatar/change"@) by {
            assert("/avatar/parameters/PS_Intensity"@.len() != "/avatar/change"@.len());
        }
        assert("/avatar/parameters/PS_IntensityCap"@ != "/avatar/parameters/PS_QuickVibrate"@) by {
            assert("/avatar/parameters/PS_IntensityCap"@[22] != "/avatar/parameters/PS_QuickVibrate"@[22]);
        }
        assert("/avatar/parameters/PS_IntensityCap"@ != "/avatar/parameters/PS_QuickShock"@) by {
            assert("/avatar/parameters/PS_IntensityCap"@.len() != "/avatar/parameters/PS_QuickShock"@.len());
        }
        assert("/avatar/parameters/PS_IntensityCap"@ != "/avatar/change"@) by {
            assert("/avatar/parameters/PS_IntensityCap"@.len() != "/avatar/change"@.len());
        }
        assert("/avatar/parameters/PS_QuickVibrate"@ != "/avatar/parameters/PS_QuickShock"@) by {
            assert("/avatar/parameters/PS_QuickVibrate"@.len() != "/avatar/parameters/PS_QuickShock"@.len());
        }
        assert("/avatar/parameters/PS_QuickVibrate"@ != "/avatar/change"@) by {
            assert("/avatar/parameters/PS_QuickVibrate"@.len() != "/avatar/change"@.len());
        }
        assert("/avatar/parameters/PS_QuickShock"@ != "/avatar/change"@) by {
            assert("/avatar/parameters/PS_QuickShock"@.len() != "/avatar/change"@.len());
        }
    }
    if str_eq(addr, "/avatar/parameters/PS_Minus_Pressed") {
        PiShockParam::MinusPressed
    } else if str_eq(addr, "/avatar/parameters/PS_Plus_Pressed") {
        PiShockParam::PlusPressed
    } else if str_eq(addr, "/avatar/parameters/PS_ShockLeft_Pressed") {
        PiShockParam::ShockLeftPressed
    } else if str_eq(addr, "/avatar/parameters/PS_ShockRight_Pressed") {
        PiShockParam::ShockRightPressed
    } else if str_eq(addr, "/avatar/parameters/PS_Intensity") {
        PiShockParam::Intensity
    } else if str_eq(addr, "/avatar/parameters/PS_IntensityCap") {
        PiShockParam::IntensityCap
    } else if str_eq(addr, "/avatar/parameters/PS_QuickVibrate") {
        PiShockParam::QuickVibrate
    } else if str_eq(addr, "/avatar/parameters/PS_QuickShock") {
        PiShockParam::QuickShock
    } else if str_eq(addr, "/avatar/change") {
        PiShockParam::AvatarChange
    } else {
        PiShockParam::Unrecognized
    }
}

/// The namespace after the shocker plugin has published its schema.
pub open spec fn pishock_namespace(t: crate::node::NodeModel) -> crate::node::NodeModel {
    crate::plugins::added(
                crate::plugins::added(
                    crate::plugins::added(
                        crate::plugins::added(
                            crate::plugins::added(
                                crate::plugins::added(
                                    crate::plugins::added(
                                        crate::plugins::added(
                                            t,
                                            "/avatar/parameters/PS_Minus_Pressed"@,
                                            "b"@,
                                            OscAccess::Write,
                                            "Minus button pressed"@,
                                        ),
                                        "/avatar/parameters/PS_Plus_Pressed"@,
                                        "b"@,
                                        OscAccess::Write,
                                        "Plus button pressed"@,
                                    ),
                                    "/avatar/parameters/PS_ShockLeft_Pressed"@,
                                    "b"@,
                                    OscAccess::Write,
                                    "Left shock button pressed"@,
                                ),
                                "/avatar/parameters/PS_ShockRight_Pressed"@,
                                "b"@,
                                OscAccess::Write,
                                "Right shock button pressed"@,
                            ),
                            "/avatar/parameters/PS_Intensity"@,
                            "d"@,
                            OscAccess::ReadWrite,
                            "Shock intensity"@,
                        ),
                        "/avatar/parameters/PS_IntensityCap"@,
                        "d"@,
                        OscAccess::ReadWrite,
                        "Shock intensity cap"@,
                    ),
                    "/avatar/parameters/PS_QuickVibrate"@,
                    "d"@,
                    OscAccess::ReadWrite,
                    "Quick shock"@,
                ),
                "/avatar/parameters/PS_QuickShock"@,
                "d"@,
                OscAccess::ReadWrite,
                "Quick vibrate"@,
            )
}

/// The shocker plugin's identity and schema.
pub struct PiShock;

impl PiShock {
    pub fn title(&self) -> (r: &'static str)
        ensures
            r@ == "PiShock Controller"@,
    {
        "PiShock Controller"
    }

    pub fn description(&self) -> (r: &'static str)
        ensures
            r@ == "Let other people control your PiShock shockers via an in-game interface."@,
    {
        "Let other people control your PiShock shockers via an in-game interface."
    }

    pub fn info_url(&self) -> (r: Option<&'static str>)
        ensures
            r matches Some(u) && u@ == "https://dasprid.gumroad.com/l/llfyq"@,
    {
        Some("https://dasprid.gumroad.com/l/llfyq")
    }

    /// Publishes the plugin's parameter schema into the namespace.
    pub fn register_osc_parameters(&self, service: &mut OscQueryServiceBuilder)
        ensures
            final(service).host_info == old(service).host_info,
            final(service).root_node@ == pishock_namespace(old(service).root_node@),
    {
        proof {
            reveal_strlit("/avatar/parameters/PS_Minus_Pressed");
            reveal_strlit("/avatar/parameters/PS_Plus_Pressed");
            reveal_strlit("/avatar/parameters/PS_ShockLeft_Pressed");
            reveal_strlit("/avatar/parameters/PS_ShockRight_Pressed");
            reveal_strlit("/avatar/parameters/PS_Intensity");
            reveal_strlit("/avatar/parameters/PS_IntensityCap");
            reveal_strlit("/avatar/parameters/PS_QuickVibrate");
            reveal_strlit("/avatar/parameters/PS_QuickShock");
        }
        service.add_endpoint(
            String::from_str("/avatar/parameters/PS_Minus_Pressed"),
            String::from_str("b"),
            OscAccess::Write,
            String::from_str("Minus button pressed"),
        );
        service.add_endpoint(
            String::from_str("/avatar/parameters/PS_Plus_Pressed"),
            String::from_str("b"),
            OscAccess::Write,
            String::from_str("Plus button pressed"),
        );
        service.add_endpoint(
            String::from_str("/avatar/parameters/PS_ShockLeft_Pressed"),
            String::from_str("b"),
            OscAccess::Write,
            String::from_str("Left shock button pressed"),
        );
        service.add_endpoint(
            String::from_str("/avatar/parameters/PS_ShockRight_Pressed"),
            String::from_str("b"),
            OscAccess::Write,
            String::from_str("Right shock button pressed"),
        );
        service.add_endpoint(
            String::from_str("/avatar/parameters/PS_Intensity"),
            String::from_str("d"),
            OscAccess::ReadWrite,
            String::from_str("Shock intensity"),
        );
        service.add_endpoint(
            String::from_str("/avatar/parameters/PS_IntensityCap"),
            String::from_str("d"),
            OscAccess::ReadWrite,
            String::from_str("Shock intensity cap"),
        );
        service.add_endpoint(
            String::from_str("/avatar/parameters/PS_QuickVibrate"),
            String::from_str("d"),
            OscAccess::ReadWrite,
            String::from_str("Quick shock"),
        );
        service.add_endpoint(
            String::from_str("/avatar/parameters/PS_QuickShock"),
            String::from_str("d"),
            OscAccess::ReadWrite,
            String::from_str("Quick vibrate"),
        );
    }
}

/// A whitespace character, as the settings parser understands it.
pub open spec fn is_ws(c: char) -> bool {
    c == ' ' || c == '\t' || c == '\r' || c == '\n'
}

/// The sequence with its leading whitespace removed.
pub open spec fn trim_front(s: Seq<char>) -> Seq<char>
    decreases s.len(),
{
    if s.len() > 0 && is_ws(s[0]) {
        trim_front(s.subrange(1, s.len() as int))
    } else {
        s
    }
}

/// The sequence with its trailing whitespace removed.
pub open spec fn trim_back(s: Seq<char>) -> Seq<char>
    decreases s.len(),
{
    if s.len() > 0 && is_ws(s[s.len() - 1]) {
        trim_back(s.drop_last())
    } else {
        s
    }
}

/// The sequence with surrounding whitespace removed.
pub open spec fn spec_trim(s: Seq<char>) -> Seq<char> {
    trim_back(trim_front(s))
}

proof fn lemma_trim_front_at(s: Seq<char>, a: int)
    requires
        0 <= a <= s.len(),
        forall|i: int| 0 <= i < a ==> is_ws(#[trigger] s[i]),
        a < s.len() ==> !is_ws(s[a]),
    ensures
        trim_front(s) == s.subrange(a, s.len() as int),
    decreases a,
{
    if a == 0 {
        assert(s.subrange(0, s.len() as int) =~= s);
        if s.len() > 0 && is_ws(s[0]) {
            assert(!is_ws(s[0]));
        }
    } else {
        let sub = s.subrange(1, s.len() as int);
        assert forall|i: int| 0 <= i < a - 1 implies is_ws(#[trigger] sub[i]) by {
            assert(sub[i] == s[i + 1]);
        }
        lemma_trim_front_at(sub, a - 1);
        assert(sub.subrange(a - 1, sub.len() as int) =~= s.subrange(a, s.len() as int));
    }
}

proof fn lemma_trim_back_at(s: Seq<char>, b: int)
    requires
        0 <= b <= s.len(),
        forall|i: int| b <= i < s.len() ==> is_ws(#[trigger] s[i]),
        b > 0 ==> !is_ws(s[b - 1]),
    ensures
        trim_back(s) == s.subrange(0, b),
    decreases s.len() - b,
{
    if b == s.len() {
        if s.len() > 0 && is_ws(s[s.len() - 1]) {
            let sub = s.drop_last();
            assert forall|i: int| b - 1 <= i < sub.len() implies is_ws(#[trigger] sub[i]) by {
                assert(sub[i] == s[i]);
            }
            lemma_trim_back_at(sub, b - 1);
            assert(sub.subrange(0, b - 1) =~= s.subrange(0, b - 1));
        } else {
            assert(s.subrange(0, b) =~= s);
        }
    } else {
        let sub = s.drop_last();
        assert(is_ws(s[s.len() - 1]));
        assert forall|i: int| b <= i < sub.len() implies is_ws(#[trigger] sub[i]) by {
            assert(sub[i] == s[i]);
        }
        lemma_trim_back_at(sub, b);
        assert(sub.subrange(0, b) =~= s.subrange(0, b));
    }
}

/// Is the character surrounding whitespace?
fn ws_char(c: char) -> (r: bool)
    ensures
        r == is_ws(c),
{
    c == ' ' || c == '\t' || c == '\r' || c == '\n'
}

/// A copy of `s` with surrounding whitespace removed.
pub fn trim_ws(s: &str) -> (r: String)
    ensures
        r@ == spec_trim(s@),
{
    let n = s.unicode_len();
    let mut a: usize = 0;
    while a < n && ws_char(s.get_char(a))
        invariant
            0 <= a <= n,
            n == s@.len(),
            forall|i: int| 0 <= i < a ==> is_ws(#[trigger] s@[i]),
        decreases n - a,
    {
        a = a + 1;
    }
    proof {
        lemma_trim_front_at(s@, a as int);
    }
    let mut b: usize = n;
    while b > a && ws_char(s.get_char(b - 1))
        invariant
            a <= b <= n,
            n == s@.len(),
            forall|i: int| b <= i < n ==> is_ws(#[trigger] s@[i]),
        decreases b,
    {
        b = b - 1;
    }
    let ghost front = s@.subrange(a as int, n as int);
    proof {
        assert forall|i: int| b - a <= i < front.len() implies is_ws(#[trigger] front[i]) by {
            assert(front[i] == s@[i + a]);
        }
        if b > a {
            assert(front[b - a - 1] == s@[b - 1]);
        }
        lemma_trim_back_at(front, b - a);
        assert(front.subrange(0, b - a) =~= s@.subrange(a as int, b as int));
    }
    s.substring_char(a, b).to_owned()
}

/// Index of the first occurrence of the share-code marker `?sharecode=`
/// in `s`, or `-1` if it does not occur.
pub open spec fn find_marker(s: Seq<char>) -> int
    decreases s.len(),
{
    if s.len() < 11 {
        -1
    } else if s.subrange(0, 11) == "?sharecode="@ {
        0
    } else {
        let r = find_marker(s.subrange(1, s.len() as int));
        if r < 0 {
            -1
        } else {
            r + 1
        }
    }
}

proof fn lemma_find_marker(s: Seq<char>)
    ensures
        find_marker(s) == -1 || (0 <= find_marker(s) <= s.len() - 11),
        find_marker(s) >= 0 ==> s.subrange(find_marker(s), find_marker(s) + 11)
            == "?sharecode="@,
        find_marker(s) == -1 ==> forall|k: int|
            0 <= k <= s.len() - 11 ==> #[trigger] s.subrange(k, k + 11) != "?sharecode="@,
    decreases s.len(),
{
    if s.len() >= 11 && s.subrange(0, 11) != "?sharecode="@ {
        let sub = s.subrange(1, s.len() as int);
        lemma_find_marker(sub);
        if find_marker(s) >= 0 {
            assert(s.subrange(find_marker(s), find_marker(s) + 11) =~= sub.subrange(
                find_marker(s) - 1,
                (find_marker(s) - 1) + 11,
            ));
        } else {
            assert forall|k: int| 0 <= k <= s.len() - 11 implies #[trigger] s.subrange(k, k + 11)
                != "?sharecode="@ by {
                if k == 0 {
                    assert(s.subrange(k, k + 11) == s.subrange(0, 11));
                } else {
                    assert(sub.subrange(k - 1, (k - 1) + 11) != "?sharecode="@);
                    assert(s.subrange(k, k + 11) =~= sub.subrange(k - 1, (k - 1) + 11));
                }
            }
        }
    }
}

proof fn lemma_find_marker_of_first(s: Seq<char>, k: int)
    requires
        0 <= k <= s.len() - 11,
        s.subrange(k, k + 11) == "?sharecode="@,
        forall|j: int| 0 <= j < k ==> #[trigger] s.subrange(j, j + 11) != "?sharecode="@,
    ensures
        find_marker(s) == k,
    decreases s.len(),
{
    if k == 0 {
    } else {
        let sub = s.subrange(1, s.len() as int);
        assert(sub.subrange(k - 1, k + 10) =~= s.subrange(k, k + 11));
        assert forall|j: int| 0 <= j < k - 1 implies #[trigger] sub.subrange(j, j + 11)
            != "?sharecode="@ by {
            assert(s.subrange(j + 1, (j + 1) + 11) != "?sharecode="@);
            assert(sub.subrange(j, j + 11) =~= s.subrange(j + 1, (j + 1) + 11));
        }
        lemma_find_marker_of_first(sub, k - 1);
        assert(s.subrange(0, 11) != "?sharecode="@) by {
            assert(s.subrange(0, 11) == s.subrange(0int, 0int + 11));
        }
    }
}

/// Position of the share-code marker in `s`, if it occurs.
fn find_marker_at(s: &str) -> (r: Option<usize>)
    ensures
        match r {
            Some(k) => find_marker(s@) == k as int && k + 11 <= s@.len(),
            None => find_marker(s@) == -1,
        },
{
    let n = s.unicode_len();
    if n < 11 {
        return None;
    }
    let mut k: usize = 0;
    while k <= n - 11
        invariant
            0 <= k <= n - 10,
            n == s@.len(),
            n >= 11,
            forall|j: int| 0 <= j < k ==> #[trigger] s@.subrange(j, j + 11) != "?sharecode="@,
        decreases n - k,
    {
        if str_eq(s.substring_char(k, k + 11), "?sharecode=") {
            proof {
                lemma_find_marker_of_first(s@, k as int);
            }
            return Some(k);
        }
        k = k + 1;
    }
    proof {
        lemma_find_marker(s@);
    }
    None
}

/// The share code of one input line: the line trimmed, and if it holds a
/// share link, only what follows the marker.
pub open spec fn clean_line(s: Seq<char>) -> Seq<char> {
    let t = spec_trim(s);
    let k = find_marker(t);
    if k >= 0 {
        t.subrange(k + 11, t.len() as int)
    } else {
        t
    }
}

fn clean_line_exec(line: &str) -> (r: String)
    ensures
        r@ == clean_line(line@),
{
    let t = trim_ws(line);
    match find_marker_at(t.as_str()) {
        Some(k) => {
            let n = t.as_str().unicode_len();
            t.as_str().substring_char(k + 11, n).to_owned()
        },
        None => t,
    }
}

/// Index of the first line break in `s`, or `s.len()` if there is none.
pub open spec fn first_nl(s: Seq<char>) -> int
    decreases s.len(),
{
    if s.len() == 0 {
        0
    } else if s[0] == '\n' {
        0
    } else {
        1 + first_nl(s.subrange(1, s.len() as int))
    }
}

proof fn lemma_first_nl(s: Seq<char>)
    ensures
        0 <= first_nl(s) <= s.len(),
        forall|i: int| 0 <= i < first_nl(s) ==> s[i] != '\n',
        first_nl(s) < s.len() ==> s[first_nl(s)] == '\n',
    decreases s.len(),
{
    if s.len() > 0 && s[0] != '\n' {
        let sub = s.subrange(1, s.len() as int);
        lemma_first_nl(sub);
        assert forall|i: int| 1 <= i < s.len() implies s[i] == sub[i - 1] by {}
    }
}

proof fn lemma_first_nl_from(s: Seq<char>, from: int, r: int)
    requires
        0 <= from <= s.len(),
        from <= r <= s.len(),
        forall|j: int| from <= j < r ==> s[j] != '\n',
        r < s.len() ==> s[r] == '\n',
    ensures
        first_nl(s.subrange(from, s.len() as int)) == r - from,
    decreases r - from,
{
    let q = s.subrange(from, s.len() as int);
    if r == from {
        if q.len() > 0 {
            assert(q[0] == s[from]);
        }
    } else {
        assert(q[0] == s[from]);
        lemma_first_nl_from(s, from + 1, r);
        assert(q.subrange(1, q.len() as int) =~= s.subrange(from + 1, s.len() as int));
    }
}

/// The line-break-delimited pieces of `s`, empty pieces kept.
pub open spec fn spec_lines(s: Seq<char>) -> Seq<Seq<char>>
    decreases s.len(),
    via spec_lines_decreases
{
    let k = first_nl(s);
    if k == s.len() {
        seq![s]
    } else {
        seq![s.subrange(0, k)] + spec_lines(s.subrange(k + 1, s.len() as int))
    }
}

#[via_fn]
proof fn spec_lines_decreases(s: Seq<char>) {
    lemma_first_nl(s);
}

/// Splits `s` at its line breaks.
fn split_lines(s: &str) -> (r: Vec<String>)
    ensures
        r@.map_values(|l: String| l@) == spec_lines(s@),
{
    let n = s.unicode_len();
    let mut r: Vec<String> = Vec::new();
    let mut start: usize = 0;
    let mut i: usize = 0;
    proof {
        assert(s@.subrange(0, n as int) =~= s@);
        assert(r@.map_values(|l: String| l@) =~= Seq::<Seq<char>>::empty());
    }
    while i < n
        invariant
            0 <= start <= i <= n,
            n == s@.len(),
            forall|j: int| start <= j < i ==> s@[j] != '\n',
            r@.map_values(|l: String| l@) + spec_lines(s@.subrange(start as int, n as int))
                =~= spec_lines(s@),
        decreases n - i,
    {
        if s.get_char(i) == '\n' {
            let piece = s.substring_char(start, i);
            let ghost pre = r@;
            r.push(piece.to_owned());
            proof {
                let suffix = s@.subrange(start as int, n as int);
                lemma_first_nl_from(s@, start as int, i as int);
                assert(suffix.subrange(0, i - start) =~= s@.subrange(start as int, i as int));
                assert(suffix.subrange(i - start + 1, suffix.len() as int) =~= s@.subrange(
                    i + 1,
                    n as int,
                ));
                assert(spec_lines(suffix) == seq![s@.subrange(start as int, i as int)]
                    + spec_lines(s@.subrange(i + 1, n as int)));
                assert(r@.map_values(|l: String| l@) =~= pre.map_values(|l: String| l@)
                    + seq![s@.subrange(start as int, i as int)]);
            }
            start = i + 1;
        }
        i = i + 1;
    }
    let piece = s.substring_char(start, n);
    let ghost pre = r@;
    r.push(piece.to_owned());
    proof {
        let suffix = s@.subrange(start as int, n as int);
        lemma_first_nl_from(s@, start as int, n as int);
        assert(spec_lines(suffix) == seq![suffix]);
        assert(r@.map_values(|l: String| l@) =~= pre.map_values(|l: String| l@) + seq![suffix]);
        assert(r@.map_values(|l: String| l@) =~= spec_lines(s@));
    }
    r
}

/// The share codes of the settings text: one per non-empty line, each
/// trimmed and stripped of any share-link prefix.
pub open spec fn spec_share_codes(s: Seq<char>) -> Seq<Seq<char>> {
    spec_lines(s).map_values(|l: Seq<char>| clean_line(l)).filter(|l: Seq<char>| l.len() > 0)
}

/// Parses the settings text into the list of configured share codes, as
/// [`spec_share_codes`] describes.
pub fn parse_share_codes(input: &str) -> (r: Vec<String>)
    ensures
        r@.map_values(|l: String| l@) == spec_share_codes(input@),
{
    let lines = split_lines(input);
    let ghost all = spec_lines(input@);
    let mut r: Vec<String> = Vec::new();
    let n = lines.len();
    let mut i: usize = 0;
    proof {
        assert(all.subrange(0, 0) =~= Seq::<Seq<char>>::empty());
        assert(Seq::<Seq<char>>::empty().map_values(|l: Seq<char>| clean_line(l)).filter(
            |l: Seq<char>| l.len() > 0,
        ) =~= Seq::<Seq<char>>::empty());
        assert(r@.map_values(|l: String| l@) =~= Seq::<Seq<char>>::empty());
    }
    while i < n
        invariant
            0 <= i <= n,
            n == lines@.len(),
            lines@.map_values(|l: String| l@) == all,
            r@.map_values(|l: String| l@) =~= all.subrange(0, i as int).map_values(
                |l: Seq<char>| clean_line(l),
            ).filter(|l: Seq<char>| l.len() > 0),
        decreases n - i,
    {
        let ghost prefix = all.subrange(0, i as int);
        let ghost prefix2 = all.subrange(0, i + 1);
        proof {
            assert(prefix2.drop_last() =~= prefix);
            assert(prefix2.last() == all[i as int]);
            reveal_with_fuel(Seq::filter, 2);
            assert(prefix2.map_values(|l: Seq<char>| clean_line(l)).drop_last()
                =~= prefix.map_values(|l: Seq<char>| clean_line(l)));
        }
        let cleaned = clean_line_exec(lines[i].as_str());
        let keep = cleaned.as_str().unicode_len() > 0;
        if keep {
            let ghost pre = r@;
            r.push(cleaned);
            proof {
                assert(r@.map_values(|l: String| l@) =~= pre.map_values(|l: String| l@).push(
                    clean_line(all[i as int]),
                ));
                assert(prefix2.map_values(|l: Seq<char>| clean_line(l)).filter(
                    |l: Seq<char>| l.len() > 0,
                ) =~= prefix.map_values(|l: Seq<char>| clean_line(l)).filter(
                    |l: Seq<char>| l.len() > 0,
                ).push(clean_line(all[i as int])));
            }
        } else {
            proof {
                assert(prefix2.map_values(|l: Seq<char>| clean_line(l)).filter(
                    |l: Seq<char>| l.len() > 0,
                ) =~= prefix.map_values(|l: Seq<char>| clean_line(l)).filter(
                    |l: Seq<char>| l.len() > 0,
                ));
            }
        }
        i = i + 1;
    }
    proof {
        assert(all.subrange(0, n as int) =~= all);
    }
    r
}

} // verus!
