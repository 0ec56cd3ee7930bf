use vstd::prelude::*;

use crate::node::{model_add, root_model, NodeMeta, NodeModel, OscAccess};
use crate::paths::{spec_segments, str_eq, valid_path};
use crate::pishock::{pishock_namespace, PiShock};
use crate::service::{OscHostInfo, OscQueryService, OscQueryServiceBuilder};

verus! {

/// The namespace after publishing one endpoint: shorthand for the model
/// of one `add_endpoint` call.
pub open spec fn added(
    t: NodeModel,
    path: Seq<char>,
    osc_type: Seq<char>,
    access: OscAccess,
    description: Seq<char>,
) -> NodeModel {
    model_add(
        t,
        spec_segments(path),
        NodeMeta { full_path: path, osc_type: Some(osc_type), access, description },
    )
}

/// The namespace after the media-control plugin has published its schema.
pub open spec fn media_control_namespace(t: NodeModel) -> NodeModel {
    added(
        added(
            added(
                added(
                    t,
                    "/avatar/parameters/MC_PrevTrack"@,
                    "b"@,
                    OscAccess::Read,
                    "Media Control: Previous Track"@,
                ),
                "/avatar/parameters/MC_NextTrack"@,
                "b"@,
                OscAccess::Read,
                "Media Control: Next Track"@,
            ),
            "/avatar/parameters/MC_PlayPause"@,
            "b"@,
            OscAccess::Read,
            "Media Control: Play/Pause"@,
        ),
        "/avatar/parameters/MC_Stop"@,
        "b"@,
        OscAccess::Read,
        "Media Control: Stop"@,
    )
}

/// The media-control plugin: maps control-protocol button presses to
/// media key strokes, which the unverified shell injects.
pub struct MediaControl;

/// Which media key a message asks to press.
#[derive(Clone, Copy, Debug, PartialEq, Eq, Structural)]
pub enum MediaKey {
    PrevTrack,
    NextTrack,
    PlayPause,
    Stop,
}

impl MediaControl {
    pub fn title(&self) -> (r: &'static str)
        ensures
            r@ == "Media Control"@,
    {
        "Media Control"
    }

    pub fn description(&self) -> (r: &'static str)
        ensures
            r@ == "Control your media player through VRChat."@,
    {
        "Control your media player through VRChat."
    }

    /// The key to press for one inbound message: a recognized address
    /// whose boolean argument is true presses its key; everything else
    /// presses nothing.
    pub fn media_key_for(addr: &str, pressed: bool) -> (r: Option<MediaKey>)
        ensures
            r == Some(MediaKey::PrevTrack) <==> (pressed && addr@
                == "/avatar/parameters/MC_PrevTrack"@),
            r == Some(MediaKey::NextTrack) <==> (pressed && addr@
                == "/avatar/parameters/MC_NextTrack"@),
            r == Some(MediaKey::PlayPause) <==> (pressed && addr@
                == "/avatar/parameters/MC_PlayPause"@),
            r == Some(MediaKey::Stop) <==> (pressed && addr@ == "/avatar/parameters/MC_Stop"@),
    {
        proof {
            reveal_strlit("/avatar/parameters/MC_PrevTrack");
            reveal_strlit("/avatar/parameters/MC_NextTrack");
            reveal_strlit("/avatar/parameters/MC_PlayPause");
            reveal_strlit("/avatar/parameters/MC_Stop");
            assert("/avatar/parameters/MC_PrevTrack"@ != "/avatar/parameters/MC_NextTrack"@) by {
                assert("/avatar/parameters/MC_PrevTrack"@[22] != "/avatar/parameters/MC_NextTrack"@[22]);
            }
            assert("/avatar/parameters/MC_PrevTrack"@ != "/avatar/parameters/MC_PlayPause"@) by {
                assert("/avatar/parameters/MC_PrevTrack"@[23] != "/avatar/parameters/MC_PlayPause"@[23]);
            }
            assert("/avatar/parameters/MC_NextTrack"@ != "/avatar/parameters/MC_PlayPause"@) by {
                assert("/avatar/parameters/MC_NextTrack"@[22] != "/avatar/parameters/MC_PlayPause"@[22]);
            }
            assert("/avatar/parameters/MC_PrevTrack"@ != "/avatar/parameters/MC_Stop"@) by {
                assert("/avatar/parameters/MC_PrevTrack"@.len()
                    != "/avatar/parameters/MC_Stop"@.len());
            }
            assert("/avatar/parameters/MC_NextTrack"@ != "/avatar/parameters/MC_Stop"@) by {
                assert("/avatar/parameters/MC_NextTrack"@.len()
                    != "/avatar/parameters/MC_Stop"@.len());
            }
            assert("/avatar/parameters/MC_PlayPause"@ != "/avatar/parameters/MC_Stop"@) by {
                assert("/avatar/parameters/MC_PlayPause"@.len()
                    != "/avatar/parameters/MC_Stop"@.len());
            }
        }
        if !pressed {
            return None;
        }
        if str_eq(addr, "/avatar/parameters/MC_PrevTrack") {
            Some(MediaKey::PrevTrack)
        } else if str_eq(addr, "/avatar/parameters/MC_NextTrack") {
            Some(MediaKey::NextTrack)
        } else if str_eq(addr, "/avatar/parameters/MC_PlayPause") {
            Some(MediaKey::PlayPause)
        } else if str_eq(addr, "/avatar/parameters/MC_Stop") {
            Some(MediaKey::Stop)
        } else {
            None
        }
    }

    /// Publishes the plugin's parameter schema into the namespace.
    pub fn register_osc_parameters(&self, service: &mut OscQueryServiceBuilder)
        ensures
            final(service).root_node@ == media_control_namespace(old(service).root_node@),
            final(service).host_info == old(service).host_info,
    {
        proof {
            reveal_strlit("/avatar/parameters/MC_PrevTrack");
            reveal_strlit("/avatar/parameters/MC_NextTrack");
            reveal_strlit("/avatar/parameters/MC_PlayPause");
            reveal_strlit("/avatar/parameters/MC_Stop");
        }
        service.add_endpoint(
            String::from_str("/avatar/parameters/MC_PrevTrack"),
            String::from_str("b"),
            OscAccess::Read,
            String::from_str("Media Control: Previous Track"),
        );
        service.add_endpoint(
            String::from_str("/avatar/parameters/MC_NextTrack"),
            String::from_str("b"),
            OscAccess::Read,
            String::from_str("Media Control: Next Track"),
        );
        service.add_endpoint(
            String::from_str("/avatar/parameters/MC_PlayPause"),
            String::from_str("b"),
            OscAccess::Read,
            String::from_str("Media Control: Play/Pause"),
        );
        service.add_endpoint(
            String::from_str("/avatar/parameters/MC_Stop"),
            String::from_str("b"),
            OscAccess::Read,
            String::from_str("Media Control: Stop"),
        );
    }
}

/// The namespace after the watch plugin has published its schema.
pub open spec fn watch_namespace(t: NodeModel) -> NodeModel {
    added(
        added(
            t,
            "/avatar/parameters/RMBA_WatchHours"@,
            "d"@,
            OscAccess::Write,
            "RMBA encoded hours"@,
        ),
        "/avatar/parameters/RMBA_WatchMinutes"@,
        "d"@,
        OscAccess::Write,
        "RMBA encoded minutes"@,
    )
}

/// The watch plugin: encodes the wall-clock time into the two rotation
/// parameters of an in-game watch.
pub struct Watch;

/// Relies on `chrono::Local::now` and the `Timelike` accessors: the local
/// wall-clock time of day.  Its documentation bounds the fields (hour
/// below 24, minute and second below 60); the value itself depends on the
/// clock, so nothing more is promised.  Relies also on the system clock
/// standing at or after the Unix epoch, which `chrono` requires of `now`.
#[verifier::external_body]
fn local_time_hms() -> (r: (u32, u32, u32))
    ensures
        r.0 < 24,
        r.1 < 60,
        r.2 < 60,
{
    let now = chrono::Local::now();
    (
        chrono::Timelike::hour(&now),
        chrono::Timelike::minute(&now),
        chrono::Timelike::second(&now),
    )
}

impl Watch {
    pub fn title(&self) -> (r: &'static str)
        ensures
            r@ == "OSC Watch"@,
    {
        "OSC Watch"
    }

    pub fn description(&self) -> (r: &'static str)
        ensures
            r@ == "Drive OSC Watch by Reimajo without an additional program."@,
    {
        "Drive OSC Watch by Reimajo without an additional program."
    }

    pub fn info_url(&self) -> (r: Option<&'static str>)
        ensures
            r matches Some(u) && u@ == "https://booth.pm/en/items/3687002"@,
    {
        Some("https://booth.pm/en/items/3687002")
    }

    /// The two hand positions for a given time of day, as exact integer
    /// numerators: the hour hand parameter is `r.0 / 360`, the minute hand
    /// parameter `r.1 / 1800`, both in the interval from -1 to 1 that the
    /// watch expects (hours encode `((h % 12) + m/60) / 6 - 1`, minutes
    /// `(m + s/60) / 30 - 1`).
    pub fn watch_hands(hour: u32, minute: u32, second: u32) -> (r: (i32, i32))
        requires
            hour < 24,
            minute < 60,
            second < 60,
        ensures
            r.0 == (hour as int % 12) * 60 + minute - 360,
            r.1 == minute * 60 + second - 1800,
            -360 <= r.0 < 360,
            -1800 <= r.1 < 1800,
    {
        let h = (hour % 12) as i32;
        let hands_hour = h * 60 + (minute as i32) - 360;
        let hands_minute = (minute as i32) * 60 + (second as i32) - 1800;
        (hands_hour, hands_minute)
    }

    /// Reads the clock and encodes the hand positions.
    pub fn watch_tick(&self) -> (r: (i32, i32))
        ensures
            -360 <= r.0 < 360,
            -1800 <= r.1 < 1800,
    {
        let (h, m, s) = local_time_hms();
        Self::watch_hands(h, m, s)
    }

    /// Publishes the plugin's parameter schema into the namespace.
    pub fn register_osc_parameters(&self, service: &mut OscQueryServiceBuilder)
        ensures
            final(service).root_node@ == watch_namespace(old(service).root_node@),
            final(service).host_info == old(service).host_info,
    {
        proof {
            reveal_strlit("/avatar/parameters/RMBA_WatchHours");
            reveal_strlit("/avatar/parameters/RMBA_WatchMinutes");
        }
        service.add_endpoint(
            String::from_str("/avatar/parameters/RMBA_WatchHours"),
            String::from_str("d"),
            OscAccess::Write,
            String::from_str("RMBA encoded hours"),
        );
        service.add_endpoint(
            String::from_str("/avatar/parameters/RMBA_WatchMinutes"),
            String::from_str("d"),
            OscAccess::Write,
            String::from_str("RMBA encoded minutes"),
        );
    }
}

/// The identifiers of the plugins this build knows, in catalogue order.
pub fn known_plugin_ids() -> (r: Vec<String>)
    ensures
        r@.len() == 3,
        r@[0]@ == "media_control"@,
        r@[1]@ == "watch"@,
        r@[2]@ == "pishock"@,
{
    let mut r: Vec<String> = Vec::new();
    r.push(String::from_str("media_control"));
    r.push(String::from_str("watch"));
    r.push(String::from_str("pishock"));
    r
}

/// One row of the settings window's plugin list.
pub struct PluginItem {
    pub id: String,
    pub title: String,
    pub description: String,
    pub enabled: bool,
}

/// The rows of the settings window's plugin list, in catalogue order, each
/// marked enabled exactly when the enabled-set holds its identifier.
pub fn create_plugin_items(enabled: &Vec<String>) -> (r: Vec<PluginItem>)
    ensures
        r@.len() == 3,
        r@[0].id@ == "media_control"@,
        r@[0].title@ == "Media Control"@,
        r@[0].description@ == "Control your media player through VRChat."@,
        r@[1].id@ == "watch"@,
        r@[1].title@ == "OSC Watch"@,
        r@[1].description@ == "Drive OSC Watch by Reimajo without an additional program."@,
        r@[2].id@ == "pishock"@,
        r@[2].title@ == "PiShock Controller"@,
        r@[2].description@
            == "Let other people control your PiShock shockers via an in-game interface."@,
        forall|i: int|
            0 <= i < 3 ==> (#[trigger] r@[i].enabled == crate::lifecycle::ids_set(
                enabled@,
            ).contains(r@[i].id@)),
{
    let mut r: Vec<PluginItem> = Vec::new();
    r.push(
        PluginItem {
            id: String::from_str("media_control"),
            title: String::from_str(MediaControl.title()),
            description: String::from_str(MediaControl.description()),
            enabled: id_listed(enabled, "media_control"),
        },
    );
    r.push(
        PluginItem {
            id: String::from_str("watch"),
            title: String::from_str(Watch.title()),
            description: String::from_str(Watch.description()),
            enabled: id_listed(enabled, "watch"),
        },
    );
    r.push(
        PluginItem {
            id: String::from_str("pishock"),
            title: String::from_str(PiShock.title()),
            description: String::from_str(PiShock.description()),
            enabled: id_listed(enabled, "pishock"),
        },
    );
    r
}

/// Does the list hold the identifier?
fn id_listed(v: &Vec<String>, id: &str) -> (r: bool)
    ensures
        r == crate::lifecycle::ids_set(v@).contains(id@),
{
    let n = v.len();
    let mut i: usize = 0;
    while i < n
        invariant
            0 <= i <= n,
            n == v@.len(),
            forall|j: int| 0 <= j < i ==> crate::lifecycle::id_seq(v@)[j] != id@,
        decreases n - i,
    {
        if str_eq(v[i].as_str(), id) {
            proof {
                assert(crate::lifecycle::id_seq(v@)[i as int] == id@);
                assert(crate::lifecycle::id_seq(v@).contains(id@));
            }
            return true;
        }
        i = i + 1;
    }
    proof {
        assert forall|j: int|
            0 <= j < crate::lifecycle::id_seq(v@).len() implies crate::lifecycle::id_seq(
            v@,
        )[j] != id@ by {}
        assert(!crate::lifecycle::id_seq(v@).contains(id@));
    }
    false
}

/// The whole discovery namespace the runtime publishes at startup: the
/// avatar-change endpoint, then every plugin's schema in catalogue order.
pub open spec fn default_namespace() -> NodeModel {
    pishock_namespace(
        watch_namespace(
            media_control_namespace(
                added(root_model(), "/avatar/change"@, "s"@, OscAccess::Read, Seq::empty()),
            ),
        ),
    )
}

/// Builds the discovery service exactly as the runtime does at startup.
pub fn build_default_service(host_info: OscHostInfo) -> (r: OscQueryService)
    ensures
        r.host_info == host_info,
        r.root_node@ == default_namespace(),
{
    proof {
        reveal_strlit("/avatar/change");
    }
    let mut builder = OscQueryServiceBuilder::new(host_info);
    builder.add_endpoint(
        String::from_str("/avatar/change"),
        String::from_str("s"),
        OscAccess::Read,
        String::new(),
    );
    MediaControl.register_osc_parameters(&mut builder);
    Watch.register_osc_parameters(&mut builder);
    PiShock.register_osc_parameters(&mut builder);
    builder.build()
}

} // verus!
