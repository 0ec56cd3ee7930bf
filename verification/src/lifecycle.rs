use vstd::prelude::*;

use crate::errors::CoreError;
use crate::paths::str_eq;

verus! {

/// A command consumed by the plugin lifecycle manager, in arrival order.
pub enum Command {
    StartPlugins,
    StopPlugins,
    EnablePlugin(String),
    DisablePlugin(String),
}

/// Ghost image of a [`Command`].
pub enum CommandView {
    StartPlugins,
    StopPlugins,
    EnablePlugin(Seq<char>),
    DisablePlugin(Seq<char>),
}

impl View for Command {
    type V = CommandView;

    open spec fn view(&self) -> CommandView {
        match self {
            Command::StartPlugins => CommandView::StartPlugins,
            Command::StopPlugins => CommandView::StopPlugins,
            Command::EnablePlugin(id) => CommandView::EnablePlugin(id@),
            Command::DisablePlugin(id) => CommandView::DisablePlugin(id@),
        }
    }
}

/// The identifiers of a list of plugin ids, as character sequences.
pub open spec fn id_seq(v: Seq<String>) -> Seq<Seq<char>> {
    v.map_values(|s: String| s@)
}

/// The identifiers of a list of plugin ids, as a set.
pub open spec fn ids_set(v: Seq<String>) -> Set<Seq<char>> {
    id_seq(v).to_set()
}

/// Ghost state of the manager: which plugins exist, which are enabled,
/// which are running, and whether the bulk-activity flag is on.
#[verifier::ext_equal]
pub struct ManagerView {
    pub known: Set<Seq<char>>,
    pub enabled: Set<Seq<char>>,
    pub running: Set<Seq<char>>,
    pub active: bool,
}

impl ManagerView {
    /// The state invariant: only known, enabled plugins run, and nothing
    /// runs while the bulk-activity flag is off.
    pub open spec fn wf(self) -> bool {
        &&& self.running.subset_of(self.known.intersect(self.enabled))
        &&& !self.active ==> self.running =~= Set::<Seq<char>>::empty()
    }
}

/// Ghost image of the side effects of one command: which units the caller
/// must start or stop under supervision, whether the enabled-set must be
/// persisted (and with which contents), and the error signalled, if any.
#[verifier::ext_equal]
pub struct EffectsView {
    pub to_start: Set<Seq<char>>,
    pub to_stop: Set<Seq<char>>,
    pub persist: Option<Set<Seq<char>>>,
    pub error: Option<CoreError>,
}

/// One step of the lifecycle state machine.
pub open spec fn spec_step(s: ManagerView, cmd: CommandView) -> (ManagerView, EffectsView) {
    match cmd {
        CommandView::StartPlugins => {
            let startable = s.enabled.intersect(s.known);
            (
                ManagerView { running: s.running.union(startable), active: true, ..s },
                EffectsView {
                    to_start: startable.difference(s.running),
                    to_stop: Set::empty(),
                    persist: None,
                    error: None,
                },
            )
        },
        CommandView::StopPlugins => (
            ManagerView { running: Set::empty(), active: false, ..s },
            EffectsView {
                to_start: Set::empty(),
                to_stop: s.running,
                persist: None,
                error: None,
            },
        ),
        CommandView::EnablePlugin(id) => {
            if !s.known.contains(id) {
                (
                    s,
                    EffectsView {
                        to_start: Set::empty(),
                        to_stop: Set::empty(),
                        persist: None,
                        error: Some(CoreError::UnknownPlugin),
                    },
                )
            } else {
                let enabled2 = s.enabled.insert(id);
                let starts: Set<Seq<char>> = if s.active && !s.running.contains(id) {
                    Set::empty().insert(id)
                } else {
                    Set::empty()
                };
                (
                    ManagerView { enabled: enabled2, running: s.running.union(starts), ..s },
                    EffectsView {
                        to_start: starts,
                        to_stop: Set::empty(),
                        persist: Some(enabled2),
                        error: None,
                    },
                )
            }
        },
        CommandView::DisablePlugin(id) => {
            if !s.known.contains(id) {
                (
                    s,
                    EffectsView {
                        to_start: Set::empty(),
                        to_stop: Set::empty(),
                        persist: None,
                        error: Some(CoreError::UnknownPlugin),
                    },
                )
            } else {
                let enabled2 = s.enabled.remove(id);
                let stops: Set<Seq<char>> = if s.running.contains(id) {
                    Set::empty().insert(id)
                } else {
                    Set::empty()
                };
                (
                    ManagerView { enabled: enabled2, running: s.running.difference(stops), ..s },
                    EffectsView {
                        to_start: Set::empty(),
                        to_stop: stops,
                        persist: Some(enabled2),
                        error: None,
                    },
                )
            }
        },
    }
}

/// Running a whole command sequence, front to back.
pub open spec fn spec_run(s: ManagerView, cmds: Seq<CommandView>) -> ManagerView
    decreases cmds.len(),
{
    if cmds.len() == 0 {
        s
    } else {
        spec_run(spec_step(s, cmds[0]).0, cmds.subrange(1, cmds.len() as int))
    }
}

/// An enable or disable of an identifier that `s` does not know.
pub open spec fn is_unknown_toggle(s: ManagerView, cmd: CommandView) -> bool {
    match cmd {
        CommandView::EnablePlugin(id) => !s.known.contains(id),
        CommandView::DisablePlugin(id) => !s.known.contains(id),
        _ => false,
    }
}

/// Law: a sequence of enable/disable commands naming only unknown
/// identifiers leaves the manager state — in particular the enabled-set —
/// unchanged, and every one of them signals `UnknownPlugin`.
pub proof fn lemma_unknown_toggles_have_no_effect(s: ManagerView, cmds: Seq<CommandView>)
    requires
        forall|i: int| 0 <= i < cmds.len() ==> is_unknown_toggle(s, #[trigger] cmds[i]),
    ensures
        spec_run(s, cmds) == s,
        forall|i: int|
            0 <= i < cmds.len() ==> (spec_step(s, #[trigger] cmds[i]).1).error == Some(
                CoreError::UnknownPlugin,
            ),
    decreases cmds.len(),
{
    if cmds.len() > 0 {
        assert(spec_step(s, cmds[0]).0 == s);
        let rest = cmds.subrange(1, cmds.len() as int);
        assert forall|i: int| 0 <= i < rest.len() implies is_unknown_toggle(
            s,
            #[trigger] rest[i],
        ) by {
            assert(rest[i] == cmds[i + 1]);
        }
        lemma_unknown_toggles_have_no_effect(s, rest);
    }
}

/// Law: a second `StartPlugins` right after a first one leaves the
/// running-set exactly as the first left it, and asks for nothing new to
/// be started.
pub proof fn lemma_start_all_idempotent(s: ManagerView)
    ensures
        spec_step(spec_step(s, CommandView::StartPlugins).0, CommandView::StartPlugins).0
            == spec_step(s, CommandView::StartPlugins).0,
        spec_step(spec_step(s, CommandView::StartPlugins).0, CommandView::StartPlugins).1.to_start
            =~= Set::<Seq<char>>::empty(),
{
    let s1 = spec_step(s, CommandView::StartPlugins).0;
    let s2 = spec_step(s1, CommandView::StartPlugins).0;
    let startable = s.enabled.intersect(s.known);
    assert(s2.running =~= s1.running);
    assert(s2 =~~= s1);
    assert(startable.difference(s1.running) =~= Set::<Seq<char>>::empty());
}

/// Law: every command is idempotent.  Issuing the same command twice in a
/// row leaves the state exactly as the first issue left it, and the second
/// issue asks for nothing to be started or stopped.
pub proof fn lemma_commands_idempotent(s: ManagerView, cmd: CommandView)
    ensures
        ({
            let first = spec_step(s, cmd);
            let second = spec_step(first.0, cmd);
            &&& second.0 == first.0
            &&& second.1.to_start =~= Set::<Seq<char>>::empty()
            &&& second.1.to_stop =~= Set::<Seq<char>>::empty()
        }),
{
    let s1 = spec_step(s, cmd).0;
    let s2 = spec_step(s1, cmd).0;
    match cmd {
        CommandView::StartPlugins => {
            assert(s2.running =~= s1.running);
            assert(s2 =~~= s1);
            assert(s1.enabled.intersect(s1.known).difference(s1.running)
                =~= Set::<Seq<char>>::empty());
        },
        CommandView::StopPlugins => {
            assert(s2 =~~= s1);
        },
        CommandView::EnablePlugin(id) => {
            if s.known.contains(id) {
                assert(s1.enabled.insert(id) =~= s1.enabled);
                if s.active && !s.running.contains(id) {
                    assert(s1.running.contains(id));
                }
                assert(s2.running =~= s1.running);
                assert(s2 =~~= s1);
            }
        },
        CommandView::DisablePlugin(id) => {
            if s.known.contains(id) {
                assert(s1.enabled.remove(id) =~= s1.enabled);
                assert(!s1.running.contains(id));
                assert(s2.running =~= s1.running);
                assert(s2 =~~= s1);
            }
        },
    }
}

/// Law: every command preserves the state invariant.
pub proof fn lemma_step_preserves_wf(s: ManagerView, cmd: CommandView)
    requires
        s.wf(),
    ensures
        spec_step(s, cmd).0.wf(),
{
    let s2 = spec_step(s, cmd).0;
    match cmd {
        CommandView::StopPlugins => {
            assert(s2.running =~= Set::<Seq<char>>::empty());
        },
        _ => {},
    }
}

/// The side effects of one command, handed back to the caller: the units
/// to start or stop under supervision, the enabled-set snapshot to persist
/// (if the command changed it), and the error signalled, if any.
pub struct CommandEffects {
    pub to_start: Vec<String>,
    pub to_stop: Vec<String>,
    pub persist: Option<Vec<String>>,
    pub error: Option<CoreError>,
}

impl View for CommandEffects {
    type V = EffectsView;

    open spec fn view(&self) -> EffectsView {
        EffectsView {
            to_start: ids_set(self.to_start@),
            to_stop: ids_set(self.to_stop@),
            persist: match self.persist {
                Some(ref p) => Some(ids_set(p@)),
                None => None,
            },
            error: self.error,
        }
    }
}

/// Appending one identifier inserts exactly it into the identifier set.
proof fn lemma_ids_set_push(v: Seq<String>, x: Seq<char>, v2: Seq<String>)
    requires
        id_seq(v2) == id_seq(v).push(x),
    ensures
        ids_set(v2) =~= ids_set(v).insert(x),
{
    assert forall|y: Seq<char>| ids_set(v2).contains(y) implies ids_set(v).insert(x).contains(
        y,
    ) by {
        let k = choose|k: int| 0 <= k < id_seq(v2).len() && id_seq(v2)[k] == y;
        if k < v.len() {
            assert(id_seq(v)[k] == y);
        }
    }
    assert forall|y: Seq<char>| ids_set(v).insert(x).contains(y) implies ids_set(v2).contains(
        y,
    ) by {
        if y == x {
            assert(id_seq(v2)[v.len() as int] == y);
        } else {
            let k = choose|k: int| 0 <= k < id_seq(v).len() && id_seq(v)[k] == y;
            assert(id_seq(v2)[k] == y);
        }
    }
}

/// Does the list hold the identifier?
fn contains_id(v: &Vec<String>, id: &str) -> (r: bool)
    ensures
        r == ids_set(v@).contains(id@),
{
    let n = v.len();
    let mut i: usize = 0;
    while i < n
        invariant
            0 <= i <= n,
            n == v@.len(),
            forall|j: int| 0 <= j < i ==> id_seq(v@)[j] != id@,
        decreases n - i,
    {
        if str_eq(v[i].as_str(), id) {
            proof {
                assert(id_seq(v@)[i as int] == id@);
                assert(id_seq(v@).contains(id@));
            }
            return true;
        }
        i = i + 1;
    }
    proof {
        assert forall|j: int| 0 <= j < id_seq(v@).len() implies id_seq(v@)[j] != id@ by {}
        assert(!id_seq(v@).contains(id@));
    }
    false
}

/// A fresh copy of an identifier list.
fn clone_ids(v: &Vec<String>) -> (r: Vec<String>)
    ensures
        r@ == v@,
{
    let n = v.len();
    let mut r: Vec<String> = Vec::new();
    let mut i: usize = 0;
    while i < n
        invariant
            0 <= i <= n,
            n == v@.len(),
            r@ =~= v@.subrange(0, i as int),
        decreases n - i,
    {
        r.push(v[i].clone());
        i = i + 1;
    }
    proof {
        assert(r@ =~= v@);
    }
    r
}

/// Removes the identifier from the list, if present.
fn remove_id(v: &mut Vec<String>, id: &str)
    requires
        id_seq(old(v)@).no_duplicates(),
    ensures
        id_seq(final(v)@).no_duplicates(),
        ids_set(final(v)@) =~= ids_set(old(v)@).remove(id@),
    decreases old(v)@.len(),
{
    let n = v.len();
    let mut i: usize = 0;
    while i < n
        invariant
            0 <= i <= n,
            n == v@.len(),
            v@ == old(v)@,
            id_seq(v@).no_duplicates(),
            forall|j: int| 0 <= j < i ==> id_seq(v@)[j] != id@,
        decreases n - i,
    {
        if str_eq(v[i].as_str(), id) {
            let ghost oldv = v@;
            v.remove(i);
            proof {
                assert(id_seq(oldv)[i as int] == id@);
                assert(id_seq(v@) =~= id_seq(oldv).remove(i as int));
                assert forall|x: Seq<char>| ids_set(v@).contains(x) implies ids_set(
                    oldv,
                ).remove(id@).contains(x) by {
                    let k = choose|k: int| 0 <= k < id_seq(v@).len() && id_seq(v@)[k] == x;
                    if k < i {
                        assert(id_seq(oldv)[k] == x);
                        assert(x != id@);
                    } else {
                        assert(id_seq(oldv)[k + 1] == x);
                        assert(id_seq(oldv)[k + 1] != id_seq(oldv)[i as int]);
                        assert(x != id@);
                    }
                    assert(id_seq(oldv).contains(x));
                }
                assert forall|x: Seq<char>| ids_set(oldv).remove(id@).contains(x) implies ids_set(
                    v@,
                ).contains(x) by {
                    let k = choose|k: int| 0 <= k < id_seq(oldv).len() && id_seq(oldv)[k] == x;
                    assert(k != i);
                    if k < i {
                        assert(id_seq(v@)[k] == x);
                    } else {
                        assert(id_seq(v@)[k - 1] == x);
                    }
                    assert(id_seq(v@).contains(x));
                }
                assert(ids_set(v@) =~= ids_set(oldv).remove(id@));
            }
            return;
        }
        i = i + 1;
    }
    proof {
        assert forall|j: int| 0 <= j < id_seq(v@).len() implies id_seq(v@)[j] != id@ by {}
        assert(!id_seq(v@).contains(id@));
        assert(ids_set(v@) =~= ids_set(v@).remove(id@));
    }
}

/// The plugin lifecycle manager: translates the command stream into
/// supervised start/stop requests while keeping the persisted enabled-set
/// consistent.  Each plugin is `Stopped` or `Running`; `plugins_active` is
/// the bulk on/off flag driven by the monitored external process.
pub struct PluginManager {
    pub known: Vec<String>,
    pub enabled: Vec<String>,
    pub running: Vec<String>,
    pub plugins_active: bool,
}

impl View for PluginManager {
    type V = ManagerView;

    open spec fn view(&self) -> ManagerView {
        ManagerView {
            known: ids_set(self.known@),
            enabled: ids_set(self.enabled@),
            running: ids_set(self.running@),
            active: self.plugins_active,
        }
    }
}

impl PluginManager {
    /// The representation invariant: no identifier is listed twice, and the
    /// state invariant of the ghost model holds.
    pub open spec fn inv(self) -> bool {
        &&& id_seq(self.known@).no_duplicates()
        &&& id_seq(self.enabled@).no_duplicates()
        &&& id_seq(self.running@).no_duplicates()
        &&& self@.wf()
    }

    /// A fresh manager over the given plugin catalogue and the enabled-set
    /// read from configuration.  Duplicates are dropped; nothing runs yet.
    pub fn new(known: Vec<String>, enabled: Vec<String>) -> (r: Self)
        ensures
            r.inv(),
            r@.known =~= ids_set(known@),
            r@.enabled =~= ids_set(enabled@),
            r@.running =~= Set::<Seq<char>>::empty(),
            !r@.active,
    {
        let known2 = dedup_ids(&known);
        let enabled2 = dedup_ids(&enabled);
        let r = Self {
            known: known2,
            enabled: enabled2,
            running: Vec::new(),
            plugins_active: false,
        };
        proof {
            assert(id_seq(r.running@) =~= Seq::<Seq<char>>::empty());
            assert(ids_set(r.running@) =~= Set::<Seq<char>>::empty());
        }
        r
    }

    /// Applies one command: mutates the tracked state and reports which
    /// units must be started or stopped, what must be persisted, and the
    /// error signalled, exactly as [`spec_step`] describes.
    pub fn handle_command(&mut self, cmd: Command) -> (eff: CommandEffects)
        requires
            old(self).inv(),
        ensures
            final(self).inv(),
            final(self)@ == spec_step(old(self)@, cmd@).0,
            eff@ == spec_step(old(self)@, cmd@).1,
            id_seq(eff.to_start@).no_duplicates(),
            id_seq(eff.to_stop@).no_duplicates(),
            eff.error is Some <==> is_unknown_toggle(old(self)@, cmd@),
    {
        match cmd {
            Command::StartPlugins => self.start_all(),
            Command::StopPlugins => self.stop_all(),
            Command::EnablePlugin(id) => self.enable(id),
            Command::DisablePlugin(id) => self.disable(id),
        }
    }

    fn start_all(&mut self) -> (eff: CommandEffects)
        requires
            old(self).inv(),
        ensures
            final(self).inv(),
            final(self)@ == spec_step(old(self)@, CommandView::StartPlugins).0,
            eff@ == spec_step(old(self)@, CommandView::StartPlugins).1,
            id_seq(eff.to_start@).no_duplicates(),
            id_seq(eff.to_stop@).no_duplicates(),
            eff.error is None,
    {
        let ghost s = old(self)@;
        let ghost startable = s.enabled.intersect(s.known);
        let mut to_start: Vec<String> = Vec::new();
        let n = self.enabled.len();
        let mut i: usize = 0;
        while i < n
            invariant
                0 <= i <= n,
                n == self.enabled@.len(),
                s == old(self)@,
                self.known == old(self).known,
                self.enabled == old(self).enabled,
                self.plugins_active == old(self).plugins_active,
                id_seq(self.enabled@).no_duplicates(),
                id_seq(self.running@).no_duplicates(),
                id_seq(to_start@).no_duplicates(),
                ids_set(self.running@) =~= s.running.union(
                    ids_set(self.enabled@.subrange(0, i as int)).intersect(s.known),
                ),
                ids_set(to_start@) =~= ids_set(self.enabled@.subrange(0, i as int)).intersect(
                    s.known,
                ).difference(s.running),
                ids_set(to_start@).subset_of(ids_set(self.running@)),
            decreases n - i,
        {
            let ghost pre_running = self.running@;
            let ghost pre_to_start = to_start@;
            let ghost prefix = self.enabled@.subrange(0, i as int);
            let ghost prefix2 = self.enabled@.subrange(0, i + 1);
            proof {
                assert(prefix2 =~= prefix.push(self.enabled@[i as int]));
                assert(id_seq(prefix2) =~= id_seq(prefix).push(self.enabled@[i as int]@));
                lemma_ids_set_push(prefix, self.enabled@[i as int]@, prefix2);
            }
            let known_has = contains_id(&self.known, self.enabled[i].as_str());
            if known_has {
                let running_has = contains_id(&self.running, self.enabled[i].as_str());
                if !running_has {
                    let id = self.enabled[i].clone();
                    self.running.push(id.clone());
                    to_start.push(id);
                    proof {
                        assert(id_seq(self.running@) =~= id_seq(pre_running).push(
                            self.enabled@[i as int]@,
                        ));
                        assert(id_seq(to_start@) =~= id_seq(pre_to_start).push(
                            self.enabled@[i as int]@,
                        ));
                        lemma_ids_set_push(pre_running, self.enabled@[i as int]@, self.running@);
                        lemma_ids_set_push(pre_to_start, self.enabled@[i as int]@, to_start@);
                    }
                }
            }
            proof {
                assert(!ids_set(prefix).contains(self.enabled@[i as int]@)) by {
                    if ids_set(prefix).contains(self.enabled@[i as int]@) {
                        let k = choose|k: int|
                            0 <= k < id_seq(prefix).len() && id_seq(prefix)[k] == self.enabled@[
                                i as int
                            ]@;
                        assert(id_seq(self.enabled@)[k] == id_seq(self.enabled@)[i as int]);
                    }
                }
                assert(ids_set(self.running@) =~= s.running.union(
                    ids_set(prefix2).intersect(s.known),
                ));
                assert(ids_set(to_start@) =~= ids_set(prefix2).intersect(s.known).difference(
                    s.running,
                ));
            }
            i = i + 1;
        }
        self.plugins_active = true;
        proof {
            assert(self.enabled@.subrange(0, n as int) =~= self.enabled@);
            assert(ids_set(self.running@) =~= s.running.union(startable));
            assert(ids_set(to_start@) =~= startable.difference(s.running));
            assert(self@ =~~= spec_step(s, CommandView::StartPlugins).0);
            assert(self@.wf());
        }
        let eff = CommandEffects { to_start, to_stop: Vec::new(), persist: None, error: None };
        proof {
            assert(ids_set(eff.to_stop@) =~= Set::<Seq<char>>::empty());
            assert(eff@ =~~= spec_step(s, CommandView::StartPlugins).1);
        }
        eff
    }

    fn stop_all(&mut self) -> (eff: CommandEffects)
        requires
            old(self).inv(),
        ensures
            final(self).inv(),
            final(self)@ == spec_step(old(self)@, CommandView::StopPlugins).0,
            eff@ == spec_step(old(self)@, CommandView::StopPlugins).1,
            id_seq(eff.to_start@).no_duplicates(),
            id_seq(eff.to_stop@).no_duplicates(),
            eff.error is None,
    {
        let ghost s = old(self)@;
        let to_stop = clone_ids(&self.running);
        self.running = Vec::new();
        self.plugins_active = false;
        proof {
            assert(id_seq(self.running@) =~= Seq::<Seq<char>>::empty());
            assert(ids_set(self.running@) =~= Set::<Seq<char>>::empty());
            assert(self@ =~~= spec_step(s, CommandView::StopPlugins).0);
        }
        let eff = CommandEffects { to_start: Vec::new(), to_stop, persist: None, error: None };
        proof {
            assert(ids_set(eff.to_start@) =~= Set::<Seq<char>>::empty());
            assert(eff@ =~~= spec_step(s, CommandView::StopPlugins).1);
        }
        eff
    }

    fn enable(&mut self, id: String) -> (eff: CommandEffects)
        requires
            old(self).inv(),
        ensures
            final(self).inv(),
            final(self)@ == spec_step(old(self)@, CommandView::EnablePlugin(id@)).0,
            eff@ == spec_step(old(self)@, CommandView::EnablePlugin(id@)).1,
            id_seq(eff.to_start@).no_duplicates(),
            id_seq(eff.to_stop@).no_duplicates(),
            eff.error is Some <==> !old(self)@.known.contains(id@),
    {
        let ghost s = old(self)@;
        if !contains_id(&self.known, id.as_str()) {
            return CommandEffects {
                to_start: Vec::new(),
                to_stop: Vec::new(),
                persist: None,
                error: Some(CoreError::UnknownPlugin),
            };
        }
        if !contains_id(&self.enabled, id.as_str()) {
            let ghost pre = self.enabled@;
            self.enabled.push(id.clone());
            proof {
                assert(id_seq(self.enabled@) =~= id_seq(pre).push(id@));
                lemma_ids_set_push(pre, id@, self.enabled@);
            }
        } else {
            proof {
                assert(ids_set(self.enabled@) =~= s.enabled.insert(id@));
            }
        }
        let persist = Some(clone_ids(&self.enabled));
        let mut to_start: Vec<String> = Vec::new();
        if self.plugins_active && !contains_id(&self.running, id.as_str()) {
            let ghost pre_running = self.running@;
            self.running.push(id.clone());
            to_start.push(id);
            proof {
                assert(id_seq(self.running@) =~= id_seq(pre_running).push(id@));
                lemma_ids_set_push(pre_running, id@, self.running@);
                assert(id_seq(Seq::<String>::empty()) =~= Seq::<Seq<char>>::empty());
                assert(id_seq(to_start@) =~= id_seq(Seq::<String>::empty()).push(id@));
                lemma_ids_set_push(Seq::<String>::empty(), id@, to_start@);
                assert(ids_set(Seq::<String>::empty()) =~= Set::<Seq<char>>::empty());
            }
        }
        let eff = CommandEffects { to_start, to_stop: Vec::new(), persist, error: None };
        proof {
            let step = spec_step(s, CommandView::EnablePlugin(id@));
            assert(ids_set(eff.to_stop@) =~= Set::<Seq<char>>::empty());
            if s.active && !s.running.contains(id@) {
                assert(ids_set(eff.to_start@) =~= Set::<Seq<char>>::empty().insert(id@));
            } else {
                assert(ids_set(eff.to_start@) =~= Set::<Seq<char>>::empty());
                assert(ids_set(self.running@) =~= s.running.union(Set::<Seq<char>>::empty()));
            }
            assert(self@ =~~= step.0);
            assert(eff@ =~~= step.1);
        }
        eff
    }

    fn disable(&mut self, id: String) -> (eff: CommandEffects)
        requires
            old(self).inv(),
        ensures
            final(self).inv(),
            final(self)@ == spec_step(old(self)@, CommandView::DisablePlugin(id@)).0,
            eff@ == spec_step(old(self)@, CommandView::DisablePlugin(id@)).1,
            id_seq(eff.to_start@).no_duplicates(),
            id_seq(eff.to_stop@).no_duplicates(),
            eff.error is Some <==> !old(self)@.known.contains(id@),
    {
        let ghost s = old(self)@;
        if !contains_id(&self.known, id.as_str()) {
            return CommandEffects {
                to_start: Vec::new(),
                to_stop: Vec::new(),
                persist: None,
                error: Some(CoreError::UnknownPlugin),
            };
        }
        remove_id(&mut self.enabled, id.as_str());
        let persist = Some(clone_ids(&self.enabled));
        let mut to_stop: Vec<String> = Vec::new();
        if contains_id(&self.running, id.as_str()) {
            remove_id(&mut self.running, id.as_str());
            to_stop.push(id);
        }
        let eff = CommandEffects { to_start: Vec::new(), to_stop, persist, error: None };
        proof {
            assert(ids_set(eff.to_start@) =~= Set::<Seq<char>>::empty());
            let step = spec_step(s, CommandView::DisablePlugin(id@));
            if s.running.contains(id@) {
                assert(id_seq(Seq::<String>::empty()) =~= Seq::<Seq<char>>::empty());
                assert(id_seq(eff.to_stop@) =~= id_seq(Seq::<String>::empty()).push(id@));
                lemma_ids_set_push(Seq::<String>::empty(), id@, eff.to_stop@);
                assert(ids_set(Seq::<String>::empty()) =~= Set::<Seq<char>>::empty());
                assert(ids_set(eff.to_stop@) =~= Set::<Seq<char>>::empty().insert(id@));
                assert(ids_set(self.running@) =~= s.running.difference(
                    Set::<Seq<char>>::empty().insert(id@),
                ));
            } else {
                assert(ids_set(eff.to_stop@) =~= Set::<Seq<char>>::empty());
                assert(ids_set(self.running@) =~= s.running.difference(
                    Set::<Seq<char>>::empty(),
                ));
            }
            assert(self@ =~~= step.0);
            assert(eff@ =~~= step.1);
        }
        eff
    }
}

/// Duplicate-free copy of an identifier list, first occurrences kept.
fn dedup_ids(v: &Vec<String>) -> (r: Vec<String>)
    ensures
        id_seq(r@).no_duplicates(),
        ids_set(r@) =~= ids_set(v@),
{
    let n = v.len();
    let mut r: Vec<String> = Vec::new();
    let mut i: usize = 0;
    while i < n
        invariant
            0 <= i <= n,
            n == v@.len(),
            id_seq(r@).no_duplicates(),
            ids_set(r@) =~= ids_set(v@.subrange(0, i as int)),
        decreases n - i,
    {
        let ghost prefix = v@.subrange(0, i as int);
        let ghost prefix2 = v@.subrange(0, i + 1);
        proof {
            assert(prefix2 =~= prefix.push(v@[i as int]));
            assert forall|x: Seq<char>| ids_set(prefix2).contains(x) <==> (ids_set(
                prefix,
            ).contains(x) || x == v@[i as int]@) by {
                if ids_set(prefix2).contains(x) {
                    let k = choose|k: int| 0 <= k < id_seq(prefix2).len() && id_seq(prefix2)[k]
                        == x;
                    if k < i {
                        assert(id_seq(prefix)[k] == x);
                    } else {
                        assert(id_seq(prefix2)[i as int] == x);
                    }
                }
                if ids_set(prefix).contains(x) {
                    let k = choose|k: int| 0 <= k < id_seq(prefix).len() && id_seq(prefix)[k] == x;
                    assert(id_seq(prefix2)[k] == x);
                }
                if x == v@[i as int]@ {
                    assert(id_seq(prefix2)[i as int] == x);
                }
            }
        }
        if !contains_id(&r, v[i].as_str()) {
            let ghost pre = r@;
            r.push(v[i].clone());
            proof {
                assert(id_seq(r@) =~= id_seq(pre).push(v@[i as int]@));
                lemma_ids_set_push(pre, v@[i as int]@, r@);
            }
        }
        proof {
            assert(ids_set(r@) =~= ids_set(prefix2));
        }
        i = i + 1;
    }
    proof {
        assert(v@.subrange(0, n as int) =~= v@);
    }
    r
}

} // verus!
