use vstd::prelude::*;

use crate::errors::CoreError;
use crate::paths::str_eq;

verus! {

/// How a finished unit ended.
#[derive(Clone, Copy, Debug, PartialEq, Eq, Structural)]
pub enum UnitResult {
    Success,
    Failure,
    Cancelled,
}

/// Completion status of a unit.
#[derive(Clone, Copy, Debug, PartialEq, Eq, Structural)]
pub enum UnitStatus {
    Pending,
    Running,
    Completed(UnitResult),
}

impl UnitStatus {
    /// A unit in a terminal state needs no further supervision.
    pub open spec fn is_terminal(self) -> bool {
        self is Completed
    }
}

/// A named, independently cancellable job owned by its scope.  `ack` models
/// the job's cooperative cancellation behaviour: the number of time units
/// after the cancellation signal at which its next suspension point lets it
/// wind down, or `None` for a job that never observes cancellation.
pub struct Unit {
    pub name: String,
    pub core: bool,
    pub ack: Option<u64>,
    pub status: UnitStatus,
}

/// Ghost image of a [`Unit`].
#[verifier::ext_equal]
pub struct UnitModel {
    pub name: Seq<char>,
    pub core: bool,
    pub ack: Option<u64>,
    pub status: UnitStatus,
}

impl View for Unit {
    type V = UnitModel;

    open spec fn view(&self) -> UnitModel {
        UnitModel { name: self.name@, core: self.core, ack: self.ack, status: self.status }
    }
}

/// A node in the supervision tree: named child units and child scopes,
/// identifiers unique within the scope, and a cancellation flag shared
/// top-down.
pub struct SupervisionScope {
    pub name: String,
    pub units: Vec<Unit>,
    pub scopes: Vec<SupervisionScope>,
    pub cancelled: bool,
}

/// Ghost image of a [`SupervisionScope`].
#[verifier::ext_equal]
pub struct ScopeModel {
    pub name: Seq<char>,
    pub units: Seq<UnitModel>,
    pub scopes: Seq<ScopeModel>,
    pub cancelled: bool,
}

pub open spec fn scope_model(s: SupervisionScope) -> ScopeModel
    decreases s,
{
    ScopeModel {
        name: s.name@,
        units: s.units@.map_values(|u: Unit| u@),
        scopes: scopes_model(s.scopes@),
        cancelled: s.cancelled,
    }
}

pub open spec fn scopes_model(ss: Seq<SupervisionScope>) -> Seq<ScopeModel>
    decreases ss,
{
    if ss.len() == 0 {
        Seq::empty()
    } else {
        seq![scope_model(ss[0])] + scopes_model(ss.subrange(1, ss.len() as int))
    }
}

pub proof fn lemma_scopes_model(ss: Seq<SupervisionScope>)
    ensures
        scopes_model(ss).len() == ss.len(),
        forall|i: int|
            0 <= i < ss.len() ==> #[trigger] scopes_model(ss)[i] == scope_model(ss[i]),
    decreases ss.len(),
{
    if ss.len() > 0 {
        let sub = ss.subrange(1, ss.len() as int);
        lemma_scopes_model(sub);
        assert forall|i: int| 1 <= i < ss.len() implies ss[i] == sub[i - 1] by {}
    }
}

impl View for SupervisionScope {
    type V = ScopeModel;

    open spec fn view(&self) -> ScopeModel {
        scope_model(*self)
    }
}

/// The names already taken inside a scope.
pub open spec fn taken_names(s: ScopeModel) -> Set<Seq<char>> {
    s.units.map_values(|u: UnitModel| u.name).to_set().union(
        s.scopes.map_values(|c: ScopeModel| c.name).to_set(),
    )
}

/// Resolution of one unit at shutdown: an already completed unit is left
/// alone; one that acknowledges cancellation within the timeout winds down
/// at its own pace; a straggler is force-cancelled at the timeout, which
/// raises the `ShutdownTimeout` condition.
pub open spec fn spec_resolve_unit(u: UnitModel, timeout: u64) -> (UnitModel, u64, bool) {
    if u.status.is_terminal() {
        (u, 0, false)
    } else {
        match u.ack {
            Some(a) => if a <= timeout {
                (UnitModel { status: UnitStatus::Completed(UnitResult::Cancelled), ..u }, a, false)
            } else {
                (
                    UnitModel { status: UnitStatus::Completed(UnitResult::Cancelled), ..u },
                    timeout,
                    true,
                )
            },
            None => (
                UnitModel { status: UnitStatus::Completed(UnitResult::Cancelled), ..u },
                timeout,
                true,
            ),
        }
    }
}

/// Resolution of a unit list: every unit reaches a terminal state; the
/// scope completes when the slowest unit does.
pub open spec fn spec_resolve_units(us: Seq<UnitModel>, timeout: u64) -> (
    Seq<UnitModel>,
    u64,
    bool,
)
    decreases us.len(),
{
    if us.len() == 0 {
        (Seq::empty(), 0, false)
    } else {
        let head = spec_resolve_unit(us[0], timeout);
        let rest = spec_resolve_units(us.subrange(1, us.len() as int), timeout);
        (
            seq![head.0] + rest.0,
            if head.1 >= rest.1 {
                head.1
            } else {
                rest.1
            },
            head.2 || rest.2,
        )
    }
}

/// Full shutdown of a scope: the cancellation signal reaches every
/// descendant, every descendant reaches a terminal state, and the scope
/// completes when its slowest descendant does.
pub open spec fn spec_shutdown_scope(s: ScopeModel, timeout: u64) -> (ScopeModel, u64, bool)
    decreases s,
{
    let units = spec_resolve_units(s.units, timeout);
    let scopes = spec_shutdown_list(s.scopes, timeout);
    (
        ScopeModel { units: units.0, scopes: scopes.0, cancelled: true, ..s },
        if units.1 >= scopes.1 {
            units.1
        } else {
            scopes.1
        },
        units.2 || scopes.2,
    )
}

pub open spec fn spec_shutdown_list(ss: Seq<ScopeModel>, timeout: u64) -> (
    Seq<ScopeModel>,
    u64,
    bool,
)
    decreases ss,
{
    if ss.len() == 0 {
        (Seq::empty(), 0, false)
    } else {
        let head = spec_shutdown_scope(ss[0], timeout);
        let rest = spec_shutdown_list(ss.subrange(1, ss.len() as int), timeout);
        (
            seq![head.0] + rest.0,
            if head.1 >= rest.1 {
                head.1
            } else {
                rest.1
            },
            head.2 || rest.2,
        )
    }
}

/// Every unit of the scope, at any depth, is in a terminal state.
pub open spec fn all_terminal(s: ScopeModel) -> bool
    decreases s,
{
    all_units_terminal(s.units) && all_terminal_list(s.scopes)
}

pub open spec fn all_units_terminal(us: Seq<UnitModel>) -> bool {
    forall|i: int| 0 <= i < us.len() ==> (#[trigger] us[i]).status.is_terminal()
}

pub open spec fn all_terminal_list(ss: Seq<ScopeModel>) -> bool
    decreases ss,
{
    if ss.len() == 0 {
        true
    } else {
        all_terminal(ss[0]) && all_terminal_list(ss.subrange(1, ss.len() as int))
    }
}

/// Law: shutdown always completes within the timeout, even if some unit
/// never observes cancellation, and afterwards every descendant is
/// terminal.
pub proof fn lemma_shutdown_within_timeout(s: ScopeModel, timeout: u64)
    ensures
        spec_shutdown_scope(s, timeout).1 <= timeout,
        all_terminal(spec_shutdown_scope(s, timeout).0),
    decreases s,
{
    lemma_resolve_units_bounded(s.units, timeout);
    lemma_shutdown_list_within_timeout(s.scopes, timeout);
}

proof fn lemma_resolve_units_bounded(us: Seq<UnitModel>, timeout: u64)
    ensures
        spec_resolve_units(us, timeout).1 <= timeout,
        all_units_terminal(spec_resolve_units(us, timeout).0),
    decreases us.len(),
{
    if us.len() > 0 {
        lemma_resolve_units_bounded(us.subrange(1, us.len() as int), timeout);
        let r = spec_resolve_units(us, timeout);
        let head = spec_resolve_unit(us[0], timeout);
        let rest = spec_resolve_units(us.subrange(1, us.len() as int), timeout);
        assert forall|i: int| 0 <= i < r.0.len() implies (#[trigger] r.0[i]).status.is_terminal()
            by {
            if i == 0 {
                assert(r.0[0] == head.0);
            } else {
                assert(r.0[i] == rest.0[i - 1]);
            }
        }
    }
}

proof fn lemma_shutdown_list_within_timeout(ss: Seq<ScopeModel>, timeout: u64)
    ensures
        spec_shutdown_list(ss, timeout).1 <= timeout,
        all_terminal_list(spec_shutdown_list(ss, timeout).0),
    decreases ss,
{
    if ss.len() > 0 {
        lemma_shutdown_within_timeout(ss[0], timeout);
        lemma_shutdown_list_within_timeout(ss.subrange(1, ss.len() as int), timeout);
        let r = spec_shutdown_list(ss, timeout);
        let head = spec_shutdown_scope(ss[0], timeout);
        let rest = spec_shutdown_list(ss.subrange(1, ss.len() as int), timeout);
        assert(r.0 == seq![head.0] + rest.0);
        assert(r.0.subrange(1, r.0.len() as int) =~= rest.0);
    }
}

/// Law: shutting a scope down a second time finds every descendant already
/// terminal, completes at once, and changes nothing.
pub proof fn lemma_shutdown_idempotent(s: ScopeModel, timeout: u64)
    ensures
        spec_shutdown_scope(spec_shutdown_scope(s, timeout).0, timeout) == (
            spec_shutdown_scope(s, timeout).0,
            0u64,
            false,
        ),
    decreases s,
{
    let once = spec_shutdown_scope(s, timeout).0;
    lemma_resolve_units_idempotent(s.units, timeout);
    lemma_shutdown_list_idempotent(s.scopes, timeout);
    assert(spec_shutdown_scope(once, timeout).0 =~~= once);
}

proof fn lemma_resolve_units_idempotent(us: Seq<UnitModel>, timeout: u64)
    ensures
        spec_resolve_units(spec_resolve_units(us, timeout).0, timeout) == (
            spec_resolve_units(us, timeout).0,
            0u64,
            false,
        ),
    decreases us.len(),
{
    let once = spec_resolve_units(us, timeout).0;
    if us.len() == 0 {
        assert(spec_resolve_units(once, timeout).0 =~= once);
    } else {
        let sub = us.subrange(1, us.len() as int);
        lemma_resolve_units_idempotent(sub, timeout);
        let head = spec_resolve_unit(us[0], timeout);
        let rest = spec_resolve_units(sub, timeout);
        assert(once == seq![head.0] + rest.0);
        assert(once[0] == head.0);
        assert(once.subrange(1, once.len() as int) =~= rest.0);
        assert(spec_resolve_unit(head.0, timeout) == (head.0, 0u64, false));
        assert(spec_resolve_units(once, timeout).0 =~= once);
    }
}

proof fn lemma_shutdown_list_idempotent(ss: Seq<ScopeModel>, timeout: u64)
    ensures
        spec_shutdown_list(spec_shutdown_list(ss, timeout).0, timeout) == (
            spec_shutdown_list(ss, timeout).0,
            0u64,
            false,
        ),
    decreases ss,
{
    let once = spec_shutdown_list(ss, timeout).0;
    if ss.len() == 0 {
        assert(spec_shutdown_list(once, timeout).0 =~= once);
    } else {
        let sub = ss.subrange(1, ss.len() as int);
        lemma_shutdown_idempotent(ss[0], timeout);
        lemma_shutdown_list_idempotent(sub, timeout);
        let head = spec_shutdown_scope(ss[0], timeout);
        let rest = spec_shutdown_list(sub, timeout);
        assert(once == seq![head.0] + rest.0);
        assert(once[0] == head.0);
        assert(once.subrange(1, once.len() as int) =~= rest.0);
        assert(spec_shutdown_list(once, timeout).0 =~= once);
    }
}

/// Index of the first child scope named `name`, or `-1`.
pub open spec fn scope_index(ss: Seq<ScopeModel>, name: Seq<char>) -> int
    decreases ss.len(),
{
    if ss.len() == 0 {
        -1
    } else if ss[0].name == name {
        0
    } else {
        let r = scope_index(ss.subrange(1, ss.len() as int), name);
        if r < 0 {
            -1
        } else {
            r + 1
        }
    }
}

pub proof fn lemma_scope_index(ss: Seq<ScopeModel>, name: Seq<char>)
    ensures
        -1 <= scope_index(ss, name) < ss.len(),
        scope_index(ss, name) >= 0 ==> ss[scope_index(ss, name)].name == name,
        scope_index(ss, name) < 0 ==> forall|i: int| 0 <= i < ss.len() ==> ss[i].name != name,
        forall|i: int| 0 <= i < scope_index(ss, name) ==> ss[i].name != name,
    decreases ss.len(),
{
    if ss.len() > 0 && ss[0].name != name {
        let sub = ss.subrange(1, ss.len() as int);
        lemma_scope_index(sub, name);
        assert forall|i: int| 1 <= i < ss.len() implies ss[i] == sub[i - 1] by {}
    }
}

pub proof fn lemma_scope_index_of_first(ss: Seq<ScopeModel>, name: Seq<char>, j: int)
    requires
        0 <= j < ss.len(),
        ss[j].name == name,
        forall|i: int| 0 <= i < j ==> ss[i].name != name,
    ensures
        scope_index(ss, name) == j,
    decreases ss.len(),
{
    if j > 0 {
        let sub = ss.subrange(1, ss.len() as int);
        assert forall|i: int| 1 <= i < ss.len() implies ss[i] == sub[i - 1] by {}
        lemma_scope_index_of_first(sub, name, j - 1);
    }
}

/// Index of the first unit named `name`, or `-1`.
pub open spec fn unit_index(us: Seq<UnitModel>, name: Seq<char>) -> int
    decreases us.len(),
{
    if us.len() == 0 {
        -1
    } else if us[0].name == name {
        0
    } else {
        let r = unit_index(us.subrange(1, us.len() as int), name);
        if r < 0 {
            -1
        } else {
            r + 1
        }
    }
}

pub proof fn lemma_unit_index(us: Seq<UnitModel>, name: Seq<char>)
    ensures
        -1 <= unit_index(us, name) < us.len(),
        unit_index(us, name) >= 0 ==> us[unit_index(us, name)].name == name,
        unit_index(us, name) < 0 ==> forall|i: int| 0 <= i < us.len() ==> us[i].name != name,
        forall|i: int| 0 <= i < unit_index(us, name) ==> us[i].name != name,
    decreases us.len(),
{
    if us.len() > 0 && us[0].name != name {
        let sub = us.subrange(1, us.len() as int);
        lemma_unit_index(sub, name);
        assert forall|i: int| 1 <= i < us.len() implies us[i] == sub[i - 1] by {}
    }
}

pub proof fn lemma_unit_index_of_first(us: Seq<UnitModel>, name: Seq<char>, j: int)
    requires
        0 <= j < us.len(),
        us[j].name == name,
        forall|i: int| 0 <= i < j ==> us[i].name != name,
    ensures
        unit_index(us, name) == j,
    decreases us.len(),
{
    if j > 0 {
        let sub = us.subrange(1, us.len() as int);
        assert forall|i: int| 1 <= i < us.len() implies us[i] == sub[i - 1] by {}
        lemma_unit_index_of_first(sub, name, j - 1);
    }
}

/// Does `path` (a chain of scope names) address a scope below `s`?
pub open spec fn subtree_exists(s: ScopeModel, path: Seq<Seq<char>>) -> bool
    decreases path.len(),
{
    if path.len() == 0 {
        true
    } else {
        let j = scope_index(s.scopes, path[0]);
        &&& j >= 0
        &&& subtree_exists(s.scopes[j], path.subrange(1, path.len() as int))
    }
}

/// Partial shutdown: the subtree addressed by `path` is shut down and
/// detached; every sibling, and everything outside the subtree, is left
/// untouched, so a new child may later be started under the same name.
pub open spec fn spec_partial_shutdown(s: ScopeModel, path: Seq<Seq<char>>, timeout: u64) -> (
    ScopeModel,
    u64,
    bool,
)
    decreases path.len(),
{
    let j = scope_index(s.scopes, path[0]);
    if path.len() <= 1 {
        let r = spec_shutdown_scope(s.scopes[j], timeout);
        (ScopeModel { scopes: s.scopes.remove(j), ..s }, r.1, r.2)
    } else {
        let r = spec_partial_shutdown(s.scopes[j], path.subrange(1, path.len() as int), timeout);
        (ScopeModel { scopes: s.scopes.update(j, r.0), ..s }, r.1, r.2)
    }
}

/// The condition a shutdown report is logged under: a straggler that had
/// to be force-cancelled raises `ShutdownTimeout`; the shutdown call still
/// completes successfully from the caller's perspective.
pub fn shutdown_condition(timed_out: bool) -> (r: Option<CoreError>)
    ensures
        r == if timed_out {
            Some(CoreError::ShutdownTimeout)
        } else {
            Option::<CoreError>::None
        },
{
    if timed_out {
        Some(CoreError::ShutdownTimeout)
    } else {
        None
    }
}

/// What the tree does when a unit completes on its own: the failure — or
/// unexpected normal return — of a core unit escalates to a full top-level
/// shutdown; a plugin unit's failure is logged and isolated.
#[derive(Clone, Copy, Debug, PartialEq, Eq, Structural)]
pub enum CompletionAction {
    Isolate,
    EscalateFullShutdown,
}

/// Decides how the tree reacts to a unit reaching a terminal state by
/// itself (not through a shutdown).
pub fn on_unit_completion(core: bool, result: UnitResult) -> (r: CompletionAction)
    ensures
        r == CompletionAction::EscalateFullShutdown <==> (core && !(result is Cancelled)),
{
    if core && !matches!(result, UnitResult::Cancelled) {
        CompletionAction::EscalateFullShutdown
    } else {
        CompletionAction::Isolate
    }
}

impl SupervisionScope {
    /// A fresh scope with no children.
    pub fn new(name: String) -> (r: Self)
        ensures
            r@.name == name@,
            r@.units =~= Seq::<UnitModel>::empty(),
            r@.scopes =~= Seq::<ScopeModel>::empty(),
            !r@.cancelled,
    {
        let r = Self { name, units: Vec::new(), scopes: Vec::new(), cancelled: false };
        proof {
            assert(scopes_model(r.scopes@) =~= Seq::<ScopeModel>::empty());
            assert(r.units@.map_values(|u: Unit| u@) =~= Seq::<UnitModel>::empty());
        }
        r
    }

    /// Is a child name already taken?
    fn name_taken(&self, name: &str) -> (r: bool)
        ensures
            r == taken_names(self@).contains(name@),
    {
        proof {
            lemma_scopes_model(self.scopes@);
        }
        let mut i: usize = 0;
        let n = self.units.len();
        while i < n
            invariant
                0 <= i <= n,
                n == self.units@.len(),
                forall|j: int| 0 <= j < i ==> self@.units[j].name != name@,
            decreases n - i,
        {
            if str_eq(self.units[i].name.as_str(), name) {
                proof {
                    assert(self@.units.map_values(|u: UnitModel| u.name)[i as int] == name@);
                    assert(self@.units.map_values(|u: UnitModel| u.name).contains(name@));
                }
                return true;
            }
            i = i + 1;
        }
        let m = self.scopes.len();
        let mut k: usize = 0;
        while k < m
            invariant
                0 <= k <= m,
                m == self.scopes@.len(),
                forall|j: int| 0 <= j < k ==> self@.scopes[j].name != name@,
            decreases m - k,
        {
            proof {
                lemma_scopes_model(self.scopes@);
            }
            if str_eq(self.scopes[k].name.as_str(), name) {
                proof {
                    assert(self@.scopes.map_values(|c: ScopeModel| c.name)[k as int] == name@);
                    assert(self@.scopes.map_values(|c: ScopeModel| c.name).contains(name@));
                }
                return true;
            }
            k = k + 1;
        }
        proof {
            let unames = self@.units.map_values(|u: UnitModel| u.name);
            let snames = self@.scopes.map_values(|c: ScopeModel| c.name);
            assert forall|j: int| 0 <= j < unames.len() implies unames[j] != name@ by {}
            assert forall|j: int| 0 <= j < snames.len() implies snames[j] != name@ by {}
            assert(!unames.contains(name@));
            assert(!snames.contains(name@));
        }
        false
    }

    /// Registers a job under this scope and begins running it.  Fails with
    /// `DuplicateUnit` — and changes nothing — exactly when the name is
    /// already taken within the scope.
    pub fn start_unit(&mut self, name: String, core: bool, ack: Option<u64>) -> (r: Result<
        (),
        CoreError,
    >)
        ensures
            match r {
                Ok(()) => !taken_names(old(self)@).contains(name@) && final(self)@ == (ScopeModel {
                    units: old(self)@.units.push(
                        UnitModel { name: name@, core, ack, status: UnitStatus::Running },
                    ),
                    ..old(self)@
                }),
                Err(e) => e == CoreError::DuplicateUnit && taken_names(old(self)@).contains(name@)
                    && final(self)@ == old(self)@,
            },
    {
        if self.name_taken(name.as_str()) {
            return Err(CoreError::DuplicateUnit);
        }
        let ghost pre = self.units@;
        self.units.push(Unit { name, core, ack, status: UnitStatus::Running });
        proof {
            assert(self.units@.map_values(|u: Unit| u@) =~= pre.map_values(|u: Unit| u@).push(
                self.units@.last()@,
            ));
            assert(self@ =~~= (ScopeModel {
                units: old(self)@.units.push(self.units@.last()@),
                ..old(self)@
            }));
        }
        Ok(())
    }

    /// Opens a nested child scope.  Fails with `DuplicateUnit` — and
    /// changes nothing — exactly when the name is already taken.
    pub fn start_scope(&mut self, name: String) -> (r: Result<(), CoreError>)
        ensures
            match r {
                Ok(()) => !taken_names(old(self)@).contains(name@) && final(self)@ == (ScopeModel {
                    scopes: old(self)@.scopes.push(
                        ScopeModel {
                            name: name@,
                            units: Seq::empty(),
                            scopes: Seq::empty(),
                            cancelled: false,
                        },
                    ),
                    ..old(self)@
                }),
                Err(e) => e == CoreError::DuplicateUnit && taken_names(old(self)@).contains(name@)
                    && final(self)@ == old(self)@,
            },
    {
        if self.name_taken(name.as_str()) {
            return Err(CoreError::DuplicateUnit);
        }
        let ghost pre = self.scopes@;
        let child = SupervisionScope::new(name);
        self.scopes.push(child);
        proof {
            lemma_scopes_model(pre);
            lemma_scopes_model(self.scopes@);
            assert(scopes_model(self.scopes@) =~= scopes_model(pre).push(
                scope_model(self.scopes@.last()),
            ));
            assert(self@ =~~= (ScopeModel {
                scopes: old(self)@.scopes.push(scope_model(self.scopes@.last())),
                ..old(self)@
            }));
        }
        Ok(())
    }

    /// Resolves one unit at shutdown, as [`spec_resolve_unit`] describes.
    fn resolve_unit(u: Unit, timeout: u64) -> (r: (Unit, u64, bool))
        ensures
            (r.0@, r.1, r.2) == spec_resolve_unit(u@, timeout),
    {
        match u.status {
            UnitStatus::Completed(_) => (u, 0, false),
            _ => {
                let contributes: (u64, bool) = match u.ack {
                    Some(a) => if a <= timeout {
                        (a, false)
                    } else {
                        (timeout, true)
                    },
                    None => (timeout, true),
                };
                let done = Unit {
                    status: UnitStatus::Completed(UnitResult::Cancelled),
                    ..u
                };
                (done, contributes.0, contributes.1)
            },
        }
    }

    /// Shuts this scope down: requests cancellation of every descendant,
    /// waits for the cooperative ones, force-cancels the stragglers at the
    /// timeout, and reports when the scope completed and whether the
    /// `ShutdownTimeout` condition arose.
    pub fn shutdown(self, timeout: u64) -> (r: (Self, u64, bool))
        ensures
            (r.0@, r.1, r.2) == spec_shutdown_scope(self@, timeout),
            r.1 <= timeout,
            all_terminal(r.0@),
        decreases self,
    {
        let ghost m = self@;
        let SupervisionScope { name, units, scopes, cancelled: _ } = self;
        let ghost su = units@.map_values(|u: Unit| u@);
        let ghost ss = scopes_model(scopes@);
        proof {
            assert(m == ScopeModel { name: name@, units: su, scopes: ss, cancelled: m.cancelled });
        }
        let (units2, ut, uflag) = Self::shutdown_units(units, timeout);
        let (scopes2, st, sflag) = Self::shutdown_scopes(scopes, timeout);
        let completion = if ut >= st {
            ut
        } else {
            st
        };
        let r = Self { name, units: units2, scopes: scopes2, cancelled: true };
        proof {
            assert(r@ =~~= spec_shutdown_scope(m, timeout).0);
            lemma_shutdown_within_timeout(m, timeout);
        }
        (r, completion, uflag || sflag)
    }

    /// Resolves every unit of one scope.
    fn shutdown_units(units: Vec<Unit>, timeout: u64) -> (r: (Vec<Unit>, u64, bool))
        ensures
            (r.0@.map_values(|u: Unit| u@), r.1, r.2) == spec_resolve_units(
                units@.map_values(|u: Unit| u@),
                timeout,
            ),
        decreases units@.len(),
    {
        let ghost su = units@.map_values(|u: Unit| u@);
        let mut units = units;
        if units.len() == 0 {
            proof {
                assert(su =~= Seq::<UnitModel>::empty());
                assert(units@.map_values(|u: Unit| u@) =~= Seq::<UnitModel>::empty());
            }
            (units, 0, false)
        } else {
            let first = units.remove(0);
            let (head, ht, hflag) = Self::resolve_unit(first, timeout);
            proof {
                assert(units@.map_values(|u: Unit| u@) =~= su.subrange(1, su.len() as int));
            }
            let (mut rest, rt, rflag) = Self::shutdown_units(units, timeout);
            rest.insert(0, head);
            let completion = if ht >= rt {
                ht
            } else {
                rt
            };
            proof {
                assert(rest@.map_values(|u: Unit| u@) =~= seq![head@] + rest@.subrange(
                    1,
                    rest@.len() as int,
                ).map_values(|u: Unit| u@));
                assert(rest@.subrange(1, rest@.len() as int).map_values(|u: Unit| u@)
                    =~= spec_resolve_units(su.subrange(1, su.len() as int), timeout).0);
                assert(rest@.map_values(|u: Unit| u@) =~= spec_resolve_units(su, timeout).0);
            }
            (rest, completion, hflag || rflag)
        }
    }

    /// Shuts down every child scope of one scope.
    fn shutdown_scopes(scopes: Vec<SupervisionScope>, timeout: u64) -> (r: (
        Vec<SupervisionScope>,
        u64,
        bool,
    ))
        ensures
            (scopes_model(r.0@), r.1, r.2) == spec_shutdown_list(scopes_model(scopes@), timeout),
        decreases scopes@,
    {
        let ghost ss = scopes_model(scopes@);
        let mut scopes = scopes;
        proof {
            lemma_scopes_model(scopes@);
        }
        if scopes.len() == 0 {
            proof {
                assert(scopes_model(scopes@) =~= Seq::<ScopeModel>::empty());
            }
            (scopes, 0, false)
        } else {
            let first = scopes.remove(0);
            let (head, ht, hflag) = first.shutdown(timeout);
            proof {
                lemma_scopes_model(scopes@);
                assert(scopes_model(scopes@) =~= ss.subrange(1, ss.len() as int));
            }
            let (mut rest, rt, rflag) = Self::shutdown_scopes(scopes, timeout);
            let ghost pre_rest = rest@;
            rest.insert(0, head);
            let completion = if ht >= rt {
                ht
            } else {
                rt
            };
            proof {
                lemma_scopes_model(rest@);
                lemma_scopes_model(pre_rest);
                assert(rest@ =~= seq![head] + pre_rest);
                assert(scopes_model(rest@) =~= seq![head@] + scopes_model(pre_rest));
                assert(scopes_model(rest@) =~= spec_shutdown_list(ss, timeout).0);
            }
            (rest, completion, hflag || rflag)
        }
    }

    /// Index of the child scope named `name`, if any.
    fn find_scope(&self, name: &str) -> (r: Option<usize>)
        ensures
            match r {
                Some(j) => j < self.scopes@.len() && scope_index(self@.scopes, name@) == j as int,
                None => scope_index(self@.scopes, name@) == -1,
            },
    {
        proof {
            lemma_scopes_model(self.scopes@);
        }
        let n = self.scopes.len();
        let mut j: usize = 0;
        while j < n
            invariant
                0 <= j <= n,
                n == self.scopes@.len(),
                forall|i: int| 0 <= i < j ==> self@.scopes[i].name != name@,
            decreases n - j,
        {
            proof {
                lemma_scopes_model(self.scopes@);
            }
            if str_eq(self.scopes[j].name.as_str(), name) {
                proof {
                    lemma_scope_index_of_first(self@.scopes, name@, j as int);
                }
                return Some(j);
            }
            j = j + 1;
        }
        proof {
            lemma_scope_index(self@.scopes, name@);
        }
        None
    }

    /// Index of the unit named `name`, if any.
    fn find_unit(&self, name: &str) -> (r: Option<usize>)
        ensures
            match r {
                Some(j) => j < self.units@.len() && unit_index(self@.units, name@) == j as int,
                None => unit_index(self@.units, name@) == -1,
            },
    {
        let n = self.units.len();
        let mut j: usize = 0;
        while j < n
            invariant
                0 <= j <= n,
                n == self.units@.len(),
                forall|i: int| 0 <= i < j ==> self@.units[i].name != name@,
            decreases n - j,
        {
            if str_eq(self.units[j].name.as_str(), name) {
                proof {
                    lemma_unit_index_of_first(self@.units, name@, j as int);
                }
                return Some(j);
            }
            j = j + 1;
        }
        proof {
            lemma_unit_index(self@.units, name@);
        }
        None
    }

    /// Stops and detaches the unit named `name` in this scope: the unit is
    /// cancelled, its terminal state observed, and its name freed; reports
    /// when it completed and whether it had to be force-cancelled.
    pub fn stop_unit(&mut self, name: &str, timeout: u64) -> (r: Option<(u64, bool)>)
        ensures
            match r {
                Some(done) => {
                    let j = unit_index(old(self)@.units, name@);
                    &&& j >= 0
                    &&& final(self)@ == (ScopeModel {
                        units: old(self)@.units.remove(j),
                        ..old(self)@
                    })
                    &&& (done.0, done.1) == (
                        spec_resolve_unit(old(self)@.units[j], timeout).1,
                        spec_resolve_unit(old(self)@.units[j], timeout).2,
                    )
                    &&& done.0 <= timeout
                },
                None => unit_index(old(self)@.units, name@) < 0 && final(self)@ == old(self)@,
            },
    {
        match self.find_unit(name) {
            None => None,
            Some(j) => {
                let ghost pre = self.units@;
                let unit = self.units.remove(j);
                let (_, t, flag) = Self::resolve_unit(unit, timeout);
                proof {
                    assert(self.units@.map_values(|u: Unit| u@) =~= pre.map_values(
                        |u: Unit| u@,
                    ).remove(j as int));
                    assert(self@ =~~= (ScopeModel {
                        units: old(self)@.units.remove(j as int),
                        ..old(self)@
                    }));
                }
                Some((t, flag))
            },
        }
    }

    /// Shuts down exactly the subtree addressed by `path`, detaching it so
    /// that the name becomes free again; siblings and the rest of the tree
    /// keep running.  Reports when the subtree completed and whether the
    /// `ShutdownTimeout` condition arose.
    pub fn partial_shutdown(&mut self, path: &Vec<String>, timeout: u64) -> (r: (u64, bool))
        requires
            path@.len() >= 1,
            subtree_exists(old(self)@, path@.map_values(|s: String| s@)),
        ensures
            ({
                let m = spec_partial_shutdown(
                    old(self)@,
                    path@.map_values(|s: String| s@),
                    timeout,
                );
                &&& final(self)@ == m.0
                &&& (r.0, r.1) == (m.1, m.2)
                &&& r.0 <= timeout
            }),
    {
        proof {
            let segs = path@.map_values(|s: String| s@);
            assert(segs.subrange(0, path@.len() as int) =~= segs);
        }
        self.partial_shutdown_rec(path, 0, timeout)
    }

    fn partial_shutdown_rec(&mut self, path: &Vec<String>, i: usize, timeout: u64) -> (r: (
        u64,
        bool,
    ))
        requires
            i < path@.len(),
            subtree_exists(old(self)@, path@.map_values(|s: String| s@).subrange(
                i as int,
                path@.len() as int,
            )),
        ensures
            ({
                let m = spec_partial_shutdown(
                    old(self)@,
                    path@.map_values(|s: String| s@).subrange(i as int, path@.len() as int),
                    timeout,
                );
                &&& final(self)@ == m.0
                &&& (r.0, r.1) == (m.1, m.2)
                &&& r.0 <= timeout
            }),
        decreases path@.len() - i,
    {
        let ghost sfx = path@.map_values(|s: String| s@).subrange(i as int, path@.len() as int);
        proof {
            assert(sfx[0] == path@[i as int]@);
            lemma_scopes_model(self.scopes@);
            lemma_scope_index(self@.scopes, sfx[0]);
        }
        let j = match self.find_scope(path[i].as_str()) {
            Some(j) => j,
            None => {
                // unreachable: the subtree is known to exist
                proof {
                    assert(false);
                }
                0
            },
        };
        if path.len() - i == 1 {
            let ghost pre = self.scopes@;
            let child = self.scopes.remove(j);
            let (_, t, flag) = child.shutdown(timeout);
            proof {
                lemma_scopes_model(pre);
                lemma_scopes_model(self.scopes@);
                assert(scopes_model(self.scopes@) =~= scopes_model(pre).remove(j as int));
                assert(self@ =~~= (ScopeModel {
                    scopes: old(self)@.scopes.remove(j as int),
                    ..old(self)@
                }));
            }
            (t, flag)
        } else {
            let ghost pre = self.scopes@;
            let mut child = self.scopes.remove(j);
            proof {
                lemma_scopes_model(pre);
                assert(child@ == old(self)@.scopes[j as int]);
                assert(sfx.subrange(1, sfx.len() as int) =~= path@.map_values(
                    |s: String| s@,
                ).subrange(i + 1, path@.len() as int));
            }
            let (t, flag) = child.partial_shutdown_rec(path, i + 1, timeout);
            self.scopes.insert(j, child);
            proof {
                lemma_scopes_model(self.scopes@);
                assert(self.scopes@ =~= pre.update(j as int, self.scopes@[j as int]));
                assert(scopes_model(self.scopes@) =~= scopes_model(pre).update(
                    j as int,
                    child@,
                ));
                assert(self@ =~~= (ScopeModel {
                    scopes: old(self)@.scopes.update(
                        j as int,
                        spec_partial_shutdown(
                            old(self)@.scopes[j as int],
                            sfx.subrange(1, sfx.len() as int),
                            timeout,
                        ).0,
                    ),
                    ..old(self)@
                }));
            }
            (t, flag)
        }
    }
}

} // verus!
