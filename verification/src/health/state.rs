//! The observable state: what muninn is doing, and what it knows about itself.

use vstd::prelude::*;
use vstd::string::*;
use crate::clock;
use crate::duration::ConfigDuration;
use crate::text;

verus! {

/// Where muninn is in its life. The order matches the startup sequence.
#[derive(Debug, Clone, Copy, PartialEq, Eq, PartialOrd, Ord, Structural)]
pub enum State {
    Starting,
    LoadingConfiguration,
    ValidatingConfiguration,
    CheckingRuntime,
    GeneratingTelegrafConfiguration,
    ValidatingTelegrafConfiguration,
    StartingTelegraf,
    Ready,
    Degraded,
    Stopping,
    Failed,
    Stopped,
}

/// Every state, in order.
pub open spec fn all_states() -> Seq<State> {
    seq![
        State::Starting,
        State::LoadingConfiguration,
        State::ValidatingConfiguration,
        State::CheckingRuntime,
        State::GeneratingTelegrafConfiguration,
        State::ValidatingTelegrafConfiguration,
        State::StartingTelegraf,
        State::Ready,
        State::Degraded,
        State::Stopping,
        State::Failed,
        State::Stopped,
    ]
}

impl State {
    /// Whether the readiness endpoint succeeds in this state.
    pub open spec fn ready(self) -> bool {
        self == State::Ready || self == State::Degraded
    }

    /// Whether the liveness endpoint succeeds in this state.
    pub open spec fn live(self) -> bool {
        self != State::Failed && self != State::Stopped
    }

    /// The position of this state in the startup sequence.
    pub open spec fn code(self) -> u8 {
        match self {
            State::Starting => 0,
            State::LoadingConfiguration => 1,
            State::ValidatingConfiguration => 2,
            State::CheckingRuntime => 3,
            State::GeneratingTelegrafConfiguration => 4,
            State::ValidatingTelegrafConfiguration => 5,
            State::StartingTelegraf => 6,
            State::Ready => 7,
            State::Degraded => 8,
            State::Stopping => 9,
            State::Failed => 10,
            State::Stopped => 11,
        }
    }

    /// The stable name of this state.
    pub open spec fn name(self) -> Seq<char> {
        match self {
            State::Starting => "starting"@,
            State::LoadingConfiguration => "loading_configuration"@,
            State::ValidatingConfiguration => "validating_configuration"@,
            State::CheckingRuntime => "checking_runtime"@,
            State::GeneratingTelegrafConfiguration => "generating_telegraf_configuration"@,
            State::ValidatingTelegrafConfiguration => "validating_telegraf_configuration"@,
            State::StartingTelegraf => "starting_telegraf"@,
            State::Ready => "ready"@,
            State::Degraded => "degraded"@,
            State::Stopping => "stopping"@,
            State::Failed => "failed"@,
            State::Stopped => "stopped"@,
        }
    }

    /// Whether `/health/ready` should succeed.
    ///
    /// `Degraded` counts: it is only reachable while Telegraf is collecting, and
    /// a failing non-critical module must not take a working agent out of
    /// service.
    pub fn is_ready(&self) -> (r: bool)
        ensures
            r == self.ready(),
    {
        match self {
            State::Ready | State::Degraded => true,
            _ => false,
        }
    }

    /// Whether muninn's own loop is responsive. Everything before `Ready` is live
    /// too: a restart would only put it back at the beginning.
    pub fn is_live(&self) -> (r: bool)
        ensures
            r == self.live(),
    {
        match self {
            State::Failed | State::Stopped => false,
            _ => true,
        }
    }

    /// The stable name used in logs, `/status` and metrics.
    pub fn as_str(&self) -> (r: &'static str)
        ensures
            r@ == self.name(),
    {
        match self {
            State::Starting => "starting",
            State::LoadingConfiguration => "loading_configuration",
            State::ValidatingConfiguration => "validating_configuration",
            State::CheckingRuntime => "checking_runtime",
            State::GeneratingTelegrafConfiguration => "generating_telegraf_configuration",
            State::ValidatingTelegrafConfiguration => "validating_telegraf_configuration",
            State::StartingTelegraf => "starting_telegraf",
            State::Ready => "ready",
            State::Degraded => "degraded",
            State::Stopping => "stopping",
            State::Failed => "failed",
            State::Stopped => "stopped",
        }
    }

    /// Every state, in order.
    pub fn all() -> (r: Vec<State>)
        ensures
            r@ == all_states(),
    {
        let mut out: Vec<State> = Vec::new();
        out.push(State::Starting);
        out.push(State::LoadingConfiguration);
        out.push(State::ValidatingConfiguration);
        out.push(State::CheckingRuntime);
        out.push(State::GeneratingTelegrafConfiguration);
        out.push(State::ValidatingTelegrafConfiguration);
        out.push(State::StartingTelegraf);
        out.push(State::Ready);
        out.push(State::Degraded);
        out.push(State::Stopping);
        out.push(State::Failed);
        out.push(State::Stopped);
        out
    }

    /// The number that stands for this state.
    pub fn as_u8(&self) -> (r: u8)
        ensures
            r == self.code(),
    {
        match self {
            State::Starting => 0,
            State::LoadingConfiguration => 1,
            State::ValidatingConfiguration => 2,
            State::CheckingRuntime => 3,
            State::GeneratingTelegrafConfiguration => 4,
            State::ValidatingTelegrafConfiguration => 5,
            State::StartingTelegraf => 6,
            State::Ready => 7,
            State::Degraded => 8,
            State::Stopping => 9,
            State::Failed => 10,
            State::Stopped => 11,
        }
    }

    /// The state a number stands for. A number that stands for none reads as
    /// `Stopped`.
    pub fn from_u8(v: u8) -> (r: State)
        ensures
            r == (if v < 12 {
                all_states()[v as int]
            } else {
                State::Stopped
            }),
    {
        match v {
            0 => State::Starting,
            1 => State::LoadingConfiguration,
            2 => State::ValidatingConfiguration,
            3 => State::CheckingRuntime,
            4 => State::GeneratingTelegrafConfiguration,
            5 => State::ValidatingTelegrafConfiguration,
            6 => State::StartingTelegraf,
            7 => State::Ready,
            8 => State::Degraded,
            9 => State::Stopping,
            10 => State::Failed,
            11 => State::Stopped,
            _ => State::Stopped,
        }
    }
}

/// An agent that is ready is live; one that is starting is live but not ready.
pub proof fn law_readiness_implies_liveness(s: State)
    ensures
        s.ready() ==> s.live(),
        State::Starting.live() && !State::Starting.ready(),
{
}

/// A state survives being stored as its number, and all states have different
/// numbers.
pub proof fn law_states_survive_their_number(s: State)
    ensures
        s.code() < 12,
        all_states()[s.code() as int] == s,
        all_states().len() == 12,
{
}

/// No two states share a name.
pub proof fn law_states_have_distinct_names(a: State, b: State)
    requires
        a.name() == b.name(),
    ensures
        a == b,
{
    reveal_strlit("starting");
    reveal_strlit("loading_configuration");
    reveal_strlit("validating_configuration");
    reveal_strlit("checking_runtime");
    reveal_strlit("generating_telegraf_configuration");
    reveal_strlit("validating_telegraf_configuration");
    reveal_strlit("starting_telegraf");
    reveal_strlit("ready");
    reveal_strlit("degraded");
    reveal_strlit("stopping");
    reveal_strlit("failed");
    reveal_strlit("stopped");
    let (x, y) = (a.name(), b.name());
    assert(x.len() == y.len());
    assert(x[0] == y[0]);
    assert(x[2] == y[2]);
}

/// The result of one module's last self-check.
#[derive(Debug, Clone, Copy, PartialEq, Eq, Structural)]
pub struct ModuleCheck {
    pub success: bool,
    /// Seconds since the Unix epoch.
    pub at: u64,
}

/// The last self-check of each module, in the order of their names.
#[derive(Debug, Clone)]
pub struct ModuleChecks {
    pub list: Vec<(String, ModuleCheck)>,
}

/// The contents of a list of checks.
pub open spec fn checks(list: Seq<(String, ModuleCheck)>) -> Seq<(Seq<char>, ModuleCheck)> {
    list.map_values(|c: (String, ModuleCheck)| (c.0@, c.1))
}

impl View for ModuleChecks {
    type V = Seq<(Seq<char>, ModuleCheck)>;

    open spec fn view(&self) -> Seq<(Seq<char>, ModuleCheck)> {
        checks(self.list@)
    }
}

/// Names strictly in dictionary order: each once.
pub open spec fn sorted(list: Seq<(Seq<char>, ModuleCheck)>) -> bool {
    forall|i: int, j: int|
        0 <= i < j < list.len() ==> text::sorts_before((#[trigger] list[i]).0, (#[trigger] list[j]).0)
}

/// Where a name stands in a sorted list, or belongs: the first position whose
/// name does not come before it, from `i` on.
pub open spec fn place_of(list: Seq<(Seq<char>, ModuleCheck)>, name: Seq<char>, i: int) -> int
    decreases list.len() - i,
{
    if i < 0 || i >= list.len() || !text::sorts_before(list[i].0, name) {
        i
    } else {
        place_of(list, name, i + 1)
    }
}

/// The list with a check recorded under a name: in place of an earlier one, else
/// at the place the name belongs.
pub open spec fn recorded(
    list: Seq<(Seq<char>, ModuleCheck)>,
    name: Seq<char>,
    check: ModuleCheck,
) -> Seq<(Seq<char>, ModuleCheck)> {
    let k = place_of(list, name, 0);
    if k < list.len() && list[k].0 == name {
        list.update(k, (name, check))
    } else {
        list.insert(k, (name, check))
    }
}

impl ModuleChecks {
    /// The names are in order, each once.
    pub open spec fn wf(self) -> bool {
        sorted(self@)
    }

    pub fn new() -> (r: Self)
        ensures
            r@ == Seq::<(Seq<char>, ModuleCheck)>::empty(),
            r.wf(),
    {
        let r = ModuleChecks { list: Vec::new() };
        proof {
            assert(r@ =~= Seq::<(Seq<char>, ModuleCheck)>::empty());
        }
        r
    }

    /// Records a check, replacing the module's earlier one.
    pub fn insert(&mut self, name: &str, check: ModuleCheck)
        ensures
            final(self)@ == recorded(old(self)@, name@, check),
            old(self).wf() ==> final(self).wf(),
    {
        let ghost before = self@;
        proof {
            if sorted(before) {
                law_recording_keeps_the_order(before, name@, check);
            }
        }
        let mut k: usize = 0;
        while k < self.list.len() && text::is_before(&self.list[k].0, name)
            invariant
                k <= self.list.len(),
                before == self@,
                *self == *old(self),
                place_of(before, name@, 0) == place_of(before, name@, k as int),
            decreases self.list.len() - k,
        {
            proof {
                assert(before[k as int].0 == self.list@[k as int].0@);
            }
            k += 1;
        }
        proof {
            if k < self.list.len() {
                assert(before[k as int].0 == self.list@[k as int].0@);
            }
            assert(place_of(before, name@, 0) == k);
        }
        let ghost item = (name@, check);
        if k < self.list.len() && text::same(&self.list[k].0, name) {
            self.list.set(k, (name.to_owned(), check));
            proof {
                assert(self@ =~= before.update(k as int, item));
            }
        } else {
            self.list.insert(k, (name.to_owned(), check));
            proof {
                assert(self@ =~= before.insert(k as int, item));
            }
        }
    }

    pub fn is_empty(&self) -> (r: bool)
        ensures
            r == (self@.len() == 0),
    {
        self.list.len() == 0
    }

    /// The names of the modules, in order.
    pub fn keys(&self) -> (r: Vec<String>)
        ensures
            text::texts(r@) == self@.map_values(|c: (Seq<char>, ModuleCheck)| c.0),
    {
        let ghost all = self@.map_values(|c: (Seq<char>, ModuleCheck)| c.0);
        let mut out: Vec<String> = Vec::new();
        let mut i: usize = 0;
        while i < self.list.len()
            invariant
                i <= self.list.len(),
                all == self@.map_values(|c: (Seq<char>, ModuleCheck)| c.0),
                text::texts(out@) =~= all.subrange(0, i as int),
            decreases self.list.len() - i,
        {
            proof {
                assert(self@[i as int].0 == self.list@[i as int].0@);
                assert(all[i as int] == self.list@[i as int].0@);
            }
            text::note(&mut out, self.list[i].0.clone());
            i += 1;
        }
        proof {
            assert(all.subrange(0, i as int) =~= all);
        }
        out
    }

    /// The last check of a module, if there was one.
    pub fn get(&self, name: &str) -> (r: Option<ModuleCheck>)
        ensures
            match r {
                Some(c) => self@.contains((name@, c)),
                None => forall|i: int| 0 <= i < self@.len() ==> (#[trigger] self@[i]).0 != name@,
            },
    {
        let mut i: usize = 0;
        while i < self.list.len()
            invariant
                i <= self.list.len(),
                forall|j: int| 0 <= j < i ==> (#[trigger] self@[j]).0 != name@,
            decreases self.list.len() - i,
        {
            proof {
                assert(self@[i as int] == (self.list@[i as int].0@, self.list@[i as int].1));
            }
            if text::same(&self.list[i].0, name) {
                return Some(self.list[i].1);
            }
            i += 1;
        }
        None
    }
}

proof fn lemma_place_of(list: Seq<(Seq<char>, ModuleCheck)>, name: Seq<char>, i: int)
    requires
        0 <= i <= list.len(),
    ensures
        i <= place_of(list, name, i) <= list.len(),
        place_of(list, name, i) < list.len() ==> !text::sorts_before(
            list[place_of(list, name, i)].0,
            name,
        ),
        forall|j: int|
            i <= j < place_of(list, name, i) ==> text::sorts_before((#[trigger] list[j]).0, name),
    decreases list.len() - i,
{
    if i < list.len() && text::sorts_before(list[i].0, name) {
        lemma_place_of(list, name, i + 1);
    }
}

/// Recording a check keeps the names in order and each once, so that two scrapes
/// of an unchanged state list the same series in the same order.
pub proof fn law_recording_keeps_the_order(
    list: Seq<(Seq<char>, ModuleCheck)>,
    name: Seq<char>,
    check: ModuleCheck,
)
    requires
        sorted(list),
    ensures
        sorted(recorded(list, name, check)),
        recorded(list, name, check).contains((name, check)),
        forall|i: int|
            0 <= i < list.len() && (#[trigger] list[i]).0 != name ==> recorded(
                list,
                name,
                check,
            ).contains(list[i]),
{
    lemma_place_of(list, name, 0);
    let k = place_of(list, name, 0);
    let r = recorded(list, name, check);
    if k < list.len() && list[k].0 == name {
        assert(r[k] == (name, check));
        assert forall|i: int| 0 <= i < list.len() && (#[trigger] list[i]).0 != name implies r.contains(
            list[i],
        ) by {
            assert(r[i] == list[i]);
        }
    } else {
        assert(r[k] == (name, check));
        assert forall|i: int| 0 <= i < list.len() && (#[trigger] list[i]).0 != name implies r.contains(
            list[i],
        ) by {
            if i < k {
                assert(r[i] == list[i]);
            } else {
                assert(r[i + 1] == list[i]);
            }
        }
        assert forall|i: int, j: int| 0 <= i < j < r.len() implies text::sorts_before(
            (#[trigger] r[i]).0,
            (#[trigger] r[j]).0,
        ) by {
            if j < k {
                assert(r[i] == list[i] && r[j] == list[j]);
            } else if j == k {
                assert(r[i] == list[i]);
            } else {
                assert(r[j] == list[j - 1]);
                if i < k {
                    assert(r[i] == list[i]);
                } else if i > k {
                    assert(r[i] == list[i - 1]);
                } else {
                    // The name belongs right before list[k].
                    text::lemma_sorts_before(list[k].0, name);
                    assert(text::sorts_before(name, list[k].0));
                    if j - 1 > k {
                        text::lemma_sorts_before_transitive(name, list[k].0, list[j - 1].0);
                    }
                }
            }
        }
    }
}

/// Everything `/status` and `/metrics` report beyond the state itself.
#[derive(Debug, Clone)]
pub struct Details {
    pub telegraf_version: Option<String>,
    pub telegraf_pid: Option<u32>,
    /// Pre-formatted, e.g. "exit code 137".
    pub last_telegraf_exit: Option<String>,
    pub modules: Vec<String>,
    pub outputs: Vec<String>,
    pub config_generation: Option<ConfigDuration>,
    pub telegraf_validation: Option<ConfigDuration>,
    pub module_checks: ModuleChecks,
}

impl Default for Details {
    fn default() -> (r: Self)
        ensures
            r.blank(),
    {
        Details {
            telegraf_version: None,
            telegraf_pid: None,
            last_telegraf_exit: None,
            modules: Vec::new(),
            outputs: Vec::new(),
            config_generation: None,
            telegraf_validation: None,
            module_checks: ModuleChecks::new(),
        }
    }
}

impl Details {
    /// Nothing is known yet.
    pub open spec fn blank(self) -> bool {
        &&& self.telegraf_version is None
        &&& self.telegraf_pid is None
        &&& self.last_telegraf_exit is None
        &&& self.modules@.len() == 0
        &&& self.outputs@.len() == 0
        &&& self.config_generation is None
        &&& self.telegraf_validation is None
        &&& self.module_checks@.len() == 0
    }
}

/// What muninn reports about itself.
#[derive(Debug)]
pub struct HealthState {
    pub state: State,
    pub telegraf_restarts: u64,
    /// When the process started, by the monotonic clock.
    pub started: std::time::Instant,
    pub details: Details,
}

impl HealthState {
    /// The module checks are in order.
    pub open spec fn wf(self) -> bool {
        self.details.module_checks.wf()
    }

    pub fn new() -> (r: Self)
        ensures
            r.state == State::Starting,
            r.telegraf_restarts == 0,
            clock::present(r.started),
            r.details.blank(),
            r.wf(),
    {
        HealthState {
            state: State::Starting,
            telegraf_restarts: 0,
            started: clock::start(),
            details: Details::default(),
        }
    }

    pub fn get(&self) -> (r: State)
        ensures
            r == self.state,
    {
        self.state
    }

    /// Moves to `state`, returning the previous one.
    pub fn set(&mut self, state: State) -> (r: State)
        ensures
            r == old(self).state,
            *final(self) == (HealthState { state, ..*old(self) }),
    {
        let before = self.state;
        self.state = state;
        before
    }

    pub fn is_ready(&self) -> (r: bool)
        ensures
            r == self.state.ready(),
    {
        self.state.is_ready()
    }

    pub fn is_live(&self) -> (r: bool)
        ensures
            r == self.state.live(),
    {
        self.state.is_live()
    }

    /// How long the process has been running: what the clock reads of the time since
    /// it started. How long that is rests on the clock.
    pub fn uptime(&self) -> (r: ConfigDuration)
        ensures
            clock::reading(self.started, r),
            r.wf(),
    {
        clock::since(&self.started)
    }

    pub fn telegraf_restarts(&self) -> (r: u64)
        ensures
            r == self.telegraf_restarts,
    {
        self.telegraf_restarts
    }

    /// Counts one restart. The counter wraps around.
    pub fn record_telegraf_restart(&mut self)
        ensures
            *final(self) == (HealthState {
                telegraf_restarts: if old(self).telegraf_restarts == u64::MAX {
                    0
                } else {
                    (old(self).telegraf_restarts + 1) as u64
                },
                ..*old(self)
            }),
    {
        self.telegraf_restarts = if self.telegraf_restarts == u64::MAX {
            0
        } else {
            self.telegraf_restarts + 1
        };
    }

    pub fn details(&self) -> (r: &Details)
        ensures
            *r == self.details,
    {
        &self.details
    }

    /// The details, to be changed in place.
    pub fn update(&mut self) -> (r: &mut Details)
        ensures
            *r == old(self).details,
            *final(self) == (HealthState { details: *final(r), ..*old(self) }),
    {
        &mut self.details
    }

    /// Whether this is `before` with one self-check recorded, and nothing else
    /// changed.
    pub open spec fn records(
        self,
        before: HealthState,
        module: Seq<char>,
        check: ModuleCheck,
    ) -> bool {
        &&& self.details.module_checks@ == recorded(before.details.module_checks@, module, check)
        &&& self == (HealthState {
            details: Details { module_checks: self.details.module_checks, ..before.details },
            ..before
        })
    }

    /// Records a module's self-check result at the given time.
    pub fn record_module_check_at(&mut self, module: &str, success: bool, at: u64)
        ensures
            final(self).records(*old(self), module@, ModuleCheck { success, at }),
            old(self).wf() ==> final(self).wf(),
    {
        self.details.module_checks.insert(module, ModuleCheck { success, at });
    }

    /// Records a module's self-check result, stamped with the current time.
    pub fn record_module_check(&mut self, module: &str, success: bool)
        ensures
            exists|at: u64|
                clock::stamp(at) && final(self).records(
                    *old(self),
                    module@,
                    #[trigger] stamped(success, at),
                ),
            old(self).wf() ==> final(self).wf(),
    {
        let at: u64 = clock::unix_now();
        self.record_module_check_at(module, success, at);
        proof {
            assert(stamped(success, at) == ModuleCheck { success, at });
            assert(self.records(*old(self), module@, stamped(success, at)));
        }
    }
}

/// A check result with its time.
pub open spec fn stamped(success: bool, at: u64) -> ModuleCheck {
    ModuleCheck { success, at }
}

impl Default for HealthState {
    fn default() -> (r: Self)
        ensures
            r.state == State::Starting,
            r.telegraf_restarts == 0,
            clock::present(r.started),
            r.details.blank(),
            r.wf(),
    {
        HealthState::new()
    }
}

} // verus!
