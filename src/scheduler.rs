use vstd::prelude::*;
use vstd::string::StringSliceAdditionalSpecFns;

use crate::text::{copy_range, string_from_bytes, text_of_bytes, trim_by, trim_spaces};

verus! {

/// The seconds between two retention passes.
pub const PRUNE_PERIOD_SECS: u64 = 86400;

/// Consecutive failed cycles after which a loop stops: the first failure ends it.
pub const FAILURE_LIMIT: u64 = 1;

/// The collector's settings.
#[derive(Debug, Clone)]
pub struct Settings {
    pub interval_secs: u64,
    pub listen_addr: String,
    pub db_file_name: String,
    pub db_save: bool,
    pub db_history_days: u64,
    pub exclude_interfaces: String,
}

/// The comma-separated fields of `s` from the field begun at `start`, scanning from `i`;
/// text without a comma is one field.
pub open spec fn fields_from(s: Seq<u8>, start: int, i: int) -> Seq<Seq<u8>>
    decreases s.len() - i,
{
    if i >= s.len() {
        seq![s.subrange(start, s.len() as int)]
    } else if s[i] == 44 {
        seq![s.subrange(start, i)] + fields_from(s, i + 1, i + 1)
    } else {
        fields_from(s, start, i + 1)
    }
}

/// The interface names of a comma-separated list, each trimmed of whitespace.
pub open spec fn exclude_names(s: Seq<u8>) -> Seq<Seq<char>> {
    fields_from(s, 0, 0).map_values(|f: Seq<u8>| text_of_bytes(trim_spaces(f)))
}

/// Splits a comma-separated list of interface names, trimming each.
pub fn parse_exclude_list(list: &str) -> (r: Vec<String>)
    ensures
        r@.map_values(|x: String| x@) == exclude_names(list.spec_bytes()),
{
    let s = list.as_bytes();
    let mut r: Vec<String> = Vec::new();
    let mut start: usize = 0;
    let mut i: usize = 0;
    while i < s.len()
        invariant
            start <= i <= s@.len(),
            s@ == list.spec_bytes(),
            r@.map_values(|x: String| x@) + fields_from(s@, start as int, i as int).map_values(
                |f: Seq<u8>| text_of_bytes(trim_spaces(f)),
            ) == exclude_names(s@),
        decreases s@.len() - i,
    {
        if s[i] == 44 {
            let field = copy_range(s, start, i);
            let name = string_from_bytes(trim_by(field.as_slice(), false).as_slice());
            let ghost rest = fields_from(s@, i + 1, i + 1).map_values(
                |f: Seq<u8>| text_of_bytes(trim_spaces(f)),
            );
            assert(fields_from(s@, start as int, i as int).map_values(
                |f: Seq<u8>| text_of_bytes(trim_spaces(f)),
            ) =~= seq![name@] + rest);
            assert(r@.push(name).map_values(|x: String| x@) =~= r@.map_values(|x: String| x@).push(
                name@,
            ));
            r.push(name);
            start = i + 1;
        }
        i = i + 1;
    }
    let field = copy_range(s, start, s.len());
    let name = string_from_bytes(trim_by(field.as_slice(), false).as_slice());
    assert(fields_from(s@, start as int, i as int).map_values(
        |f: Seq<u8>| text_of_bytes(trim_spaces(f)),
    ) =~= seq![name@]);
    assert(r@.push(name).map_values(|x: String| x@) =~= r@.map_values(|x: String| x@).push(
        name@,
    ));
    r.push(name);
    r
}

/// Where a periodic loop stands.
#[derive(Debug, Clone, Copy, PartialEq, Eq, Structural)]
pub enum Phase {
    /// Waiting for the next tick.
    Idle,
    /// One cycle is under way.
    Working,
    /// The loop has ended for good.
    Stopped,
}

/// What happened to a periodic loop.
#[derive(Debug, Clone, Copy, PartialEq, Eq, Structural)]
pub enum TaskEvent {
    Tick,
    Succeeded,
    Failed,
}

/// What the loop's driver does next.
#[derive(Debug, Clone, Copy, PartialEq, Eq, Structural)]
pub enum TaskAction {
    /// Wait for the next tick.
    Wait,
    /// Run one cycle and report how it went.
    Run,
    /// End the loop.
    Halt,
}

/// A periodic loop: on each tick it runs one cycle; a run of `max_failures`
/// consecutive failed cycles stops it.
#[derive(Debug, Clone, Copy, PartialEq, Eq, Structural)]
pub struct PeriodicTask {
    pub phase: Phase,
    pub failures: u64,
    pub max_failures: u64,
}

impl PeriodicTask {
    pub open spec fn wf(self) -> bool {
        1 <= self.max_failures && self.failures < self.max_failures
    }

    pub open spec fn initial(enabled: bool, max_failures: u64) -> PeriodicTask {
        PeriodicTask {
            phase: if enabled {
                Phase::Idle
            } else {
                Phase::Stopped
            },
            failures: 0,
            max_failures,
        }
    }

    /// The state after `e`, and what to do next.
    pub open spec fn next(self, e: TaskEvent) -> (PeriodicTask, TaskAction) {
        match (self.phase, e) {
            (Phase::Stopped, _) => (self, TaskAction::Halt),
            (Phase::Idle, TaskEvent::Tick) => (
                PeriodicTask { phase: Phase::Working, ..self },
                TaskAction::Run,
            ),
            (Phase::Working, TaskEvent::Succeeded) => (
                PeriodicTask { phase: Phase::Idle, failures: 0, ..self },
                TaskAction::Wait,
            ),
            (Phase::Working, TaskEvent::Failed) => if self.failures + 1 >= self.max_failures {
                (PeriodicTask { phase: Phase::Stopped, failures: 0, ..self }, TaskAction::Halt)
            } else {
                (
                    PeriodicTask { phase: Phase::Idle, failures: (self.failures + 1) as u64, ..self },
                    TaskAction::Wait,
                )
            },
            _ => (self, TaskAction::Wait),
        }
    }

    /// A loop that is idle when `enabled`, and stopped from the start otherwise.
    pub fn new(enabled: bool, max_failures: u64) -> (r: PeriodicTask)
        requires
            1 <= max_failures,
        ensures
            r == PeriodicTask::initial(enabled, max_failures),
            r.wf(),
    {
        PeriodicTask {
            phase: if enabled {
                Phase::Idle
            } else {
                Phase::Stopped
            },
            failures: 0,
            max_failures,
        }
    }

    /// Takes one event and returns what to do next.
    pub fn step(&mut self, e: TaskEvent) -> (r: TaskAction)
        requires
            old(self).wf(),
        ensures
            (*final(self), r) == old(self).next(e),
            final(self).wf(),
    {
        match (self.phase, e) {
            (Phase::Stopped, _) => TaskAction::Halt,
            (Phase::Idle, TaskEvent::Tick) => {
                self.phase = Phase::Working;
                TaskAction::Run
            },
            (Phase::Working, TaskEvent::Succeeded) => {
                self.phase = Phase::Idle;
                self.failures = 0;
                TaskAction::Wait
            },
            (Phase::Working, TaskEvent::Failed) => {
                if self.failures + 1 >= self.max_failures {
                    self.phase = Phase::Stopped;
                    self.failures = 0;
                    TaskAction::Halt
                } else {
                    self.phase = Phase::Idle;
                    self.failures = self.failures + 1;
                    TaskAction::Wait
                }
            },
            _ => TaskAction::Wait,
        }
    }
}

/// The actions a loop takes over a run of events.
pub open spec fn actions(task: PeriodicTask, events: Seq<TaskEvent>) -> Seq<TaskAction>
    decreases events.len(),
{
    if events.len() == 0 {
        seq![]
    } else {
        let (t, a) = task.next(events[0]);
        seq![a] + actions(t, events.subrange(1, events.len() as int))
    }
}

/// What starts with the process: the identity record is written once, the collector
/// runs only when persistence is enabled, and the pruner always runs.
#[derive(Debug, Clone, Copy)]
pub struct Startup {
    pub write_identity: bool,
    pub collector: PeriodicTask,
    pub pruner: PeriodicTask,
}

pub open spec fn startup_of(db_save: bool) -> Startup {
    Startup {
        write_identity: true,
        collector: PeriodicTask::initial(db_save, FAILURE_LIMIT),
        pruner: PeriodicTask::initial(true, FAILURE_LIMIT),
    }
}

/// Plans what starts with the process under `settings`.
pub fn plan_startup(settings: &Settings) -> (r: Startup)
    ensures
        r == startup_of(settings.db_save),
        r.collector.wf(),
        r.pruner.wf(),
{
    Startup {
        write_identity: true,
        collector: PeriodicTask::new(settings.db_save, FAILURE_LIMIT),
        pruner: PeriodicTask::new(true, FAILURE_LIMIT),
    }
}

proof fn lemma_stopped_only_halts(task: PeriodicTask, events: Seq<TaskEvent>)
    requires
        task.phase == Phase::Stopped,
    ensures
        forall|i: int| 0 <= i < events.len() ==> #[trigger] actions(task, events)[i] == TaskAction::Halt,
        actions(task, events).len() == events.len(),
    decreases events.len(),
{
    if events.len() > 0 {
        let rest = events.subrange(1, events.len() as int);
        lemma_stopped_only_halts(task, rest);
        assert forall|i: int| 0 <= i < events.len() implies #[trigger] actions(task, events)[i]
            == TaskAction::Halt by {
            if i > 0 {
                assert(actions(task, events)[i] == actions(task, rest)[i - 1]);
            }
        }
    }
}

/// With persistence disabled the collector never runs a cycle, whatever happens, so no
/// sample is ever written; the identity record is still written at startup.
pub proof fn lemma_disabled_collector_never_runs(events: Seq<TaskEvent>)
    ensures
        startup_of(false).write_identity,
        forall|i: int|
            0 <= i < events.len() ==> #[trigger] actions(startup_of(false).collector, events)[i]
                != TaskAction::Run,
{
    lemma_stopped_only_halts(startup_of(false).collector, events);
}

} // verus!
