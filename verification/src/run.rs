//! Runs of cargo: which one is under way and how long it takes.

use vstd::prelude::*;

use crate::strings::same_text;

verus! {

/// The runs of cargo.
pub struct RunState {
    pub running: bool,
    /// The number of the last run; what belongs to an earlier one is ignored.
    pub current_job_id: u64,
    /// Whether the run can still be asked to stop.
    pub stoppable: bool,
    /// The command of the run under way.
    pub running_cmd: String,
    /// The milliseconds since the start of the run.
    pub display_elapsed_ms: u64,
    /// How many milliseconds each command took when it last ran.
    pub last_durations: Vec<(String, u64)>,
}

/// What a [`RunState`] holds.
#[verifier::ext_equal]
pub struct RunModel {
    pub running: bool,
    pub job: nat,
    pub stoppable: bool,
    pub command: Seq<char>,
    pub elapsed: nat,
    pub durations: Map<Seq<char>, nat>,
}

/// The last entry for each command.
pub open spec fn duration_map(s: Seq<(String, u64)>) -> Map<Seq<char>, nat>
    decreases s.len(),
{
    if s.len() == 0 {
        Map::empty()
    } else {
        duration_map(s.drop_last()).insert(s.last().0@, s.last().1 as nat)
    }
}

/// No command has two entries.
pub open spec fn commands_differ(s: Seq<(String, u64)>) -> bool {
    forall|i: int, j: int|
        0 <= i < j < s.len() ==> (#[trigger] s[i]).0@ != (#[trigger] s[j]).0@
}

impl View for RunState {
    type V = RunModel;

    open spec fn view(&self) -> RunModel {
        RunModel {
            running: self.running,
            job: self.current_job_id as nat,
            stoppable: self.stoppable,
            command: self.running_cmd@,
            elapsed: self.display_elapsed_ms as nat,
            durations: duration_map(self.last_durations@),
        }
    }
}

/// No run so far.
pub open spec fn no_run() -> RunModel {
    RunModel {
        running: false,
        job: 0,
        stoppable: false,
        command: Seq::empty(),
        elapsed: 0,
        durations: Map::empty(),
    }
}

impl RunModel {
    /// A run of `command` was started.
    pub open spec fn started(self, command: Seq<char>) -> RunModel {
        RunModel {
            running: true,
            job: self.job + 1,
            stoppable: true,
            command,
            elapsed: 0,
            ..self
        }
    }

    /// The run ended after `elapsed` milliseconds.
    pub open spec fn ended(self, elapsed: nat) -> RunModel {
        if self.running {
            RunModel {
                running: false,
                stoppable: false,
                elapsed,
                durations: self.durations.insert(self.command, elapsed),
                ..self
            }
        } else {
            RunModel { stoppable: false, ..self }
        }
    }

    /// `elapsed` milliseconds passed since the start of the run.
    pub open spec fn ticked(self, elapsed: nat) -> RunModel {
        if self.running {
            RunModel { elapsed, ..self }
        } else {
            self
        }
    }
}

proof fn lemma_duration_map_lookup(s: Seq<(String, u64)>, i: int)
    requires
        commands_differ(s),
        0 <= i < s.len(),
    ensures
        duration_map(s).dom().contains(s[i].0@),
        duration_map(s)[s[i].0@] == s[i].1,
    decreases s.len(),
{
    if i < s.len() - 1 {
        assert(s.drop_last()[i] == s[i]);
        assert(commands_differ(s.drop_last()));
        lemma_duration_map_lookup(s.drop_last(), i);
        assert(s[i].0@ != s[s.len() - 1].0@);
    }
}

proof fn lemma_duration_map_missing(s: Seq<(String, u64)>, command: Seq<char>)
    requires
        forall|i: int| 0 <= i < s.len() ==> (#[trigger] s[i]).0@ != command,
    ensures
        !duration_map(s).dom().contains(command),
    decreases s.len(),
{
    if s.len() > 0 {
        assert(s[s.len() - 1].0@ != command);
        lemma_duration_map_missing(s.drop_last(), command);
    }
}

proof fn lemma_duration_map_update(s: Seq<(String, u64)>, i: int, ms: u64)
    requires
        commands_differ(s),
        0 <= i < s.len(),
    ensures
        duration_map(s.update(i, (s[i].0, ms))) == duration_map(s).insert(s[i].0@, ms as nat),
    decreases s.len(),
{
    let t = s.update(i, (s[i].0, ms));
    let n = s.len() - 1;
    if i < n {
        assert(commands_differ(s.drop_last()));
        lemma_duration_map_update(s.drop_last(), i, ms);
        assert(t.drop_last() =~= s.drop_last().update(i, (s[i].0, ms)));
        assert(s[i].0@ != s[n].0@);
        assert(duration_map(t) =~= duration_map(s).insert(s[i].0@, ms as nat));
    } else {
        assert(t.drop_last() =~= s.drop_last());
        assert(duration_map(t) =~= duration_map(s).insert(s[i].0@, ms as nat));
    }
}

impl RunState {
    /// No command has two durations.
    pub open spec fn wf(&self) -> bool {
        commands_differ(self.last_durations@)
    }

    /// No run so far.
    pub fn new() -> (r: Self)
        ensures
            r@ == no_run(),
            r.wf(),
    {
        RunState {
            running: false,
            current_job_id: 0,
            stoppable: false,
            running_cmd: String::new(),
            display_elapsed_ms: 0,
            last_durations: Vec::new(),
        }
    }

    /// Notes that a run was started.
    pub fn start(&mut self, command: String)
        requires
            old(self).wf(),
            old(self).current_job_id < u64::MAX,
        ensures
            final(self)@ == old(self)@.started(command@),
            final(self).wf(),
    {
        self.current_job_id += 1;
        self.running = true;
        self.running_cmd = command;
        self.display_elapsed_ms = 0;
        self.stoppable = true;
    }

    /// Notes how long a command took.
    fn record(&mut self, ms: u64)
        requires
            old(self).wf(),
        ensures
            final(self)@ == (RunModel {
                durations: old(self)@.durations.insert(old(self)@.command, ms as nat),
                ..old(self)@
            }),
            final(self).wf(),
    {
        let ghost start = *self;
        let mut i: usize = 0;
        while i < self.last_durations.len()
            invariant
                start == *old(self),
                *self == start,
                self.wf(),
                i <= self.last_durations@.len(),
                forall|j: int|
                    0 <= j < i ==> (#[trigger] self.last_durations@[j]).0@ != self.running_cmd@,
            decreases self.last_durations@.len() - i,
        {
            if same_text(self.last_durations[i].0.as_str(), self.running_cmd.as_str()) {
                proof {
                    lemma_duration_map_update(self.last_durations@, i as int, ms);
                }
                self.last_durations[i].1 = ms;
                assert(self.last_durations@ =~= start.last_durations@.update(
                    i as int,
                    (start.last_durations@[i as int].0, ms),
                ));
                assert(commands_differ(self.last_durations@)) by {
                    assert forall|a: int, b: int| 0 <= a < b < self.last_durations@.len() implies (
                    #[trigger] self.last_durations@[a]).0@ != (
                    #[trigger] self.last_durations@[b]).0@ by {
                        assert(start.last_durations@[a].0@ != start.last_durations@[b].0@);
                    }
                }
                assert(self@ =~= (RunModel {
                    durations: start@.durations.insert(start@.command, ms as nat),
                    ..start@
                }));
                return;
            }
            i += 1;
        }
        self.last_durations.push((self.running_cmd.clone(), ms));
        assert(self.last_durations@.drop_last() =~= start.last_durations@);
    }

    /// Notes that the run ended.
    pub fn end(&mut self, elapsed_ms: u64)
        requires
            old(self).wf(),
        ensures
            final(self)@ == old(self)@.ended(elapsed_ms as nat),
            final(self).wf(),
    {
        if self.running {
            self.running = false;
            self.display_elapsed_ms = elapsed_ms;
            self.record(elapsed_ms);
        }
        self.stoppable = false;
    }

    /// Notes how long the run has taken so far.
    pub fn tick(&mut self, elapsed_ms: u64)
        requires
            old(self).wf(),
        ensures
            final(self)@ == old(self)@.ticked(elapsed_ms as nat),
            final(self).wf(),
    {
        if self.running {
            self.display_elapsed_ms = elapsed_ms;
        }
    }

    /// How many milliseconds a command took when it last ran.
    pub fn last_duration(&self, command: &str) -> (r: Option<u64>)
        requires
            self.wf(),
        ensures
            match r {
                Some(ms) => self@.durations.dom().contains(command@)
                    && self@.durations[command@] == ms,
                None => !self@.durations.dom().contains(command@),
            },
    {
        let mut i: usize = 0;
        while i < self.last_durations.len()
            invariant
                self.wf(),
                i <= self.last_durations@.len(),
                forall|j: int|
                    0 <= j < i ==> (#[trigger] self.last_durations@[j]).0@ != command@,
            decreases self.last_durations@.len() - i,
        {
            if same_text(self.last_durations[i].0.as_str(), command) {
                proof {
                    lemma_duration_map_lookup(self.last_durations@, i as int);
                }
                return Some(self.last_durations[i].1);
            }
            i += 1;
        }
        proof {
            lemma_duration_map_missing(self.last_durations@, command@);
        }
        None
    }
}

} // verus!
