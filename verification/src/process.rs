//! The cargo process: what it is started with, and what is reported of it
//! while it runs.

use vstd::prelude::*;

use crate::message::Msg;
use crate::strings::{is_empty, join2, split_words, texts, words};

verus! {

/// What the report of a process that could not be started begins with.
pub const START_FAILED: &'static str = "Fehler beim Starten von cargo: ";

/// What is reported of a process that was stopped.
pub const STOPPED: &'static str = "⚠ Prozess abgebrochen.";

/// The arguments and the directory that cargo is started with.
pub struct CargoCall {
    pub args: Vec<String>,
    pub directory: String,
}

/// What cargo is started with for a project path and a command line: the words
/// of the command line, in the project's directory or the current one.
pub fn cargo_call(path: &str, args: &str) -> (r: CargoCall)
    ensures
        texts(r.args@) == words(args@),
        r.directory@ == if path@.len() == 0 {
            "."@
        } else {
            path@
        },
{
    CargoCall {
        args: split_words(args),
        directory: if is_empty(path) {
            ".".to_owned()
        } else {
            path.to_owned()
        },
    }
}

/// The two streams that are read from the process.
#[derive(Debug, Clone, Copy, PartialEq, Eq, Structural)]
pub enum Channel {
    Stdout,
    Stderr,
}

/// Something that happened to the process.
#[derive(Debug, Clone)]
pub enum ProcessEvent {
    /// It could not be started, for the given reason.
    StartFailed(String),
    /// The user asked to stop it.
    StopRequested,
    /// A line was read.
    Line(Channel, String),
    /// A stream ended or could not be read on.
    Closed(Channel),
    /// It exited, with success or not.
    Exited(bool),
}

/// What is reported of the process.
#[derive(Debug, Clone)]
pub enum Report {
    Line(String),
    Done(bool),
}

/// What a [`Report`] holds.
#[verifier::ext_equal]
pub enum ReportModel {
    Line(Seq<char>),
    Done(bool),
}

impl View for Report {
    type V = ReportModel;

    open spec fn view(&self) -> ReportModel {
        match self {
            Report::Line(s) => ReportModel::Line(s@),
            Report::Done(success) => ReportModel::Done(*success),
        }
    }
}

/// Whether a message tells what was reported of run `job_id`.
pub open spec fn tells(msg: Msg, report: ReportModel, job_id: u64) -> bool {
    match report {
        ReportModel::Line(text) => msg matches Msg::Append { line, job_id: job } && line@ == text
            && job == job_id,
        ReportModel::Done(ended) => msg matches Msg::Done { success, job_id: job, .. } && success
            == ended && job == job_id,
    }
}

impl Report {
    /// The message that tells it of run `job_id`, which has taken `elapsed_ms`
    /// so far.
    pub fn message(self, job_id: u64, elapsed_ms: u64) -> (r: Msg)
        ensures
            tells(r, self@, job_id),
            r matches Msg::Done { elapsed_ms: elapsed, .. } ==> elapsed == elapsed_ms,
    {
        match self {
            Report::Line(line) => Msg::Append { line, job_id },
            Report::Done(success) => Msg::Done { success, job_id, elapsed_ms },
        }
    }
}

/// How far the process has been followed.
#[derive(Debug, Clone, Copy, PartialEq, Eq, Structural)]
pub struct ProcessWatch {
    pub stdout_done: bool,
    pub stderr_done: bool,
    /// Whether the end has been reported.
    pub finished: bool,
}

impl ProcessWatch {
    /// Whether the process is still read from.
    pub open spec fn reads(self) -> bool {
        !self.finished && !(self.stdout_done && self.stderr_done)
    }

    /// Whether the given stream is still read from.
    pub open spec fn reads_from(self, channel: Channel) -> bool {
        !self.finished && match channel {
            Channel::Stdout => !self.stdout_done,
            Channel::Stderr => !self.stderr_done,
        }
    }

    /// Whether only the exit of the process is waited for.
    pub open spec fn waits(self) -> bool {
        !self.finished && self.stdout_done && self.stderr_done
    }

    /// The state after an event.
    pub open spec fn next(self, event: ProcessEvent) -> ProcessWatch {
        match event {
            ProcessEvent::StartFailed(_) => ProcessWatch {
                finished: self.finished || self.reads(),
                ..self
            },
            ProcessEvent::StopRequested => ProcessWatch {
                finished: self.finished || self.reads(),
                ..self
            },
            ProcessEvent::Line(..) => self,
            ProcessEvent::Closed(channel) => if !self.reads_from(channel) {
                self
            } else {
                match channel {
                    Channel::Stdout => ProcessWatch { stdout_done: true, ..self },
                    Channel::Stderr => ProcessWatch { stderr_done: true, ..self },
                }
            },
            ProcessEvent::Exited(_) => ProcessWatch {
                finished: self.finished || self.waits(),
                ..self
            },
        }
    }

    /// What is reported of an event.
    pub open spec fn reports(self, event: ProcessEvent) -> Seq<ReportModel> {
        match event {
            ProcessEvent::StartFailed(reason) if self.reads() => seq![
                ReportModel::Line(START_FAILED@ + reason@),
                ReportModel::Done(false),
            ],
            ProcessEvent::StopRequested if self.reads() => seq![
                ReportModel::Line(STOPPED@),
                ReportModel::Done(false),
            ],
            ProcessEvent::Line(channel, line) if self.reads_from(channel) => seq![
                ReportModel::Line(line@),
            ],
            ProcessEvent::Exited(success) if self.waits() => seq![ReportModel::Done(success)],
            _ => Seq::empty(),
        }
    }

    /// The state after a series of events.
    pub open spec fn after(self, events: Seq<ProcessEvent>) -> ProcessWatch
        decreases events.len(),
    {
        if events.len() == 0 {
            self
        } else {
            self.after(events.drop_last()).next(events.last())
        }
    }

    /// What is reported of a series of events.
    pub open spec fn all_reports(self, events: Seq<ProcessEvent>) -> Seq<ReportModel>
        decreases events.len(),
    {
        if events.len() == 0 {
            Seq::empty()
        } else {
            self.all_reports(events.drop_last()) + self.after(events.drop_last()).reports(
                events.last(),
            )
        }
    }

    /// The start.
    pub fn new() -> (r: Self)
        ensures
            r == (ProcessWatch { stdout_done: false, stderr_done: false, finished: false }),
    {
        ProcessWatch { stdout_done: false, stderr_done: false, finished: false }
    }

    /// Whether the given stream is still read from.
    pub fn is_reading(&self, channel: Channel) -> (r: bool)
        ensures
            r == self.reads_from(channel),
    {
        !self.finished && match channel {
            Channel::Stdout => !self.stdout_done,
            Channel::Stderr => !self.stderr_done,
        }
    }

    /// Whether only the exit of the process is waited for.
    pub fn is_waiting(&self) -> (r: bool)
        ensures
            r == self.waits(),
    {
        !self.finished && self.stdout_done && self.stderr_done
    }

    /// Follows the process by one event; returns what is to be reported.
    pub fn handle(&mut self, event: ProcessEvent) -> (r: Vec<Report>)
        ensures
            *final(self) == old(self).next(event),
            r@.map_values(|m: Report| m@) == old(self).reports(event),
    {
        let ghost start = *self;
        let mut r: Vec<Report> = Vec::new();
        match &event {
            ProcessEvent::StartFailed(reason) => {
                if !self.finished && !self.is_waiting() {
                    r.push(Report::Line(join2(START_FAILED, reason.as_str())));
                    r.push(Report::Done(false));
                    self.finished = true;
                }
            },
            ProcessEvent::StopRequested => {
                if !self.finished && !self.is_waiting() {
                    r.push(Report::Line(STOPPED.to_owned()));
                    r.push(Report::Done(false));
                    self.finished = true;
                }
            },
            ProcessEvent::Line(channel, line) => {
                if self.is_reading(*channel) {
                    r.push(Report::Line(line.clone()));
                }
            },
            ProcessEvent::Closed(channel) => {
                if self.is_reading(*channel) {
                    match channel {
                        Channel::Stdout => {
                            self.stdout_done = true;
                        },
                        Channel::Stderr => {
                            self.stderr_done = true;
                        },
                    }
                }
            },
            ProcessEvent::Exited(success) => {
                if self.is_waiting() {
                    r.push(Report::Done(*success));
                    self.finished = true;
                }
            },
        }
        assert(r@.map_values(|m: Report| m@) =~= start.reports(event));
        r
    }
}

/// Whatever happens to a process, its end is reported at most once, last of
/// all, and exactly when the process is no longer followed.
pub proof fn law_one_end_reported(events: Seq<ProcessEvent>)
    ensures
        ({
            let start = ProcessWatch { stdout_done: false, stderr_done: false, finished: false };
            let reports = start.all_reports(events);
            &&& forall|i: int|
                0 <= i < reports.len() - 1 ==> (#[trigger] reports[i]) is Line
            &&& start.after(events).finished <==> (reports.len() > 0 && reports.last() is Done)
        }),
    decreases events.len(),
{
    if events.len() > 0 {
        law_one_end_reported(events.drop_last());
    }
}

/// Whatever happens to a process, the messages that tell it carry the number of
/// the run; they are lines, and its end last of all, if it has been reported.
pub proof fn law_messages_of_a_run(events: Seq<ProcessEvent>, msgs: Seq<Msg>, job: u64)
    requires
        ({
            let start = ProcessWatch { stdout_done: false, stderr_done: false, finished: false };
            let reports = start.all_reports(events);
            &&& msgs.len() == reports.len()
            &&& forall|i: int| 0 <= i < msgs.len() ==> tells(#[trigger] msgs[i], reports[i], job)
        }),
    ensures
        forall|i: int|
            0 <= i < msgs.len() ==> match #[trigger] msgs[i] {
                Msg::Append { job_id, .. } => job_id == job,
                Msg::Done { job_id, .. } => job_id == job && i == msgs.len() - 1,
                _ => false,
            },
        ({
            let start = ProcessWatch { stdout_done: false, stderr_done: false, finished: false };
            start.after(events).finished <==> (msgs.len() > 0 && msgs.last() is Done)
        }),
{
    law_one_end_reported(events);
    let start = ProcessWatch { stdout_done: false, stderr_done: false, finished: false };
    let reports = start.all_reports(events);
    assert forall|i: int| 0 <= i < msgs.len() implies match #[trigger] msgs[i] {
        Msg::Append { job_id, .. } => job_id == job,
        Msg::Done { job_id, .. } => job_id == job && i == msgs.len() - 1,
        _ => false,
    } by {
        assert(tells(msgs[i], reports[i], job));
        if i < msgs.len() - 1 {
            assert(reports[i] is Line);
        }
    }
    if msgs.len() > 0 {
        assert(tells(msgs[msgs.len() - 1], reports[msgs.len() - 1], job));
    }
}

/// The end of a process is reported: when it exits once both its streams have
/// ended, and when it is to be stopped before.
pub proof fn law_the_end_is_reported(events: Seq<ProcessEvent>, success: bool)
    ensures
        ({
            let start = ProcessWatch { stdout_done: false, stderr_done: false, finished: false };
            &&& start.after(events).waits() ==> start.after(
                events.push(ProcessEvent::Exited(success)),
            ).finished
            &&& start.after(events).reads() ==> start.after(
                events.push(ProcessEvent::StopRequested),
            ).finished
        }),
{
    assert(events.push(ProcessEvent::Exited(success)).drop_last() =~= events);
    assert(events.push(ProcessEvent::StopRequested).drop_last() =~= events);
}

/// Of a process that cannot be started the reason and the failure are reported,
/// and nothing else.
pub proof fn law_failure_to_start(reason: String)
    ensures
        ({
            let start = ProcessWatch { stdout_done: false, stderr_done: false, finished: false };
            let events = seq![ProcessEvent::StartFailed(reason)];
            &&& start.all_reports(events) == seq![
                ReportModel::Line(START_FAILED@ + reason@),
                ReportModel::Done(false),
            ]
            &&& start.after(events).finished
        }),
{
    let start = ProcessWatch { stdout_done: false, stderr_done: false, finished: false };
    let events = seq![ProcessEvent::StartFailed(reason)];
    assert(events.drop_last() =~= Seq::empty());
    assert(start.after(events.drop_last()) == start);
    assert(start.all_reports(events.drop_last()) =~= Seq::empty());
    assert(start.all_reports(events) =~= start.reports(events.last()));
}

/// As long as its end has not been reported, what is reported of a process is
/// what was read from it, line by line and in order.
pub proof fn law_lines_reported_as_read(events: Seq<ProcessEvent>)
    requires
        ({
            let start = ProcessWatch { stdout_done: false, stderr_done: false, finished: false };
            !start.after(events).finished
        }),
        forall|i: int|
            0 <= i < events.len() ==> (#[trigger] events[i] matches ProcessEvent::Line(c, _) ==> {
                let start = ProcessWatch {
                    stdout_done: false,
                    stderr_done: false,
                    finished: false,
                };
                start.after(events.take(i)).reads_from(c)
            }),
    ensures
        ({
            let start = ProcessWatch { stdout_done: false, stderr_done: false, finished: false };
            start.all_reports(events) == lines_read(events)
        }),
    decreases events.len(),
{
    let start = ProcessWatch { stdout_done: false, stderr_done: false, finished: false };
    if events.len() > 0 {
        let earlier = events.drop_last();
        assert(events.take(events.len() - 1) =~= earlier);
        assert(events[events.len() - 1] == events.last());
        assert forall|i: int| 0 <= i < earlier.len() implies (
        #[trigger] earlier[i] matches ProcessEvent::Line(c, _) ==> start.after(
            earlier.take(i),
        ).reads_from(c)) by {
            assert(earlier.take(i) =~= events.take(i));
            assert(earlier[i] == events[i]);
        }
        law_lines_reported_as_read(earlier);
    }
}

/// The lines among the events, in order.
pub open spec fn lines_read(events: Seq<ProcessEvent>) -> Seq<ReportModel>
    decreases events.len(),
{
    if events.len() == 0 {
        Seq::empty()
    } else {
        lines_read(events.drop_last()) + match events.last() {
            ProcessEvent::Line(_, line) => seq![ReportModel::Line(line@)],
            _ => Seq::empty(),
        }
    }
}

/// An exit that was waited for ends the reports with whether it was a success,
/// whatever was reported before.
pub proof fn law_exit_tells_success(events: Seq<ProcessEvent>, success: bool)
    requires
        ({
            let start = ProcessWatch { stdout_done: false, stderr_done: false, finished: false };
            let now = start.after(events);
            now.stdout_done && now.stderr_done && !now.finished
        }),
    ensures
        ({
            let start = ProcessWatch { stdout_done: false, stderr_done: false, finished: false };
            let all = events.push(ProcessEvent::Exited(success));
            &&& start.all_reports(all) == start.all_reports(events).push(ReportModel::Done(success))
            &&& start.after(all).finished
        }),
{
    let start = ProcessWatch { stdout_done: false, stderr_done: false, finished: false };
    let all = events.push(ProcessEvent::Exited(success));
    assert(all.drop_last() =~= events);
    assert(all.last() == ProcessEvent::Exited(success));
    assert(start.all_reports(all) =~= start.all_reports(events).push(ReportModel::Done(success)));
}

/// While a stream is read, a stop, or a failure to start, ends the reports: a
/// line says what happened, and the end is no success.
pub proof fn law_stop_is_no_success(events: Seq<ProcessEvent>, reason: String)
    requires
        ({
            let start = ProcessWatch { stdout_done: false, stderr_done: false, finished: false };
            let now = start.after(events);
            !(now.stdout_done && now.stderr_done) && !now.finished
        }),
    ensures
        ({
            let start = ProcessWatch { stdout_done: false, stderr_done: false, finished: false };
            let stopped = events.push(ProcessEvent::StopRequested);
            let failed = events.push(ProcessEvent::StartFailed(reason));
            &&& start.all_reports(stopped) == start.all_reports(events).push(
                ReportModel::Line("⚠ Prozess abgebrochen."@),
            ).push(ReportModel::Done(false))
            &&& start.all_reports(failed) == start.all_reports(events).push(
                ReportModel::Line("Fehler beim Starten von cargo: "@ + reason@),
            ).push(ReportModel::Done(false))
            &&& start.after(stopped).finished
            &&& start.after(failed).finished
        }),
{
    let start = ProcessWatch { stdout_done: false, stderr_done: false, finished: false };
    let stopped = events.push(ProcessEvent::StopRequested);
    let failed = events.push(ProcessEvent::StartFailed(reason));
    assert(stopped.drop_last() =~= events);
    assert(failed.drop_last() =~= events);
    assert(start.all_reports(stopped) =~= start.all_reports(events).push(
        ReportModel::Line("⚠ Prozess abgebrochen."@),
    ).push(ReportModel::Done(false)));
    assert(start.all_reports(failed) =~= start.all_reports(events).push(
        ReportModel::Line("Fehler beim Starten von cargo: "@ + reason@),
    ).push(ReportModel::Done(false)));
}

/// A line of a stream that has not ended is reported as it is and changes
/// nothing. The end of a stream is not reported, and ends that stream alone.
pub proof fn law_streams_are_read_apart(w: ProcessWatch, channel: Channel, line: String)
    requires
        !w.finished,
    ensures
        w.next(ProcessEvent::Line(channel, line)) == w,
        w.next(ProcessEvent::Closed(channel)) == match channel {
            Channel::Stdout => ProcessWatch { stdout_done: true, ..w },
            Channel::Stderr => ProcessWatch { stderr_done: true, ..w },
        },
        w.reports(ProcessEvent::Closed(channel)).len() == 0,
        match channel {
            Channel::Stdout => !w.stdout_done,
            Channel::Stderr => !w.stderr_done,
        } ==> w.reports(ProcessEvent::Line(channel, line)) == seq![ReportModel::Line(line@)],
        match channel {
            Channel::Stdout => w.stdout_done,
            Channel::Stderr => w.stderr_done,
        } ==> w.reports(ProcessEvent::Line(channel, line)).len() == 0,
{
}

/// What comes too early or too late is not reported: an exit while a stream is
/// read, a stop once both have ended, and anything once the end was reported.
pub proof fn law_only_what_is_due_is_reported(w: ProcessWatch, event: ProcessEvent)
    requires
        w.finished || match event {
            ProcessEvent::Exited(_) => !(w.stdout_done && w.stderr_done),
            ProcessEvent::StopRequested | ProcessEvent::StartFailed(_) => w.stdout_done
                && w.stderr_done,
            _ => false,
        },
    ensures
        w.reports(event).len() == 0,
        w.next(event) == w,
{
}

} // verus!
