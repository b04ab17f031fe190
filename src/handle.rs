use vstd::prelude::*;
use crate::output::{lossy_text, OutputModel, PendingOutput, Stream};
use crate::status::{copy_status, ExitStatus, RunError, RunnableTerminated};

verus! {

/// Where a process handle stands: still waiting, resolved by its process, or
/// cancelled.
pub enum Completion {
    Pending,
    Finished(Result<ExitStatus, RunError>),
    Terminated,
}

/// What can happen to a pending handle: its process resolves, or someone
/// cancels it.
pub enum Event {
    Exited(Result<ExitStatus, RunError>),
    Cancel,
}

/// What an awaiter of a handle observes, over the models of its parts.
pub type Observed = Option<Result<(Result<ExitStatus, RunError>, Option<OutputModel>), RunnableTerminated>>;

impl Completion {
    pub open spec fn is_terminal(self) -> bool {
        !(self is Pending)
    }

    /// Only the first event counts: a pending handle takes the process's
    /// resolution or the cancellation, and a resolved one never changes.
    pub open spec fn next(self, e: Event) -> Completion {
        match self {
            Completion::Pending => match e {
                Event::Exited(r) => Completion::Finished(r),
                Event::Cancel => Completion::Terminated,
            },
            _ => self,
        }
    }
}

/// The state after the events of `events`, one after another, from `c`.
pub open spec fn run(c: Completion, events: Seq<Event>) -> Completion
    decreases events.len(),
{
    if events.len() == 0 {
        c
    } else {
        run(c, events.drop_last()).next(events.last())
    }
}

pub open spec fn output_view(o: Option<PendingOutput>) -> Option<OutputModel> {
    match o {
        Some(p) => Some(p@),
        None => None,
    }
}

/// The outcome that an awaiter sees in state `c` of a handle whose capture
/// is `out`.
pub open spec fn observed(c: Completion, out: Option<OutputModel>) -> Observed {
    match c {
        Completion::Pending => None,
        Completion::Finished(r) => Some(Ok((r, out))),
        Completion::Terminated => Some(Err(RunnableTerminated)),
    }
}

/// The terminal value of a process that resolved: how it resolved, and its
/// captured output if capture was asked for.
pub struct ExecutionResult {
    pub status: Result<ExitStatus, RunError>,
    pub output: Option<PendingOutput>,
}

pub open spec fn outcome_view(r: Option<Result<ExecutionResult, RunnableTerminated>>) -> Observed {
    match r {
        None => None,
        Some(Ok(e)) => Some(Ok((e.status, output_view(e.output)))),
        Some(Err(t)) => Some(Err(t)),
    }
}

/// A process that is underway, with its captured output if any. It resolves
/// once, to its process's resolution or to the cancellation, whichever comes
/// first, and keeps that outcome.
pub struct Handle {
    state: Completion,
    output: Option<PendingOutput>,
}

impl Handle {
    /// A capture, if there is one, is well formed.
    pub open spec fn wf(&self) -> bool {
        self.capture().is_some() ==> self.capture().unwrap().wf()
    }
    pub closed spec fn completion(&self) -> Completion {
        self.state
    }

    /// The capture of the process's output, if one was asked for.
    pub closed spec fn capture(&self) -> Option<PendingOutput> {
        self.output
    }

    /// What an awaiter of this handle sees now.
    pub open spec fn outcome(&self) -> Observed {
        observed(self.completion(), output_view(self.capture()))
    }

    /// A pending handle for a process just started, with its capture if one
    /// was asked for.
    pub fn new(output: Option<PendingOutput>) -> (r: Handle)
        ensures
            r.completion() is Pending,
            r.capture() == output,
            (output.is_some() ==> output.unwrap().wf()) ==> r.wf(),
    {
        Handle { state: Completion::Pending, output }
    }

    /// Delivers the process's resolution; it counts only if the handle is
    /// still pending.
    pub fn finish(&mut self, r: Result<ExitStatus, RunError>)
        ensures
            final(self).completion() == old(self).completion().next(Event::Exited(r)),
            final(self).capture() == old(self).capture(),
    {
        if let Completion::Pending = self.state {
            self.state = Completion::Finished(r);
        }
    }

    /// Cancels the handle: a pending handle resolves to the cancellation
    /// outcome; a resolved one keeps its outcome.
    pub fn cancel(&mut self)
        ensures
            final(self).completion() == old(self).completion().next(Event::Cancel),
            final(self).capture() == old(self).capture(),
    {
        if let Completion::Pending = self.state {
            self.state = Completion::Terminated;
        }
    }

    /// Delivers one event.
    pub fn step(&mut self, e: Event)
        ensures
            final(self).completion() == old(self).completion().next(e),
            final(self).capture() == old(self).capture(),
    {
        match e {
            Event::Exited(r) => self.finish(r),
            Event::Cancel => self.cancel(),
        }
    }

    /// Records one line read from stream `st` into the capture, if there is
    /// one.
    pub fn record_line(&mut self, st: Stream, bytes: &[u8])
        requires
            old(self).wf(),
        ensures
            final(self).wf(),
            final(self).completion() == old(self).completion(),
            output_view(final(self).capture()) == match output_view(old(self).capture()) {
                Some(m) => Some(m.with_line(st, lossy_text(bytes@))),
                None => None,
            },
    {
        if let Some(o) = &mut self.output {
            o.record_line(st, bytes);
        }
    }

    /// Marks stream `st` of the capture, if there is one, as read to its end.
    pub fn close_stream(&mut self, st: Stream)
        requires
            old(self).wf(),
        ensures
            final(self).wf(),
            final(self).completion() == old(self).completion(),
            output_view(final(self).capture()) == match output_view(old(self).capture()) {
                Some(m) => Some(m.with_closed(st)),
                None => None,
            },
    {
        if let Some(o) = &mut self.output {
            o.close(st);
        }
    }

    /// Receives the lines of the capture that no subscriber has received yet;
    /// `None` when no capture was asked for.
    pub fn subscribe(&mut self) -> (r: Option<Vec<String>>)
        requires
            old(self).wf(),
        ensures
            final(self).wf(),
            final(self).completion() == old(self).completion(),
            r.is_some() == old(self).capture().is_some(),
            r.is_some() ==> r.unwrap()@.map_values(|l: String| l@)
                == old(self).capture().unwrap()@.unreceived(),
            output_view(final(self).capture()) == match output_view(old(self).capture()) {
                Some(m) => Some(OutputModel { received: m.lines.len(), ..m }),
                None => None,
            },
    {
        match &mut self.output {
            Some(o) => Some(o.subscribe()),
            None => None,
        }
    }

    /// The full captured text once both streams are read to their end;
    /// `None` while they are not, or when no capture was asked for.
    pub fn full_output(&self) -> (r: Option<String>)
        ensures
            r.is_some() == (self.capture().is_some() && self.capture().unwrap()@.is_finished()),
            r.is_some() ==> r.unwrap()@ == self.capture().unwrap()@.text,
    {
        match &self.output {
            Some(o) => o.full_output(),
            None => None,
        }
    }

    /// Whether the handle has resolved, to a process outcome or to the
    /// cancellation.
    pub fn is_resolved(&self) -> (r: bool)
        ensures
            r == self.completion().is_terminal(),
    {
        match self.state {
            Completion::Pending => false,
            _ => true,
        }
    }

    /// Looks at the outcome without consuming it: `None` while pending, else
    /// the process's resolution with the capture, or the cancellation.
    pub fn result(&self) -> (r: Option<Result<ExecutionResult, RunnableTerminated>>)
        ensures
            outcome_view(r) == self.outcome(),
    {
        match &self.state {
            Completion::Pending => None,
            Completion::Finished(status) => {
                let output = match &self.output {
                    Some(o) => Some(o.clone()),
                    None => None,
                };
                Some(Ok(ExecutionResult { status: copy_status(status), output }))
            },
            Completion::Terminated => Some(Err(RunnableTerminated)),
        }
    }
}

/// A process that exits with status `s`, with no capture asked for, is
/// observed as a success with that status and no output.
pub proof fn lemma_exit_without_capture(s: ExitStatus)
    ensures
        observed(Completion::Pending.next(Event::Exited(Ok(s))), None) == Some(
            Ok::<_, RunnableTerminated>((Ok::<ExitStatus, RunError>(s), None::<OutputModel>)),
        ),
{
}

/// Once a handle has resolved, no later event changes it, so every later
/// look sees the same outcome.
pub proof fn lemma_outcome_is_stable(c: Completion, events: Seq<Event>, out: Option<OutputModel>)
    requires
        c.is_terminal(),
    ensures
        run(c, events) == c,
        observed(run(c, events), out) == observed(c, out),
    decreases events.len(),
{
    if events.len() > 0 {
        lemma_outcome_is_stable(c, events.drop_last(), out);
    }
}

/// The first event decides a pending handle: its process's resolution is taken
/// at most once, and every awaiter, at whatever point of `events` it looks
/// once the handle has resolved, sees that same outcome.
pub proof fn lemma_first_event_decides(events: Seq<Event>, i: int, out: Option<OutputModel>)
    requires
        0 < i <= events.len(),
    ensures
        run(Completion::Pending, events.take(i)) == Completion::Pending.next(events[0]),
        run(Completion::Pending, events) == Completion::Pending.next(events[0]),
        observed(run(Completion::Pending, events.take(i)), out) == observed(
            run(Completion::Pending, events),
            out,
        ),
    decreases events.len(),
{
    if events.len() == 1 {
        assert(events.take(i) =~= events);
        assert(events.drop_last() =~= Seq::<Event>::empty());
    } else if i == events.len() {
        assert(events.take(i) =~= events);
        lemma_first_event_decides(events.drop_last(), 1, out);
    } else {
        lemma_first_event_decides(events.drop_last(), i, out);
        assert(events.drop_last().take(i) =~= events.take(i));
    }
}

/// A cancellation delivered before the process resolves makes every await,
/// whenever it comes, see the cancellation outcome and never the process's
/// status.
pub proof fn lemma_cancel_before_completion(events: Seq<Event>, out: Option<OutputModel>)
    ensures
        run(Completion::Pending, seq![Event::Cancel] + events) is Terminated,
        observed(run(Completion::Pending, seq![Event::Cancel] + events), out) == Some(
            Err::<(Result<ExitStatus, RunError>, Option<OutputModel>), _>(RunnableTerminated),
        ),
{
    let all = seq![Event::Cancel] + events;
    assert(all[0] == Event::Cancel);
    lemma_first_event_decides(all, 1, out);
}

/// Before a handle resolves a look sees nothing.
pub proof fn lemma_pending_sees_nothing(out: Option<OutputModel>)
    ensures
        observed(Completion::Pending, out) is None,
{
}

} // verus!
