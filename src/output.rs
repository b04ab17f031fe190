use vstd::prelude::*;

verus! {

/// One of the two output streams of a process.
#[derive(Clone, Copy, Debug, PartialEq, Eq, Structural)]
pub enum Stream {
    Stdout,
    Stderr,
}

/// A name for the text that `String::from_utf8_lossy` makes of a byte sequence.
pub uninterp spec fn lossy_text(b: Seq<u8>) -> Seq<char>;

/// Relies on `String::from_utf8_lossy`: it decodes the bytes as UTF-8, putting
/// U+FFFD in place of each invalid sequence, and never fails; the text depends on
/// the bytes alone, and no bytes give no text.
#[verifier::external_body]
fn decode_lossy(b: &[u8]) -> (r: String)
    ensures
        r@ == lossy_text(b@),
        b@.len() == 0 ==> r@.len() == 0,
{
    String::from_utf8_lossy(b).into_owned()
}

/// The concatenation of the texts of `lines`, in order.
pub open spec fn concat_lines(lines: Seq<(Stream, Seq<char>)>) -> Seq<char>
    decreases lines.len(),
{
    if lines.len() == 0 {
        Seq::empty()
    } else {
        concat_lines(lines.drop_last()) + lines.last().1
    }
}

/// The texts of the lines of `lines` that came from stream `s`, in order.
pub open spec fn stream_lines(lines: Seq<(Stream, Seq<char>)>, s: Stream) -> Seq<Seq<char>>
    decreases lines.len(),
{
    if lines.len() == 0 {
        Seq::empty()
    } else if lines.last().0 == s {
        stream_lines(lines.drop_last(), s).push(lines.last().1)
    } else {
        stream_lines(lines.drop_last(), s)
    }
}

/// What a capture holds: the accumulated text, every line sent on the line
/// channel (with its stream), how many of them subscribers have received, and
/// which streams have reached their end.
pub struct OutputModel {
    pub text: Seq<char>,
    pub lines: Seq<(Stream, Seq<char>)>,
    pub received: nat,
    pub stdout_closed: bool,
    pub stderr_closed: bool,
}

impl OutputModel {
    pub open spec fn empty() -> OutputModel {
        OutputModel {
            text: Seq::empty(),
            lines: Seq::empty(),
            received: 0,
            stdout_closed: false,
            stderr_closed: false,
        }
    }

    /// The accumulated text is all the lines sent, in order, and subscribers
    /// have received no more lines than were sent.
    pub open spec fn wf(self) -> bool {
        &&& self.text == concat_lines(self.lines)
        &&& self.received <= self.lines.len()
    }

    /// One line of `s` read: appended to the text and sent on the channel.
    pub open spec fn with_line(self, s: Stream, line: Seq<char>) -> OutputModel {
        OutputModel { text: self.text + line, lines: self.lines.push((s, line)), ..self }
    }

    pub open spec fn with_closed(self, s: Stream) -> OutputModel {
        match s {
            Stream::Stdout => OutputModel { stdout_closed: true, ..self },
            Stream::Stderr => OutputModel { stderr_closed: true, ..self },
        }
    }

    pub open spec fn is_finished(self) -> bool {
        self.stdout_closed && self.stderr_closed
    }

    /// The lines sent that no subscriber has received yet.
    pub open spec fn unreceived(self) -> Seq<Seq<char>> {
        self.lines.subrange(self.received as int, self.lines.len() as int).map_values(
            |l: (Stream, Seq<char>)| l.1,
        )
    }
}

/// The lines of `events` read one after another, starting from `m`.
pub open spec fn replay(m: OutputModel, events: Seq<(Stream, Seq<char>)>) -> OutputModel
    decreases events.len(),
{
    if events.len() == 0 {
        m
    } else {
        replay(m, events.drop_last()).with_line(events.last().0, events.last().1)
    }
}

pub proof fn lemma_concat_push(lines: Seq<(Stream, Seq<char>)>, l: (Stream, Seq<char>))
    ensures
        concat_lines(lines.push(l)) == concat_lines(lines) + l.1,
{
    assert(lines.push(l).drop_last() =~= lines);
}

/// Whatever order the two streams' lines arrive in, the captured text is the
/// concatenation of every line in the order of arrival, the channel carries
/// every line once in that order, and so each stream's lines keep their own
/// order.
pub proof fn lemma_capture_keeps_every_line(events: Seq<(Stream, Seq<char>)>)
    ensures
        replay(OutputModel::empty(), events).wf(),
        replay(OutputModel::empty(), events).text == concat_lines(events),
        replay(OutputModel::empty(), events).lines == events,
        forall|s: Stream|
            stream_lines(#[trigger] replay(OutputModel::empty(), events).lines, s)
                == stream_lines(events, s),
    decreases events.len(),
{
    if events.len() > 0 {
        lemma_capture_keeps_every_line(events.drop_last());
        lemma_concat_push(events.drop_last(), events.last());
        assert(events.drop_last().push(events.last()) =~= events);
    } else {
        assert(OutputModel::empty().lines =~= events);
    }
}

/// The captured output of one process: its stdout and stderr read line by line
/// into one accumulated text and one channel of lines.
pub struct PendingOutput {
    full_output: String,
    lines: Vec<(Stream, String)>,
    received: usize,
    stdout_closed: bool,
    stderr_closed: bool,
}

impl View for PendingOutput {
    type V = OutputModel;

    closed spec fn view(&self) -> OutputModel {
        OutputModel {
            text: self.full_output@,
            lines: self.lines@.map_values(|l: (Stream, String)| (l.0, l.1@)),
            received: self.received as nat,
            stdout_closed: self.stdout_closed,
            stderr_closed: self.stderr_closed,
        }
    }
}

impl PendingOutput {
    pub open spec fn wf(&self) -> bool {
        self@.wf()
    }

    /// A capture with nothing read yet and both streams open.
    pub fn new() -> (r: PendingOutput)
        ensures
            r@ == OutputModel::empty(),
            r.wf(),
    {
        let r = PendingOutput {
            full_output: String::new(),
            lines: Vec::new(),
            received: 0,
            stdout_closed: false,
            stderr_closed: false,
        };
        assert(r@.lines =~= Seq::empty());
        r
    }

    /// Takes one line of text read from stream `s`: appends it to the
    /// accumulated text and sends it on the line channel.
    pub fn push_line(&mut self, s: Stream, line: String)
        requires
            old(self).wf(),
        ensures
            final(self).wf(),
            final(self)@ == old(self)@.with_line(s, line@),
    {
        proof {
            lemma_concat_push(old(self)@.lines, (s, line@));
        }
        self.full_output.append(line.as_str());
        self.lines.push((s, line));
        assert(self@.lines =~= old(self)@.lines.push((s, line@)));
    }

    /// Takes the bytes of one line read from stream `s` (its newline included,
    /// or the last unterminated part of the stream), decodes them lossily and
    /// records the text as `push_line` does.
    pub fn record_line(&mut self, s: Stream, bytes: &[u8])
        requires
            old(self).wf(),
        ensures
            final(self).wf(),
            final(self)@ == old(self)@.with_line(s, lossy_text(bytes@)),
    {
        let line = decode_lossy(bytes);
        self.push_line(s, line);
    }

    /// Marks stream `s` as read to its end.
    pub fn close(&mut self, s: Stream)
        requires
            old(self).wf(),
        ensures
            final(self).wf(),
            final(self)@ == old(self)@.with_closed(s),
    {
        match s {
            Stream::Stdout => self.stdout_closed = true,
            Stream::Stderr => self.stderr_closed = true,
        }
    }

    /// Whether both streams have been read to their end.
    pub fn is_finished(&self) -> (r: bool)
        ensures
            r == self@.is_finished(),
    {
        self.stdout_closed && self.stderr_closed
    }

    /// Receives from the shared line channel: every line sent that no
    /// subscriber has received yet, in the order sent.
    pub fn subscribe(&mut self) -> (r: Vec<String>)
        requires
            old(self).wf(),
        ensures
            final(self).wf(),
            r@.map_values(|l: String| l@) == old(self)@.unreceived(),
            final(self)@ == (OutputModel { received: old(self)@.lines.len(), ..old(self)@ }),
    {
        let mut r: Vec<String> = Vec::new();
        let mut i: usize = self.received;
        while i < self.lines.len()
            invariant
                self.wf(),
                self == old(self),
                self.received <= i <= self.lines.len(),
                r@.len() == i - self.received,
                forall|j: int|
                    0 <= j < r@.len() ==> (#[trigger] r@[j])@ == self@.lines[self.received + j].1,
            decreases self.lines.len() - i,
        {
            let line = self.lines[i].1.clone();
            assert(line@ == self@.lines[i as int].1);
            r.push(line);
            i = i + 1;
        }
        assert(r@.map_values(|l: String| l@) =~= old(self)@.unreceived());
        self.received = self.lines.len();
        assert(self@.lines =~= old(self)@.lines);
        r
    }

    /// The full text, once both streams have been read to their end; `None`
    /// while either is still being read.
    pub fn full_output(&self) -> (r: Option<String>)
        ensures
            r.is_some() == self@.is_finished(),
            r.is_some() ==> r.unwrap()@ == self@.text,
    {
        if self.stdout_closed && self.stderr_closed {
            Some(self.full_output.clone())
        } else {
            None
        }
    }
}

impl Clone for PendingOutput {
    fn clone(&self) -> (r: PendingOutput)
        ensures
            r@ == self@,
    {
        let mut lines: Vec<(Stream, String)> = Vec::new();
        let mut i: usize = 0;
        while i < self.lines.len()
            invariant
                i <= self.lines.len(),
                lines@.len() == i,
                forall|j: int|
                    0 <= j < i ==> ((#[trigger] lines@[j]).0, lines@[j].1@) == self@.lines[j],
            decreases self.lines.len() - i,
        {
            let s = self.lines[i].0;
            let text = self.lines[i].1.clone();
            assert((s, text@) == self@.lines[i as int]);
            lines.push((s, text));
            i = i + 1;
        }
        let r = PendingOutput {
            full_output: self.full_output.clone(),
            lines,
            received: self.received,
            stdout_closed: self.stdout_closed,
            stderr_closed: self.stderr_closed,
        };
        assert(r@.lines =~= self@.lines);
        r
    }
}

} // verus!
