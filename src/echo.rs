use vstd::prelude::*;
use crate::lines::{
    is_first_newline, line_of, no_newline, poll_line, utf8_valid, LineModel, LinePoll, LineReader,
    NEWLINE,
};

verus! {

/// What a connection handler does next, in the model.
pub enum EchoStep {
    /// Write these bytes back to the peer.
    Write(Seq<u8>),
    /// Read more bytes from the peer.
    Read,
    /// The peer's stream has ended: the connection is closed without error.
    Close,
    /// The peer sent a line that is not valid UTF-8: the handler gives up.
    Fail,
}

/// How a run of the handler over what it has received stops.
pub enum EchoEnd {
    /// It waits for more bytes.
    Waiting,
    /// The stream ended and every line was echoed.
    Closed,
    /// A line was not valid UTF-8.
    Failed,
}

/// The reply to one line: the line followed by a single newline.
pub open spec fn reply_to(line: Seq<u8>) -> Seq<u8> {
    line.push(NEWLINE)
}

/// The handler's next step from the bytes it holds, and the bytes held after it.
pub open spec fn echo_step(pending: Seq<u8>, ended: bool) -> (EchoStep, Seq<u8>) {
    let (p, rest) = poll_line(pending, ended);
    match p {
        LineModel::Line(l) => (EchoStep::Write(reply_to(l)), rest),
        LineModel::NeedMore => (EchoStep::Read, rest),
        LineModel::End => (EchoStep::Close, rest),
        LineModel::InvalidData => (EchoStep::Fail, rest),
    }
}

/// Everything the handler writes while it steps through the bytes it holds,
/// and how it stops.
pub open spec fn echo_run(pending: Seq<u8>, ended: bool) -> (Seq<u8>, EchoEnd)
    decreases pending.len(),
{
    let (s, rest) = echo_step(pending, ended);
    match s {
        // A step that writes always consumes a line (`lemma_step_consumes`),
        // so the second branch is never taken.
        EchoStep::Write(out) => if rest.len() < pending.len() {
            let (more, e) = echo_run(rest, ended);
            (out + more, e)
        } else {
            (out, EchoEnd::Waiting)
        },
        EchoStep::Read => (Seq::empty(), EchoEnd::Waiting),
        EchoStep::Close => (Seq::empty(), EchoEnd::Closed),
        EchoStep::Fail => (Seq::empty(), EchoEnd::Failed),
    }
}

/// What a connection handler does next.
#[derive(Debug, PartialEq, Eq)]
pub enum EchoAction {
    /// Write these bytes back to the peer, then ask again.
    Write(Vec<u8>),
    /// Read more bytes from the peer, hand them over, then ask again.
    Read,
    /// The peer's stream has ended: close the connection; the service ends well.
    Close,
    /// The peer sent a line that is not valid UTF-8: the service ends in error.
    Fail,
}

impl View for EchoAction {
    type V = EchoStep;

    open spec fn view(&self) -> EchoStep {
        match self {
            EchoAction::Write(b) => EchoStep::Write(b@),
            EchoAction::Read => EchoStep::Read,
            EchoAction::Close => EchoStep::Close,
            EchoAction::Fail => EchoStep::Fail,
        }
    }
}

/// The reply to one line: its bytes and one newline.
pub fn echo_line(line: Vec<u8>) -> (r: Vec<u8>)
    ensures
        r@ == reply_to(line@),
{
    let mut r = line;
    r.push(NEWLINE);
    r
}

/// The model of the service of one connection: the bytes received and not
/// yet echoed, whether the peer's stream has ended, and whether the service
/// is still running.
pub struct EchoModel {
    pub pending: Seq<u8>,
    pub ended: bool,
    pub running: bool,
}

/// The steps after which the service of a connection is over.
pub open spec fn ends_service(s: EchoStep) -> bool {
    s is Close || s is Fail
}

/// The state of the service of one connection: it echoes every line that
/// the peer sends, in order, until the peer's stream ends or a line fails.
pub struct EchoSession {
    reader: LineReader,
    running: bool,
}

impl View for EchoSession {
    type V = EchoModel;

    closed spec fn view(&self) -> EchoModel {
        EchoModel { pending: self.reader@.0, ended: self.reader@.1, running: self.running }
    }
}

impl EchoSession {
    /// The service of a connection on which nothing has been read.
    pub fn new() -> (r: EchoSession)
        ensures
            r@ == (EchoModel { pending: Seq::<u8>::empty(), ended: false, running: true }),
    {
        EchoSession { reader: LineReader::new(), running: true }
    }

    /// Takes in bytes read from the peer.
    pub fn receive(&mut self, chunk: &[u8])
        requires
            !old(self)@.ended,
        ensures
            final(self)@ == (EchoModel { pending: old(self)@.pending + chunk@, ..old(self)@ }),
    {
        self.reader.receive(chunk);
    }

    /// Records that the peer's stream has ended.
    pub fn end_of_input(&mut self)
        ensures
            final(self)@ == (EchoModel { ended: true, ..old(self)@ }),
    {
        self.reader.finish();
    }

    /// Whether the peer's stream has ended.
    pub fn input_ended(&self) -> (r: bool)
        ensures
            r == self@.ended,
    {
        self.reader.has_ended()
    }

    /// Whether the service is still running: it stops once it has closed
    /// or given up.
    pub fn is_running(&self) -> (r: bool)
        ensures
            r == self@.running,
    {
        self.running
    }

    /// The next thing to do: echo a line, read, close or give up. After
    /// closing or giving up the service is over.
    pub fn next_action(&mut self) -> (r: EchoAction)
        requires
            old(self)@.running,
        ensures
            (r@, final(self)@.pending) == echo_step(old(self)@.pending, old(self)@.ended),
            final(self)@.ended == old(self)@.ended,
            final(self)@.running == !ends_service(r@),
    {
        let r = match self.reader.next_line() {
            LinePoll::Line(l) => EchoAction::Write(echo_line(l)),
            LinePoll::NeedMore => EchoAction::Read,
            LinePoll::End => EchoAction::Close,
            LinePoll::InvalidData => EchoAction::Fail,
        };
        self.running = match r {
            EchoAction::Close | EchoAction::Fail => false,
            _ => true,
        };
        r
    }
}

/// A line that the service hands back unchanged: no newline in it, and
/// valid UTF-8 once its newline is added.
pub open spec fn well_formed_line(l: Seq<u8>) -> bool {
    &&& no_newline(l)
    &&& utf8_valid(l.push(NEWLINE))
}

/// The bytes of a sequence of lines, each followed by a newline.
pub open spec fn framed(lines: Seq<Seq<u8>>) -> Seq<u8>
    decreases lines.len(),
{
    if lines.len() == 0 {
        Seq::empty()
    } else {
        lines[0].push(NEWLINE) + framed(lines.skip(1))
    }
}

proof fn lemma_step_on_line(l: Seq<u8>, rest: Seq<u8>, ended: bool)
    requires
        well_formed_line(l),
    ensures
        echo_step(l.push(NEWLINE) + rest, ended) == (EchoStep::Write(l.push(NEWLINE)), rest),
{
    let s = l.push(NEWLINE) + rest;
    let n = l.len() as int;
    assert(s[n] == NEWLINE);
    assert forall|j: int| 0 <= j < n implies s[j] != NEWLINE by {
        assert(s[j] == l[j]);
    }
    assert(is_first_newline(s, n));
    assert forall|m: int| is_first_newline(s, m) implies m == n by {
        if m < n {
            assert(s[m] == l[m]);
        }
    }
    let raw = s.subrange(0, n + 1);
    assert(raw =~= l.push(NEWLINE));
    assert(s.subrange(n + 1, s.len() as int) =~= rest);
    assert(raw.drop_last() =~= l);
    assert(line_of(raw) == l);
}

proof fn lemma_run_over_lines(lines: Seq<Seq<u8>>, tail: Seq<u8>, ended: bool)
    requires
        forall|i: int| 0 <= i < lines.len() ==> well_formed_line(#[trigger] lines[i]),
    ensures
        echo_run(framed(lines) + tail, ended) == (
            framed(lines) + echo_run(tail, ended).0,
            echo_run(tail, ended).1,
        ),
    decreases lines.len(),
{
    if lines.len() == 0 {
        assert(framed(lines) + tail =~= tail);
        assert(framed(lines) + echo_run(tail, ended).0 =~= echo_run(tail, ended).0);
    } else {
        let l = lines[0];
        let later = lines.skip(1);
        assert forall|i: int| 0 <= i < later.len() implies well_formed_line(#[trigger] later[i]) by {
            assert(later[i] == lines[i + 1]);
        }
        lemma_run_over_lines(later, tail, ended);
        let rest = framed(later) + tail;
        assert(framed(lines) + tail =~= l.push(NEWLINE) + rest);
        lemma_step_on_line(l, rest, ended);
        assert(rest.len() < (l.push(NEWLINE) + rest).len());
        assert(framed(lines) + echo_run(tail, ended).0 =~= l.push(NEWLINE) + (framed(later)
            + echo_run(tail, ended).0));
    }
}

proof fn lemma_run_on_nothing(ended: bool)
    ensures
        echo_run(Seq::empty(), ended) == (
            Seq::<u8>::empty(),
            if ended { EchoEnd::Closed } else { EchoEnd::Waiting },
        ),
{
    assert(!exists|i: int| is_first_newline(Seq::<u8>::empty(), i));
}

/// Every well-formed line that a peer sends comes back as sent, followed by
/// one newline, in the order sent: while the connection is open the service
/// has written back exactly the bytes received and waits for more; once the
/// peer's stream has ended it closes without error.
pub proof fn lemma_echo_returns_input(lines: Seq<Seq<u8>>, ended: bool)
    requires
        forall|i: int| 0 <= i < lines.len() ==> well_formed_line(#[trigger] lines[i]),
    ensures
        echo_run(framed(lines), ended) == (
            framed(lines),
            if ended { EchoEnd::Closed } else { EchoEnd::Waiting },
        ),
{
    lemma_run_over_lines(lines, Seq::empty(), ended);
    lemma_run_on_nothing(ended);
    assert(framed(lines) + Seq::<u8>::empty() =~= framed(lines));
}

/// A peer that ends its stream in the middle of a line: the service echoes
/// the lines before it, then that partial line with a newline added, and
/// closes without error.
pub proof fn lemma_partial_line_closes(lines: Seq<Seq<u8>>, partial: Seq<u8>)
    requires
        forall|i: int| 0 <= i < lines.len() ==> well_formed_line(#[trigger] lines[i]),
        no_newline(partial),
        utf8_valid(partial),
    ensures
        echo_run(framed(lines) + partial, true) == (
            framed(lines) + if partial.len() > 0 {
                partial.push(NEWLINE)
            } else {
                Seq::empty()
            },
            EchoEnd::Closed,
        ),
{
    lemma_run_over_lines(lines, partial, true);
    assert(!exists|i: int| is_first_newline(partial, i));
    if partial.len() > 0 {
        let rest = partial.subrange(partial.len() as int, partial.len() as int);
        assert(partial.subrange(0, partial.len() as int) =~= partial);
        assert(rest =~= Seq::<u8>::empty());
        lemma_run_on_nothing(true);
        assert(partial.push(NEWLINE) + Seq::<u8>::empty() =~= partial.push(NEWLINE));
    }
}

/// The bytes of a schedule of deliveries that came on connection `c`, in
/// the order they came. Each delivery names its connection and its chunk.
pub open spec fn own_bytes(sched: Seq<(nat, Seq<u8>)>, c: nat) -> Seq<u8>
    decreases sched.len(),
{
    if sched.len() == 0 {
        Seq::empty()
    } else if sched.last().0 == c {
        own_bytes(sched.drop_last(), c) + sched.last().1
    } else {
        own_bytes(sched.drop_last(), c)
    }
}

/// The bytes held by the sessions of several connections, starting from
/// `start`, after each chunk of a schedule is handed to the session of the
/// connection that it came on, as `EchoSession::receive` does.
pub open spec fn deliver(sched: Seq<(nat, Seq<u8>)>, start: Seq<Seq<u8>>) -> Seq<Seq<u8>>
    decreases sched.len(),
{
    if sched.len() == 0 {
        start
    } else {
        let held = deliver(sched.drop_last(), start);
        let (c, chunk) = sched.last();
        if c < held.len() {
            held.update(c as int, held[c as int] + chunk)
        } else {
            held
        }
    }
}

/// No cross-talk between connections: however the chunks of any number of
/// connections interleave, each session holds its own bytes alone, in
/// order, and so writes back what it would have written had it been served
/// alone.
pub proof fn lemma_no_cross_talk(
    sched: Seq<(nat, Seq<u8>)>,
    start: Seq<Seq<u8>>,
    c: nat,
    ended: bool,
)
    requires
        c < start.len(),
    ensures
        deliver(sched, start).len() == start.len(),
        deliver(sched, start)[c as int] == start[c as int] + own_bytes(sched, c),
        echo_run(deliver(sched, start)[c as int], ended) == echo_run(
            start[c as int] + own_bytes(sched, c),
            ended,
        ),
    decreases sched.len(),
{
    if sched.len() == 0 {
        assert(start[c as int] + own_bytes(sched, c) =~= start[c as int]);
    } else {
        let prev = sched.drop_last();
        lemma_no_cross_talk(prev, start, c, ended);
        let chunk = sched.last().1;
        assert(start[c as int] + own_bytes(prev, c) + chunk =~= start[c as int] + (own_bytes(
            prev,
            c,
        ) + chunk));
    }
}

proof fn lemma_step_consumes(pending: Seq<u8>, ended: bool)
    ensures
        echo_step(pending, ended).0 is Write ==> echo_step(pending, ended).1.len() < pending.len(),
{
    if exists|i: int| is_first_newline(pending, i) {
        let i = choose|i: int| is_first_newline(pending, i);
        assert(is_first_newline(pending, i));
    }
}

/// Once the peer's stream has ended the service never waits for more: it
/// echoes what it holds and then closes, or gives up on a line that is not
/// valid UTF-8.
pub proof fn lemma_ended_service_stops(pending: Seq<u8>)
    ensures
        echo_run(pending, true).1 is Closed || echo_run(pending, true).1 is Failed,
    decreases pending.len(),
{
    lemma_step_consumes(pending, true);
    let (s, rest) = echo_step(pending, true);
    if s is Write {
        lemma_ended_service_stops(rest);
    }
}

} // verus!
