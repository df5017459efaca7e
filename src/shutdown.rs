use vstd::prelude::*;
use crate::lines::{poll_line, LineModel, LinePoll, LineReader};

verus! {

/// The bytes of the command that stops the server: `exit`.
pub open spec fn exit_command() -> Seq<u8> {
    seq![101u8, 120u8, 105u8, 116u8]
}

/// Whether a line of local input is exactly the command that stops the server.
pub fn is_exit_command(line: &[u8]) -> (r: bool)
    ensures
        r == (line@ == exit_command()),
{
    let r = line.len() == 4 && line[0] == 101u8 && line[1] == 120u8 && line[2] == 105u8 && line[3]
        == 116u8;
    if r {
        assert(line@ =~= exit_command());
    }
    r
}

/// What the server's watch on local input does next, in the model.
pub enum WatchStep {
    /// Read more local input.
    Read,
    /// A line that is not the command was read and set aside.
    Skip,
    /// Stop the server: the command was read, or local input ended.
    Stop,
    /// Local input gave a line that is not valid UTF-8: stop with an error.
    Fail,
}

/// The step that a request for the next line of local input leads to.
pub open spec fn watch_step(p: LineModel) -> WatchStep {
    match p {
        LineModel::Line(l) => if l == exit_command() {
            WatchStep::Stop
        } else {
            WatchStep::Skip
        },
        LineModel::NeedMore => WatchStep::Read,
        LineModel::End => WatchStep::Stop,
        LineModel::InvalidData => WatchStep::Fail,
    }
}

/// What the server's watch on local input does next.
#[derive(Debug, PartialEq, Eq)]
pub enum WatchAction {
    /// Read more local input and hand it over, then ask again.
    Read,
    /// A line that is not the command was read and set aside: ask again.
    Skip,
    /// Stop the server.
    Stop,
    /// Local input gave a line that is not valid UTF-8: stop with an error.
    Fail,
}

impl View for WatchAction {
    type V = WatchStep;

    open spec fn view(&self) -> WatchStep {
        match self {
            WatchAction::Read => WatchStep::Read,
            WatchAction::Skip => WatchStep::Skip,
            WatchAction::Stop => WatchStep::Stop,
            WatchAction::Fail => WatchStep::Fail,
        }
    }
}

/// The server's watch on local input: it reads lines until one is exactly
/// the command `exit`, until local input ends, or until a line fails.
pub struct ShutdownWatch {
    input: LineReader,
}

impl View for ShutdownWatch {
    /// The local input received and not yet read as lines, and whether it has ended.
    type V = (Seq<u8>, bool);

    closed spec fn view(&self) -> (Seq<u8>, bool) {
        self.input@
    }
}

impl ShutdownWatch {
    /// A watch on which nothing has been read.
    pub fn new() -> (r: ShutdownWatch)
        ensures
            r@ == (Seq::<u8>::empty(), false),
    {
        ShutdownWatch { input: LineReader::new() }
    }

    /// Takes in bytes of local input.
    pub fn receive(&mut self, chunk: &[u8])
        requires
            !old(self)@.1,
        ensures
            final(self)@ == (old(self)@.0 + chunk@, false),
    {
        self.input.receive(chunk);
    }

    /// Records that local input has ended.
    pub fn end_of_input(&mut self)
        ensures
            final(self)@ == (old(self)@.0, true),
    {
        self.input.finish();
    }

    /// Whether local input has ended.
    pub fn input_ended(&self) -> (r: bool)
        ensures
            r == self@.1,
    {
        self.input.has_ended()
    }

    /// The next step: read more, set a line aside, stop, or fail.
    pub fn next_action(&mut self) -> (r: WatchAction)
        ensures
            r@ == watch_step(poll_line(old(self)@.0, old(self)@.1).0),
            final(self)@ == (poll_line(old(self)@.0, old(self)@.1).1, old(self)@.1),
    {
        match self.input.next_line() {
            LinePoll::Line(l) => if is_exit_command(l.as_slice()) {
                WatchAction::Stop
            } else {
                WatchAction::Skip
            },
            LinePoll::NeedMore => WatchAction::Read,
            LinePoll::End => WatchAction::Stop,
            LinePoll::InvalidData => WatchAction::Fail,
        }
    }
}

} // verus!
