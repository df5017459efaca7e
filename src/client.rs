use vstd::prelude::*;
use crate::echo::{echo_line, reply_to};
use crate::lines::{is_first_newline, poll_line, LineModel, LinePoll, LineReader};

verus! {

/// What the client does next, in the model.
pub enum ClientStep {
    /// Show a line that the server sent.
    Show(Seq<u8>),
    /// Send these bytes to the server: a line typed locally and its newline.
    Send(Seq<u8>),
    /// Read more bytes from the server.
    ReadRemote,
    /// Read more bytes of local input.
    ReadLocal,
    /// The server closed the connection: report it; the session ends well.
    ServerClosed,
    /// Local input has ended: the session ends well.
    Quit,
    /// A source gave a line that is not valid UTF-8: the session ends in error.
    Fail,
}

/// The step that a request for the next line from the server leads to.
pub open spec fn remote_step(p: LineModel) -> ClientStep {
    match p {
        LineModel::Line(l) => ClientStep::Show(l),
        LineModel::NeedMore => ClientStep::ReadRemote,
        LineModel::End => ClientStep::ServerClosed,
        LineModel::InvalidData => ClientStep::Fail,
    }
}

/// The step that a request for the next line of local input leads to.
pub open spec fn local_step(p: LineModel) -> ClientStep {
    match p {
        LineModel::Line(l) => ClientStep::Send(reply_to(l)),
        LineModel::NeedMore => ClientStep::ReadLocal,
        LineModel::End => ClientStep::Quit,
        LineModel::InvalidData => ClientStep::Fail,
    }
}

/// The steps after which the session is over.
pub open spec fn ends_session(s: ClientStep) -> bool {
    s is ServerClosed || s is Quit || s is Fail
}

/// What the client does next.
#[derive(Debug, PartialEq, Eq)]
pub enum ClientAction {
    /// Show a line that the server sent.
    Show(Vec<u8>),
    /// Send these bytes to the server: a line typed locally and its newline.
    Send(Vec<u8>),
    /// Read more bytes from the server and hand them over.
    ReadRemote,
    /// Read more bytes of local input and hand them over.
    ReadLocal,
    /// The server closed the connection: report it; the session ends well.
    ServerClosed,
    /// Local input has ended: the session ends well.
    Quit,
    /// A source gave a line that is not valid UTF-8: the session ends in error.
    Fail,
}

impl View for ClientAction {
    type V = ClientStep;

    open spec fn view(&self) -> ClientStep {
        match self {
            ClientAction::Show(l) => ClientStep::Show(l@),
            ClientAction::Send(b) => ClientStep::Send(b@),
            ClientAction::ReadRemote => ClientStep::ReadRemote,
            ClientAction::ReadLocal => ClientStep::ReadLocal,
            ClientAction::ServerClosed => ClientStep::ServerClosed,
            ClientAction::Quit => ClientStep::Quit,
            ClientAction::Fail => ClientStep::Fail,
        }
    }
}

/// The model of a client session: the two line sources and whether the
/// session is still running.
pub struct ClientModel {
    pub remote: (Seq<u8>, bool),
    pub local: (Seq<u8>, bool),
    pub running: bool,
}

/// The step for the next line from the server, and the session after it.
pub open spec fn remote_transition(m: ClientModel) -> (ClientStep, ClientModel) {
    let (p, rest) = poll_line(m.remote.0, m.remote.1);
    let s = remote_step(p);
    (s, ClientModel { remote: (rest, m.remote.1), local: m.local, running: !ends_session(s) })
}

/// The step for the next line of local input, and the session after it.
pub open spec fn local_transition(m: ClientModel) -> (ClientStep, ClientModel) {
    let (p, rest) = poll_line(m.local.0, m.local.1);
    let s = local_step(p);
    (s, ClientModel { remote: m.remote, local: (rest, m.local.1), running: !ends_session(s) })
}

/// One client session: a connection to the server and local input, each
/// read as a stream of lines. Lines from the server are shown; local lines
/// are sent to the server. The session ends when either source ends.
pub struct ClientSession {
    remote: LineReader,
    local: LineReader,
    running: bool,
}

impl View for ClientSession {
    type V = ClientModel;

    closed spec fn view(&self) -> ClientModel {
        ClientModel { remote: self.remote@, local: self.local@, running: self.running }
    }
}

impl ClientSession {
    /// A session on which nothing has been read yet.
    pub fn new() -> (r: ClientSession)
        ensures
            r@ == (ClientModel {
                remote: (Seq::<u8>::empty(), false),
                local: (Seq::<u8>::empty(), false),
                running: true,
            }),
    {
        ClientSession { remote: LineReader::new(), local: LineReader::new(), running: true }
    }

    /// Whether the session is still running.
    pub fn is_running(&self) -> (r: bool)
        ensures
            r == self@.running,
    {
        self.running
    }

    /// Whether the server's stream has ended.
    pub fn remote_ended(&self) -> (r: bool)
        ensures
            r == self@.remote.1,
    {
        self.remote.has_ended()
    }

    /// Whether local input has ended.
    pub fn local_ended(&self) -> (r: bool)
        ensures
            r == self@.local.1,
    {
        self.local.has_ended()
    }

    /// Takes in bytes read from the server.
    pub fn receive_remote(&mut self, chunk: &[u8])
        requires
            !old(self)@.remote.1,
        ensures
            final(self)@ == (ClientModel {
                remote: (old(self)@.remote.0 + chunk@, false),
                ..old(self)@
            }),
    {
        self.remote.receive(chunk);
    }

    /// Records that the server's stream has ended.
    pub fn close_remote(&mut self)
        ensures
            final(self)@ == (ClientModel { remote: (old(self)@.remote.0, true), ..old(self)@ }),
    {
        self.remote.finish();
    }

    /// Takes in bytes of local input.
    pub fn receive_local(&mut self, chunk: &[u8])
        requires
            !old(self)@.local.1,
        ensures
            final(self)@ == (ClientModel {
                local: (old(self)@.local.0 + chunk@, false),
                ..old(self)@
            }),
    {
        self.local.receive(chunk);
    }

    /// Records that local input has ended.
    pub fn close_local(&mut self)
        ensures
            final(self)@ == (ClientModel { local: (old(self)@.local.0, true), ..old(self)@ }),
    {
        self.local.finish();
    }

    /// The step for the next line from the server. Once the server's stream
    /// has ended and its last line was shown, the session ends without
    /// error, whatever local input is still pending.
    pub fn next_remote(&mut self) -> (r: ClientAction)
        requires
            old(self)@.running,
        ensures
            (r@, final(self)@) == remote_transition(old(self)@),
    {
        let r = match self.remote.next_line() {
            LinePoll::Line(l) => ClientAction::Show(l),
            LinePoll::NeedMore => ClientAction::ReadRemote,
            LinePoll::End => ClientAction::ServerClosed,
            LinePoll::InvalidData => ClientAction::Fail,
        };
        self.running = match r {
            ClientAction::ServerClosed | ClientAction::Fail => false,
            _ => true,
        };
        r
    }

    /// The step for the next line of local input. Once local input has
    /// ended, the session ends without error, whatever the server does.
    pub fn next_local(&mut self) -> (r: ClientAction)
        requires
            old(self)@.running,
        ensures
            (r@, final(self)@) == local_transition(old(self)@),
    {
        let r = match self.local.next_line() {
            LinePoll::Line(l) => ClientAction::Send(echo_line(l)),
            LinePoll::NeedMore => ClientAction::ReadLocal,
            LinePoll::End => ClientAction::Quit,
            LinePoll::InvalidData => ClientAction::Fail,
        };
        self.running = match r {
            ClientAction::Quit | ClientAction::Fail => false,
            _ => true,
        };
        r
    }
}

/// When the server has closed the connection and every line it sent has
/// been shown, the next step from the server reports the closing and ends
/// the session without error, whatever local input is pending or unsent.
pub proof fn lemma_server_close_ends_cleanly(m: ClientModel)
    requires
        m.running,
        m.remote == (Seq::<u8>::empty(), true),
    ensures
        remote_transition(m) == (ClientStep::ServerClosed, ClientModel { running: false, ..m }),
{
    assert(!exists|i: int| is_first_newline(Seq::<u8>::empty(), i));
}

/// When local input has ended and every local line was sent, the next step
/// of local input ends the session without error, whatever the state of the
/// connection to the server.
pub proof fn lemma_local_end_ends_cleanly(m: ClientModel)
    requires
        m.running,
        m.local == (Seq::<u8>::empty(), true),
    ensures
        local_transition(m) == (ClientStep::Quit, ClientModel { running: false, ..m }),
{
    assert(!exists|i: int| is_first_newline(Seq::<u8>::empty(), i));
}

} // verus!
