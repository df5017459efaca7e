use vstd::prelude::*;

verus! {

/// The byte that ends a line.
pub const NEWLINE: u8 = 10;

/// A name for whether a byte sequence is valid UTF-8, as `std::str::from_utf8`
/// decides it.
pub uninterp spec fn utf8_valid(b: Seq<u8>) -> bool;

/// Relies on std::str::from_utf8: it succeeds exactly on valid UTF-8.
#[verifier::external_body]
fn is_utf8(b: &[u8]) -> (r: bool)
    ensures
        r == utf8_valid(b@),
{
    std::str::from_utf8(b).is_ok()
}

/// `i` is the position of the first newline of `s`.
pub open spec fn is_first_newline(s: Seq<u8>, i: int) -> bool {
    &&& 0 <= i < s.len()
    &&& s[i] == NEWLINE
    &&& forall|j: int| 0 <= j < i ==> s[j] != NEWLINE
}

/// `s` holds no newline.
pub open spec fn no_newline(s: Seq<u8>) -> bool {
    forall|j: int| 0 <= j < s.len() ==> s[j] != NEWLINE
}

/// How many bytes the next line takes from `pending`, its newline included:
/// up to the first newline, or, once the stream has ended, whatever is left.
pub open spec fn cut(pending: Seq<u8>, ended: bool) -> Option<nat> {
    if exists|i: int| is_first_newline(pending, i) {
        let i = choose|i: int| is_first_newline(pending, i);
        Some((i + 1) as nat)
    } else if ended && pending.len() > 0 {
        Some(pending.len())
    } else {
        None
    }
}

/// The text of a line as read: its bytes before the newline that ends it.
pub open spec fn line_of(raw: Seq<u8>) -> Seq<u8> {
    if raw.len() > 0 && raw.last() == NEWLINE {
        raw.drop_last()
    } else {
        raw
    }
}

/// What a request for the next line can give, in the model.
pub enum LineModel {
    Line(Seq<u8>),
    NeedMore,
    End,
    InvalidData,
}

/// The outcome of a request for the next line, and the bytes left pending
/// after it.
pub open spec fn poll_line(pending: Seq<u8>, ended: bool) -> (LineModel, Seq<u8>) {
    match cut(pending, ended) {
        Some(k) => {
            let raw = pending.subrange(0, k as int);
            let rest = pending.subrange(k as int, pending.len() as int);
            if utf8_valid(raw) {
                (LineModel::Line(line_of(raw)), rest)
            } else {
                (LineModel::InvalidData, rest)
            }
        },
        None => if ended {
            (LineModel::End, pending)
        } else {
            (LineModel::NeedMore, pending)
        },
    }
}

/// What a request for the next line gives.
#[derive(Debug, PartialEq, Eq)]
pub enum LinePoll {
    /// A line, its newline taken off.
    Line(Vec<u8>),
    /// No whole line is buffered yet: more bytes must be read.
    NeedMore,
    /// The stream has ended and every line has been handed out.
    End,
    /// The next line is not valid UTF-8; its bytes are consumed.
    InvalidData,
}

impl View for LinePoll {
    type V = LineModel;

    open spec fn view(&self) -> LineModel {
        match self {
            LinePoll::Line(l) => LineModel::Line(l@),
            LinePoll::NeedMore => LineModel::NeedMore,
            LinePoll::End => LineModel::End,
            LinePoll::InvalidData => LineModel::InvalidData,
        }
    }
}

/// Splits a byte stream, handed over in chunks of any size, into lines.
/// One reader serves one stream, in one pass.
pub struct LineReader {
    pending: Vec<u8>,
    ended: bool,
}

impl View for LineReader {
    /// The bytes received and not yet handed out, and whether the stream has ended.
    type V = (Seq<u8>, bool);

    closed spec fn view(&self) -> (Seq<u8>, bool) {
        (self.pending@, self.ended)
    }
}

impl LineReader {
    /// A reader over a stream of which nothing has been read.
    pub fn new() -> (r: LineReader)
        ensures
            r@ == (Seq::<u8>::empty(), false),
    {
        LineReader { pending: Vec::new(), ended: false }
    }

    /// Whether the stream has ended.
    pub fn has_ended(&self) -> (r: bool)
        ensures
            r == self@.1,
    {
        self.ended
    }

    /// Takes in the next bytes of the stream.
    pub fn receive(&mut self, chunk: &[u8])
        requires
            !old(self)@.1,
        ensures
            final(self)@ == (old(self)@.0 + chunk@, false),
    {
        let mut i: usize = 0;
        while i < chunk.len()
            invariant
                0 <= i <= chunk@.len(),
                !self.ended,
                self.pending@ == old(self)@.0 + chunk@.subrange(0, i as int),
            decreases chunk@.len() - i,
        {
            self.pending.push(chunk[i]);
            i = i + 1;
            assert(self.pending@ =~= old(self)@.0 + chunk@.subrange(0, i as int));
        }
        assert(chunk@.subrange(0, i as int) =~= chunk@);
    }

    /// Records that the stream has ended: no more bytes will come.
    pub fn finish(&mut self)
        ensures
            final(self)@ == (old(self)@.0, true),
    {
        self.ended = true;
    }

    /// Hands out the next line, if one is complete.
    pub fn next_line(&mut self) -> (r: LinePoll)
        ensures
            (r@, final(self)@.0) == poll_line(old(self)@.0, old(self)@.1),
            final(self)@.1 == old(self)@.1,
    {
        let n = self.pending.len();
        let mut i: usize = 0;
        while i < n && self.pending[i] != NEWLINE
            invariant
                n == self.pending@.len(),
                0 <= i <= n,
                forall|j: int| 0 <= j < i ==> self.pending@[j] != NEWLINE,
            decreases n - i,
        {
            i = i + 1;
        }
        let ghost s = self.pending@;
        let k: usize;
        if i < n {
            assert(is_first_newline(s, i as int));
            assert forall|m: int| is_first_newline(s, m) implies m == i as int by {
                if m < i {
                    assert(s[m] != NEWLINE);
                } else if m > i {
                    assert(s[i as int] != NEWLINE);
                }
            }
            k = i + 1;
        } else {
            assert(!exists|m: int| is_first_newline(s, m));
            if self.ended && n > 0 {
                k = n;
            } else if self.ended {
                return LinePoll::End;
            } else {
                return LinePoll::NeedMore;
            }
        }
        let mut raw = self.pending.split_off(k);
        std::mem::swap(&mut raw, &mut self.pending);
        if !is_utf8(raw.as_slice()) {
            return LinePoll::InvalidData;
        }
        let len = raw.len();
        if len > 0 && raw[len - 1] == NEWLINE {
            raw.pop();
        }
        LinePoll::Line(raw)
    }
}

} // verus!
