//! Newline framing of a byte stream.
//!
//! A line is a maximal run of bytes that holds no line feed and is followed by
//! one. The line feed is not part of the line, and neither is one carriage
//! return directly in front of it. Bytes after the last line feed are not yet a
//! line: they wait for the rest of the stream.

use vstd::prelude::*;

verus! {

/// The byte that ends a line.
pub const LINE_FEED: u8 = 0x0A;

/// The byte that is dropped when it stands directly before the line feed.
pub const CARRIAGE_RETURN: u8 = 0x0D;

/// True when no byte of `bytes` is a line feed.
pub open spec fn unterminated(bytes: Seq<u8>) -> bool {
    forall|i: int| 0 <= i < bytes.len() ==> bytes[i] != LINE_FEED
}

/// The position of the first line feed in `bytes`, or `bytes.len()` where
/// there is none.
pub open spec fn line_end(bytes: Seq<u8>) -> int
    decreases bytes.len(),
{
    if bytes.len() == 0 || bytes[0] == LINE_FEED {
        0
    } else {
        1 + line_end(bytes.drop_first())
    }
}

/// `line` without one trailing carriage return.
pub open spec fn without_carriage_return(line: Seq<u8>) -> Seq<u8> {
    if line.len() > 0 && line.last() == CARRIAGE_RETURN {
        line.drop_last()
    } else {
        line
    }
}

/// The complete lines of `bytes`, in order, each without its terminator.
pub open spec fn lines_of(bytes: Seq<u8>) -> Seq<Seq<u8>>
    decreases bytes.len(),
{
    let end = line_end(bytes);
    if 0 <= end < bytes.len() {
        seq![without_carriage_return(bytes.subrange(0, end))] + lines_of(
            bytes.subrange(end + 1, bytes.len() as int),
        )
    } else {
        seq![]
    }
}

/// What follows the last line feed of `bytes`: the start of a line that is
/// not complete yet.
pub open spec fn rest_of(bytes: Seq<u8>) -> Seq<u8>
    decreases bytes.len(),
{
    let end = line_end(bytes);
    if 0 <= end < bytes.len() {
        rest_of(bytes.subrange(end + 1, bytes.len() as int))
    } else {
        bytes
    }
}

/// `line_end` is the first position that holds a line feed.
pub proof fn lemma_line_end(bytes: Seq<u8>)
    ensures
        0 <= line_end(bytes) <= bytes.len(),
        unterminated(bytes.subrange(0, line_end(bytes))),
        line_end(bytes) < bytes.len() ==> bytes[line_end(bytes)] == LINE_FEED,
        unterminated(bytes) <==> line_end(bytes) == bytes.len(),
    decreases bytes.len(),
{
    if bytes.len() == 0 || bytes[0] == LINE_FEED {
    } else {
        let tail = bytes.drop_first();
        lemma_line_end(tail);
        let end = line_end(bytes);
        assert forall|i: int| 0 <= i < end implies bytes.subrange(0, end)[i] != LINE_FEED by {
            if i > 0 {
                assert(tail.subrange(0, end - 1)[i - 1] == bytes[i]);
            }
        }
        if unterminated(bytes) {
            assert forall|i: int| 0 <= i < tail.len() implies tail[i] != LINE_FEED by {
                assert(tail[i] == bytes[i + 1]);
            }
        }
        if end == bytes.len() {
            assert forall|i: int| 0 <= i < bytes.len() implies bytes[i] != LINE_FEED by {
                assert(bytes.subrange(0, end)[i] == bytes[i]);
            }
        } else {
            assert(bytes[end] == tail[end - 1]);
        }
    }
}

/// Where `head` holds no line feed, the first line of `head`, a line feed
/// and `tail` ends where `head` does.
pub proof fn lemma_line_end_at(head: Seq<u8>, tail: Seq<u8>)
    requires
        unterminated(head),
    ensures
        line_end(head + seq![LINE_FEED] + tail) == head.len(),
    decreases head.len(),
{
    let bytes = head + seq![LINE_FEED] + tail;
    if head.len() == 0 {
        assert(bytes[0] == LINE_FEED);
    } else {
        assert(bytes[0] == head[0]);
        assert(bytes.drop_first() =~= head.drop_first() + seq![LINE_FEED] + tail);
        assert forall|i: int| 0 <= i < head.drop_first().len() implies head.drop_first()[i]
            != LINE_FEED by {
            assert(head.drop_first()[i] == head[i + 1]);
        }
        lemma_line_end_at(head.drop_first(), tail);
    }
}

/// Framing does not depend on how the stream is cut into pieces: the lines of
/// `first` followed by `second` are the lines of `first` and then the lines of
/// what `first` left over followed by `second`.
pub proof fn lemma_lines_of_concat(first: Seq<u8>, second: Seq<u8>)
    ensures
        lines_of(first + second) == lines_of(first) + lines_of(rest_of(first) + second),
        rest_of(first + second) == rest_of(rest_of(first) + second),
    decreases first.len(),
{
    let end = line_end(first);
    lemma_line_end(first);
    if end < first.len() {
        let head = first.subrange(0, end);
        let tail = first.subrange(end + 1, first.len() as int);
        let whole = first + second;
        assert(whole =~= head + seq![LINE_FEED] + (tail + second));
        lemma_line_end_at(head, tail + second);
        assert(whole.subrange(0, end) =~= head);
        assert(whole.subrange(end + 1, whole.len() as int) =~= tail + second);
        lemma_lines_of_concat(tail, second);
        assert(seq![without_carriage_return(head)] + (lines_of(tail) + lines_of(
            rest_of(tail) + second,
        )) =~= (seq![without_carriage_return(head)] + lines_of(tail)) + lines_of(
            rest_of(tail) + second,
        ));
    } else {
        assert(lines_of(first) + lines_of(first + second) =~= lines_of(first + second));
    }
}

/// What framing leaves over holds no line feed, and no line holds one.
pub proof fn lemma_framing_splits_at_every_line_feed(bytes: Seq<u8>)
    ensures
        unterminated(rest_of(bytes)),
        forall|i: int|
            0 <= i < lines_of(bytes).len() ==> unterminated(#[trigger] lines_of(bytes)[i]),
    decreases bytes.len(),
{
    let end = line_end(bytes);
    lemma_line_end(bytes);
    if end < bytes.len() {
        let tail = bytes.subrange(end + 1, bytes.len() as int);
        lemma_framing_splits_at_every_line_feed(tail);
        let head = bytes.subrange(0, end);
        let line = without_carriage_return(head);
        assert forall|k: int| 0 <= k < line.len() implies line[k] != LINE_FEED by {
            assert(line[k] == head[k]);
        }
        assert forall|i: int| 0 <= i < lines_of(bytes).len() implies unterminated(
            #[trigger] lines_of(bytes)[i],
        ) by {
            if i > 0 {
                assert(lines_of(bytes)[i] == lines_of(tail)[i - 1]);
            }
        }
    }
}

/// The bytes of a stream that have arrived and are not yet part of a complete
/// line. It never holds a line feed.
pub struct LineBuffer {
    pending: Vec<u8>,
}

impl View for LineBuffer {
    type V = Seq<u8>;

    closed spec fn view(&self) -> Seq<u8> {
        self.pending@
    }
}

impl LineBuffer {
    #[verifier::type_invariant]
    spec fn holds_no_line_feed(self) -> bool {
        unterminated(self.pending@)
    }

    /// A buffer with nothing pending.
    pub fn new() -> (buffer: Self)
        ensures
            buffer@ == Seq::<u8>::empty(),
    {
        LineBuffer { pending: Vec::new() }
    }

    /// The number of pending bytes.
    pub fn len(&self) -> (n: usize)
        ensures
            n == self@.len(),
    {
        self.pending.len()
    }

    /// Takes `chunk` as the next bytes of the stream and returns the lines
    /// that it completes, in order. What follows the last line feed stays
    /// pending.
    pub fn push(&mut self, chunk: &[u8]) -> (lines: Vec<Vec<u8>>)
        ensures
            lines.deep_view() == lines_of(old(self)@ + chunk@),
            final(self)@ == rest_of(old(self)@ + chunk@),
    {
        proof {
            use_type_invariant(&*self);
        }
        let ghost stream = self@ + chunk@;
        let mut lines: Vec<Vec<u8>> = Vec::new();
        let mut current: Vec<u8> = Vec::new();
        std::mem::swap(&mut current, &mut self.pending);
        let mut i: usize = 0;
        assert(current@ + chunk@.subrange(0, chunk@.len() as int) =~= stream);
        assert(lines.deep_view() + lines_of(stream) =~= lines_of(stream));
        while i < chunk.len()
            invariant
                i <= chunk.len(),
                unterminated(current@),
                lines_of(stream) == lines.deep_view() + lines_of(
                    current@ + chunk@.subrange(i as int, chunk@.len() as int),
                ),
                rest_of(stream) == rest_of(
                    current@ + chunk@.subrange(i as int, chunk@.len() as int),
                ),
            decreases chunk.len() - i,
        {
            let byte = chunk[i];
            let ghost ahead = current@ + chunk@.subrange(i as int, chunk@.len() as int);
            let ghost after = chunk@.subrange(i + 1, chunk@.len() as int);
            if byte == LINE_FEED {
                proof {
                    assert(ahead =~= current@ + seq![LINE_FEED] + after);
                    lemma_line_end_at(current@, after);
                    assert(ahead.subrange(0, current@.len() as int) =~= current@);
                    assert(ahead.subrange(current@.len() as int + 1, ahead.len() as int) =~= after);
                    assert(Seq::<u8>::empty() + after =~= after);
                }
                let ghost line = without_carriage_return(current@);
                let n = current.len();
                if n > 0 && current[n - 1] == CARRIAGE_RETURN {
                    current.pop();
                    assert(current@ =~= line);
                }
                let ghost before = lines.deep_view();
                assert(current.deep_view() =~= line);
                lines.push(current);
                current = Vec::new();
                proof {
                    assert(lines.deep_view() =~= before + seq![line]);
                    assert(before + (seq![line] + lines_of(after)) =~= (before + seq![line])
                        + lines_of(after));
                }
            } else {
                current.push(byte);
                assert(current@ + after =~= ahead);
            }
            i += 1;
        }
        proof {
            assert(current@ + chunk@.subrange(i as int, chunk@.len() as int) =~= current@);
            lemma_line_end(current@);
            assert(lines.deep_view() + Seq::<Seq<u8>>::empty() =~= lines.deep_view());
        }
        self.pending = current;
        lines
    }

    /// Hands out the pending bytes and leaves the buffer empty.
    pub fn take(&mut self) -> (rest: Vec<u8>)
        ensures
            rest@ == old(self)@,
            final(self)@ == Seq::<u8>::empty(),
    {
        let mut rest: Vec<u8> = Vec::new();
        std::mem::swap(&mut rest, &mut self.pending);
        rest
    }
}

} // verus!
