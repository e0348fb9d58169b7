//! Line framing of a byte stream: complete lines are handed out as soon as
//! their separator arrives, the unterminated tail is kept for the next chunk.
use vstd::prelude::*;

verus! {

/// The record separator.
pub const NEWLINE: u8 = 10;

/// Splitting state: the complete lines seen so far and the unterminated tail.
pub type SplitState = (Seq<Seq<u8>>, Seq<u8>);

/// One byte of input applied to a splitting state.
pub open spec fn split_step(st: SplitState, b: u8) -> SplitState {
    if b == NEWLINE {
        (st.0.push(st.1), Seq::empty())
    } else {
        (st.0, st.1.push(b))
    }
}

/// The splitting state reached from `st` after reading all of `s`.
pub open spec fn split_from(st: SplitState, s: Seq<u8>) -> SplitState
    decreases s.len(),
{
    if s.len() == 0 {
        st
    } else {
        split_step(split_from(st, s.drop_last()), s.last())
    }
}

/// The newline-terminated lines of `s`, separators removed, in order.
pub open spec fn complete_lines(s: Seq<u8>) -> Seq<Seq<u8>> {
    split_from((Seq::empty(), Seq::empty()), s).0
}

/// What follows the last separator of `s`.
pub open spec fn unterminated_tail(s: Seq<u8>) -> Seq<u8> {
    split_from((Seq::empty(), Seq::empty()), s).1
}

pub open spec fn has_no_newline(s: Seq<u8>) -> bool {
    forall|i: int| 0 <= i < s.len() ==> s[i] != NEWLINE
}

/// Reading `a` then `b` is reading `a + b`.
pub proof fn lemma_split_concat(st: SplitState, a: Seq<u8>, b: Seq<u8>)
    ensures
        split_from(st, a + b) == split_from(split_from(st, a), b),
    decreases b.len(),
{
    if b.len() == 0 {
        assert(a + b =~= a);
    } else {
        lemma_split_concat(st, a, b.drop_last());
        assert((a + b).drop_last() =~= a + b.drop_last());
        assert((a + b).last() == b.last());
    }
}

/// Lines already complete are never touched again: they only get appended to.
pub proof fn lemma_split_prefix(lines: Seq<Seq<u8>>, tail: Seq<u8>, s: Seq<u8>)
    ensures
        split_from((lines, tail), s).0 == lines + split_from((Seq::empty(), tail), s).0,
        split_from((lines, tail), s).1 == split_from((Seq::empty(), tail), s).1,
    decreases s.len(),
{
    if s.len() == 0 {
        assert(lines + Seq::<Seq<u8>>::empty() =~= lines);
    } else {
        lemma_split_prefix(lines, tail, s.drop_last());
        let inner = split_from((Seq::empty(), tail), s.drop_last());
        if s.last() == NEWLINE {
            assert((lines + inner.0).push(inner.1) =~= lines + inner.0.push(inner.1));
        }
    }
}

/// The tail never holds a separator.
pub proof fn lemma_split_tail(st: SplitState, s: Seq<u8>)
    requires
        has_no_newline(st.1),
    ensures
        has_no_newline(split_from(st, s).1),
    decreases s.len(),
{
    if s.len() > 0 {
        lemma_split_tail(st, s.drop_last());
    }
}

/// Everything of a chunk up to and including its last separator, split into
/// lines, given the tail left by the chunks before.
pub open spec fn lines_after(tail: Seq<u8>, chunk: Seq<u8>) -> Seq<Seq<u8>> {
    split_from((Seq::empty(), tail), chunk).0
}

/// The tail left once `chunk` has been read after `tail`.
pub open spec fn tail_after(tail: Seq<u8>, chunk: Seq<u8>) -> Seq<u8> {
    split_from((Seq::empty(), tail), chunk).1
}

pub open spec fn lines_view(v: Seq<Vec<u8>>) -> Seq<Seq<u8>> {
    v.map_values(|x: Vec<u8>| x@)
}

/// Accumulates bytes and hands out each complete line once.
pub struct FrameDecoder {
    buffer: Vec<u8>,
}

impl View for FrameDecoder {
    type V = Seq<u8>;

    closed spec fn view(&self) -> Seq<u8> {
        self.buffer@
    }
}

impl FrameDecoder {
    /// The buffer holds exactly the bytes after the last separator.
    pub open spec fn wf(&self) -> bool {
        has_no_newline(self@)
    }

    pub fn new() -> (r: FrameDecoder)
        ensures
            r.wf(),
            r@ == Seq::<u8>::empty(),
    {
        FrameDecoder { buffer: Vec::new() }
    }

    /// The bytes received and not yet part of a complete line.
    pub fn pending(&self) -> (r: &[u8])
        ensures
            r@ == self@,
    {
        self.buffer.as_slice()
    }

    /// Appends a chunk and returns the lines that it completes, in order.
    pub fn push(&mut self, chunk: &[u8]) -> (r: Vec<Vec<u8>>)
        requires
            old(self).wf(),
        ensures
            final(self).wf(),
            lines_view(r@) == lines_after(old(self)@, chunk@),
            final(self)@ == tail_after(old(self)@, chunk@),
    {
        let mut out: Vec<Vec<u8>> = Vec::new();
        let mut cur: Vec<u8> = Vec::new();
        std::mem::swap(&mut cur, &mut self.buffer);
        let ghost start = cur@;
        assert(chunk@.subrange(0, 0) =~= Seq::<u8>::empty());
        assert(lines_view(out@) =~= Seq::<Seq<u8>>::empty());
        let mut i: usize = 0;
        while i < chunk.len()
            invariant
                0 <= i <= chunk@.len(),
                has_no_newline(start),
                (lines_view(out@), cur@) == split_from(
                    (Seq::empty(), start),
                    chunk@.subrange(0, i as int),
                ),
            decreases chunk@.len() - i,
        {
            let b = chunk[i];
            proof {
                assert(chunk@.subrange(0, i + 1).drop_last() =~= chunk@.subrange(0, i as int));
                assert(chunk@.subrange(0, i + 1).last() == b);
            }
            if b == NEWLINE {
                let mut done: Vec<u8> = Vec::new();
                std::mem::swap(&mut done, &mut cur);
                let ghost before = out@;
                out.push(done);
                assert(lines_view(out@) =~= lines_view(before).push(done@));
            } else {
                cur.push(b);
            }
            i = i + 1;
        }
        assert(chunk@.subrange(0, chunk@.len() as int) =~= chunk@);
        proof {
            lemma_split_tail((Seq::empty(), start), chunk@);
        }
        self.buffer = cur;
        out
    }

    /// At end of input: hands out the unterminated tail, if any, and empties
    /// the buffer.
    pub fn finish(&mut self) -> (r: Option<Vec<u8>>)
        requires
            old(self).wf(),
        ensures
            final(self).wf(),
            final(self)@ == Seq::<u8>::empty(),
            match r {
                Some(t) => old(self)@.len() > 0 && t@ == old(self)@,
                None => old(self)@.len() == 0,
            },
    {
        let mut cur: Vec<u8> = Vec::new();
        std::mem::swap(&mut cur, &mut self.buffer);
        if cur.len() == 0 {
            None
        } else {
            Some(cur)
        }
    }
}

/// Feeding a decoder `a` and then `b` gives the same lines, in the same order,
/// and leaves the same tail as feeding it `a + b` at once: where a chunk
/// boundary falls does not matter.
pub proof fn law_chunk_boundary(tail: Seq<u8>, a: Seq<u8>, b: Seq<u8>)
    requires
        has_no_newline(tail),
    ensures
        lines_after(tail, a) + lines_after(tail_after(tail, a), b) == lines_after(tail, a + b),
        tail_after(tail_after(tail, a), b) == tail_after(tail, a + b),
{
    lemma_split_concat((Seq::empty(), tail), a, b);
    lemma_split_prefix(lines_after(tail, a), tail_after(tail, a), b);
}

/// How a provider frames its records on the wire.
#[derive(Clone, Copy, Debug, PartialEq, Eq, Structural)]
pub struct Framing {
    /// Lines may carry a `data: ` envelope marker, stripped before decoding.
    pub envelope: bool,
    /// A `[DONE]` line marks the end of the stream.
    pub sentinel: bool,
}

impl Framing {
    /// Newline-delimited JSON: bare records, no sentinel.
    pub fn ndjson() -> (r: Framing)
        ensures
            r == (Framing { envelope: false, sentinel: false }),
    {
        Framing { envelope: false, sentinel: false }
    }

    /// Server-sent events: records behind `data: `, ended by `[DONE]`.
    pub fn event_stream() -> (r: Framing)
        ensures
            r == (Framing { envelope: true, sentinel: true }),
    {
        Framing { envelope: true, sentinel: true }
    }
}

/// What one complete line is, as a model.
pub enum LineClass {
    Blank,
    Sentinel,
    Record(Seq<u8>),
}

/// What one complete line is.
#[derive(Debug)]
pub enum LineKind {
    /// Empty or whitespace only: no protocol meaning.
    Blank,
    /// The end-of-stream marker.
    Sentinel,
    /// A candidate record, envelope removed.
    Record(Vec<u8>),
}

impl View for LineKind {
    type V = LineClass;

    open spec fn view(&self) -> LineClass {
        match self {
            LineKind::Blank => LineClass::Blank,
            LineKind::Sentinel => LineClass::Sentinel,
            LineKind::Record(r) => LineClass::Record(r@),
        }
    }
}

pub const CARRIAGE_RETURN: u8 = 13;

/// ASCII whitespace: space, tab, line feed, vertical tab, form feed, carriage return.
pub open spec fn is_ws(b: u8) -> bool {
    b == 32 || b == 9 || b == 10 || b == 11 || b == 12 || b == 13
}

pub open spec fn is_blank(s: Seq<u8>) -> bool {
    forall|i: int| 0 <= i < s.len() ==> is_ws(s[i])
}

/// A line without the carriage return of a CRLF separator.
pub open spec fn strip_cr(s: Seq<u8>) -> Seq<u8> {
    if s.len() > 0 && s.last() == CARRIAGE_RETURN {
        s.drop_last()
    } else {
        s
    }
}

/// The bytes of `data: `.
pub open spec fn envelope_marker() -> Seq<u8> {
    seq![100u8, 97u8, 116u8, 97u8, 58u8, 32u8]
}

/// The bytes of `[DONE]`.
pub open spec fn sentinel_token() -> Seq<u8> {
    seq![91u8, 68u8, 79u8, 78u8, 69u8, 93u8]
}

pub open spec fn strip_envelope(f: Framing, s: Seq<u8>) -> Seq<u8> {
    if f.envelope && s.len() >= 6 && s.subrange(0, 6) == envelope_marker() {
        s.subrange(6, s.len() as int)
    } else {
        s
    }
}

pub open spec fn trim_start(s: Seq<u8>) -> Seq<u8>
    decreases s.len(),
{
    if s.len() > 0 && is_ws(s[0]) {
        trim_start(s.subrange(1, s.len() as int))
    } else {
        s
    }
}

pub open spec fn trim_end(s: Seq<u8>) -> Seq<u8>
    decreases s.len(),
{
    if s.len() > 0 && is_ws(s.last()) {
        trim_end(s.drop_last())
    } else {
        s
    }
}

/// `s` without leading and trailing whitespace.
pub open spec fn trim_ws(s: Seq<u8>) -> Seq<u8> {
    trim_end(trim_start(s))
}

/// What a complete line is, under a provider's framing.
pub open spec fn classify(f: Framing, line: Seq<u8>) -> LineClass {
    let l = strip_cr(line);
    if is_blank(l) {
        LineClass::Blank
    } else {
        let r = strip_envelope(f, l);
        if f.sentinel && trim_ws(r) == sentinel_token() {
            LineClass::Sentinel
        } else {
            LineClass::Record(r)
        }
    }
}

fn is_ws_byte(b: u8) -> (r: bool)
    ensures
        r == is_ws(b),
{
    b == 32 || b == 9 || b == 10 || b == 11 || b == 12 || b == 13
}

fn all_ws(s: &[u8]) -> (r: bool)
    ensures
        r == is_blank(s@),
{
    let mut i: usize = 0;
    while i < s.len()
        invariant
            0 <= i <= s@.len(),
            forall|k: int| 0 <= k < i ==> is_ws(s@[k]),
        decreases s@.len() - i,
    {
        if !is_ws_byte(s[i]) {
            return false;
        }
        i = i + 1;
    }
    true
}

/// The bytes `s[from..to]` as a vector of their own.
pub fn copy_range(s: &[u8], from: usize, to: usize) -> (r: Vec<u8>)
    requires
        from <= to <= s@.len(),
    ensures
        r@ == s@.subrange(from as int, to as int),
{
    let mut out: Vec<u8> = Vec::new();
    let mut i: usize = from;
    while i < to
        invariant
            from <= i <= to <= s@.len(),
            out@ == s@.subrange(from as int, i as int),
        decreases to - i,
    {
        out.push(s[i]);
        assert(out@ =~= s@.subrange(from as int, i + 1));
        i = i + 1;
    }
    out
}

fn starts_with_envelope(s: &[u8]) -> (r: bool)
    ensures
        r == (s@.len() >= 6 && s@.subrange(0, 6) == envelope_marker()),
{
    if s.len() < 6 {
        return false;
    }
    let ok = s[0] == 100 && s[1] == 97 && s[2] == 116 && s[3] == 97 && s[4] == 58 && s[5] == 32;
    if ok {
        assert(s@.subrange(0, 6) =~= envelope_marker());
    } else {
        assert(s@.subrange(0, 6)[0] == s@[0]);
        assert(s@.subrange(0, 6)[1] == s@[1]);
        assert(s@.subrange(0, 6)[2] == s@[2]);
        assert(s@.subrange(0, 6)[3] == s@[3]);
        assert(s@.subrange(0, 6)[4] == s@[4]);
        assert(s@.subrange(0, 6)[5] == s@[5]);
    }
    ok
}

fn is_sentinel_text(s: &[u8]) -> (r: bool)
    ensures
        r == (trim_ws(s@) == sentinel_token()),
{
    let mut a: usize = 0;
    assert(s@.subrange(0, s@.len() as int) =~= s@);
    while a < s.len() && is_ws_byte(s[a])
        invariant
            0 <= a <= s@.len(),
            trim_start(s@.subrange(a as int, s@.len() as int)) == trim_start(s@),
        decreases s@.len() - a,
    {
        assert(s@.subrange(a as int, s@.len() as int).subrange(1, s@.len() - a) =~= s@.subrange(
            a + 1,
            s@.len() as int,
        ));
        a = a + 1;
    }
    let ghost t = s@.subrange(a as int, s@.len() as int);
    assert(trim_start(s@) == t);
    let mut b: usize = s.len();
    assert(s@.subrange(a as int, b as int) =~= t);
    while b > a && is_ws_byte(s[b - 1])
        invariant
            a <= b <= s@.len(),
            trim_start(s@) == t,
            t == s@.subrange(a as int, s@.len() as int),
            trim_end(s@.subrange(a as int, b as int)) == trim_end(t),
        decreases b - a,
    {
        assert(s@.subrange(a as int, b as int).drop_last() =~= s@.subrange(a as int, b - 1));
        b = b - 1;
    }
    let ghost m = s@.subrange(a as int, b as int);
    assert(trim_ws(s@) == m);
    if b - a != 6 {
        return false;
    }
    let ok = s[a] == 91 && s[a + 1] == 68 && s[a + 2] == 79 && s[a + 3] == 78 && s[a + 4] == 69
        && s[a + 5] == 93;
    if ok {
        assert(m =~= sentinel_token());
    } else {
        assert(m[0] == s@[a as int]);
        assert(m[1] == s@[a + 1]);
        assert(m[2] == s@[a + 2]);
        assert(m[3] == s@[a + 3]);
        assert(m[4] == s@[a + 4]);
        assert(m[5] == s@[a + 5]);
    }
    ok
}

/// A line without the carriage return of a CRLF separator.
pub fn without_cr(line: &[u8]) -> (r: Vec<u8>)
    ensures
        r@ == strip_cr(line@),
{
    let mut end: usize = line.len();
    if end > 0 && line[end - 1] == CARRIAGE_RETURN {
        end = end - 1;
    }
    let l = copy_range(line, 0, end);
    assert(line@.subrange(0, line@.len() as int) =~= line@);
    assert(line@.len() > 0 ==> line@.subrange(0, line@.len() - 1) =~= line@.drop_last());
    l
}

/// Tells what a complete line is, under a provider's framing: blank lines
/// carry nothing, the sentinel ends the stream, anything else is a record,
/// with a CRLF's carriage return and the envelope marker removed.
pub fn classify_line(f: Framing, line: &[u8]) -> (r: LineKind)
    ensures
        r@ == classify(f, line@),
{
    let l = without_cr(line);
    if all_ws(l.as_slice()) {
        return LineKind::Blank;
    }
    let rec = if f.envelope && starts_with_envelope(l.as_slice()) {
        copy_range(l.as_slice(), 6, l.len())
    } else {
        l
    };
    if f.sentinel && is_sentinel_text(rec.as_slice()) {
        LineKind::Sentinel
    } else {
        LineKind::Record(rec)
    }
}

} // verus!
