//! The streaming engine: records framed out of a response body are decoded
//! into typed events, and a pump decides, chunk by chunk, what to publish and
//! whether to read on.
use vstd::prelude::*;

use crate::framing::{
    classify, classify_line, complete_lines, has_no_newline, law_chunk_boundary, lines_after,
    lines_view, split_from, tail_after, unterminated_tail, FrameDecoder, Framing, LineClass,
    LineKind, NEWLINE,
};
use crate::json::{json_error_text, json_parse, json_view, opt_str_view, parse_json, JsonValue};

verus! {

/// A provider's payload schema: how a JSON document decodes to a payload,
/// and which payloads end the stream.
pub trait RecordSchema: Sized + View {
    /// The payload that a document decodes to, or why it does not.
    spec fn decoded(j: JsonValue) -> Result<<Self as View>::V, Seq<char>>;

    /// Whether a payload is the last one of its stream.
    spec fn terminal(p: <Self as View>::V) -> bool;

    /// Why generation finished, where a payload says so.
    spec fn reason(p: <Self as View>::V) -> Option<Seq<char>>;

    fn decode(v: &serde_json::Value) -> (r: Result<Self, String>)
        ensures
            match r {
                Ok(p) => Self::decoded(json_view(*v)) == Ok::<<Self as View>::V, Seq<char>>(p@),
                Err(m) => Self::decoded(json_view(*v)) == Err::<<Self as View>::V, Seq<char>>(m@),
            },
    ;

    fn is_terminal(&self) -> (r: bool)
        ensures
            r == Self::terminal(self@),
    ;

    fn completion_reason(&self) -> (r: Option<String>)
        ensures
            opt_str_view(r) == Self::reason(self@),
    ;
}

/// How a stream ended normally: on a terminal payload, with the reason it
/// gives if any, or on the sentinel, with none.
#[derive(Debug)]
pub struct CompletionInfo {
    pub reason: Option<String>,
}

pub open spec fn completion_view(c: Option<CompletionInfo>) -> Option<Option<Seq<char>>> {
    match c {
        Some(i) => Some(opt_str_view(i.reason)),
        None => None,
    }
}

/// What the text of some bytes is, invalid UTF-8 sequences replaced.
pub uninterp spec fn utf8_lossy(b: Seq<u8>) -> Seq<char>;

/// Relies on `String::from_utf8_lossy`: the text of some bytes, each invalid
/// sequence replaced by U+FFFD.
#[verifier::external_body]
fn text_of(b: &[u8]) -> (r: String)
    ensures
        r@ == utf8_lossy(b@),
{
    String::from_utf8_lossy(b).into_owned()
}

/// One event of a stream, as a model.
pub enum EventModel<V> {
    Partial(V),
    Malformed(Seq<char>, Seq<char>),
    TransportFailure(Seq<char>),
}

/// One event of a stream.
#[derive(Debug)]
pub enum ParsedEvent<P> {
    /// A record that decoded to a payload.
    Partial(P),
    /// A record that did not decode: its text and why.
    Malformed(String, String),
    /// The byte source itself failed.
    TransportFailure(String),
}

impl<P: View> View for ParsedEvent<P> {
    type V = EventModel<P::V>;

    open spec fn view(&self) -> EventModel<P::V> {
        match self {
            ParsedEvent::Partial(p) => EventModel::Partial(p@),
            ParsedEvent::Malformed(t, d) => EventModel::Malformed(t@, d@),
            ParsedEvent::TransportFailure(d) => EventModel::TransportFailure(d@),
        }
    }
}

/// The event that one record's bytes give.
pub open spec fn record_event<S: RecordSchema>(r: Seq<u8>) -> EventModel<<S as View>::V> {
    match json_parse(r) {
        None => EventModel::Malformed(utf8_lossy(r), json_error_text(r)),
        Some(j) => match S::decoded(j) {
            Ok(p) => EventModel::Partial(p),
            Err(m) => EventModel::Malformed(utf8_lossy(r), m),
        },
    }
}

/// Decodes one record: a payload, or a malformed-record notice that keeps
/// the record's text and says what is wrong with it.
pub fn parse_record<S: RecordSchema>(r: &[u8]) -> (e: ParsedEvent<S>)
    ensures
        e@ == record_event::<S>(r@),
{
    match parse_json(r) {
        Ok(v) => match S::decode(&v) {
            Ok(p) => ParsedEvent::Partial(p),
            Err(m) => ParsedEvent::Malformed(text_of(r), m),
        },
        Err(m) => ParsedEvent::Malformed(text_of(r), m),
    }
}

/// Decoding is a function of the record's bytes: the same text decodes to
/// the same event every time.
pub proof fn law_parse_idempotent<S: RecordSchema>(a: Seq<u8>, b: Seq<u8>)
    requires
        a == b,
    ensures
        record_event::<S>(a) == record_event::<S>(b),
{
}

/// The pump's control state. It only ever moves forward:
/// `Active`, then `Draining`, then `Closed`.
#[derive(Clone, Copy, Debug, PartialEq, Eq, Structural)]
pub enum StreamState {
    /// Reading chunks and publishing events.
    Active,
    /// The end was seen; no more chunks are read.
    Draining,
    /// Nothing more will be published.
    Closed,
}

/// What the driver of a pump does next.
#[derive(Clone, Copy, Debug, PartialEq, Eq, Structural)]
pub enum PumpAction {
    /// Read the next chunk of the body.
    ReadChunk,
    /// Call `finish` and publish what it returns.
    Finish,
    /// Stop: release the body and close the channel.
    Stop,
}

/// The events that one complete line gives: one for a record, none for a
/// blank line or the sentinel.
pub open spec fn line_event<S: RecordSchema>(f: Framing, line: Seq<u8>) -> Seq<
    EventModel<<S as View>::V>,
> {
    match classify(f, line) {
        LineClass::Record(r) => seq![record_event::<S>(r)],
        _ => Seq::empty(),
    }
}

/// Whether a complete line ends the stream: the sentinel, or a record that
/// decodes to a terminal payload.
pub open spec fn line_ends<S: RecordSchema>(f: Framing, line: Seq<u8>) -> bool {
    match classify(f, line) {
        LineClass::Sentinel => true,
        LineClass::Record(r) => match record_event::<S>(r) {
            EventModel::Partial(p) => S::terminal(p),
            _ => false,
        },
        LineClass::Blank => false,
    }
}

/// The events of some lines, in order.
pub open spec fn line_events<S: RecordSchema>(f: Framing, lines: Seq<Seq<u8>>) -> Seq<
    EventModel<<S as View>::V>,
>
    decreases lines.len(),
{
    if lines.len() == 0 {
        Seq::empty()
    } else {
        line_events::<S>(f, lines.drop_last()) + line_event::<S>(f, lines.last())
    }
}

/// Whether one of some lines ends the stream.
pub open spec fn lines_end<S: RecordSchema>(f: Framing, lines: Seq<Seq<u8>>) -> bool
    decreases lines.len(),
{
    if lines.len() == 0 {
        false
    } else {
        lines_end::<S>(f, lines.drop_last()) || line_ends::<S>(f, lines.last())
    }
}

/// How a complete line ends the stream, if it does.
pub open spec fn line_completion<S: RecordSchema>(f: Framing, line: Seq<u8>) -> Option<
    Option<Seq<char>>,
> {
    match classify(f, line) {
        LineClass::Sentinel => Some(None),
        LineClass::Record(r) => match record_event::<S>(r) {
            EventModel::Partial(p) => if S::terminal(p) {
                Some(S::reason(p))
            } else {
                None
            },
            _ => None,
        },
        LineClass::Blank => None,
    }
}

/// How the first of some lines that ends the stream ends it.
pub open spec fn lines_completion<S: RecordSchema>(f: Framing, lines: Seq<Seq<u8>>) -> Option<
    Option<Seq<char>>,
>
    decreases lines.len(),
{
    if lines.len() == 0 {
        None
    } else {
        match lines_completion::<S>(f, lines.drop_last()) {
            Some(c) => Some(c),
            None => line_completion::<S>(f, lines.last()),
        }
    }
}

pub open spec fn events_view<P: View>(v: Seq<ParsedEvent<P>>) -> Seq<EventModel<P::V>> {
    v.map_values(|e: ParsedEvent<P>| e@)
}

/// A pump as a model: the bytes after the last separator, the framing, the
/// control state, and how the stream ended if it ended normally.
pub struct PumpModel {
    pub pending: Seq<u8>,
    pub framing: Framing,
    pub state: StreamState,
    pub completion: Option<Option<Seq<char>>>,
}

/// A fresh pump.
pub open spec fn initial(f: Framing) -> PumpModel {
    PumpModel { pending: Seq::empty(), framing: f, state: StreamState::Active, completion: None }
}

/// One chunk of the body: the events to publish and the next pump. Once the
/// pump is no longer active a chunk changes nothing. Every line the chunk
/// completes is decoded, also after one that ends the stream; then the pump
/// drains.
pub open spec fn chunk_step<S: RecordSchema>(m: PumpModel, chunk: Seq<u8>) -> (
    PumpModel,
    Seq<EventModel<<S as View>::V>>,
) {
    if m.state != StreamState::Active {
        (m, Seq::empty())
    } else {
        let lines = lines_after(m.pending, chunk);
        (
            PumpModel {
                pending: tail_after(m.pending, chunk),
                framing: m.framing,
                state: if lines_end::<S>(m.framing, lines) {
                    StreamState::Draining
                } else {
                    StreamState::Active
                },
                completion: match m.completion {
                    Some(c) => Some(c),
                    None => lines_completion::<S>(m.framing, lines),
                },
            },
            line_events::<S>(m.framing, lines),
        )
    }
}

/// The end of the body: an active pump decodes its unterminated tail as a
/// last line; a draining one drops it. Either way the pump closes.
pub open spec fn finish_step<S: RecordSchema>(m: PumpModel) -> (
    PumpModel,
    Seq<EventModel<<S as View>::V>>,
) {
    (
        PumpModel {
            pending: Seq::empty(),
            framing: m.framing,
            state: StreamState::Closed,
            completion: m.completion,
        },
        if m.state == StreamState::Active {
            line_event::<S>(m.framing, m.pending)
        } else {
            Seq::empty()
        },
    )
}

/// Drives a stream: frames the chunks of a response body into records,
/// decodes them, and decides when to stop reading. It does no I/O itself:
/// its driver reads chunks, publishes the events it returns, and reports
/// what happened.
pub struct StreamPump<S> {
    decoder: FrameDecoder,
    framing: Framing,
    state: StreamState,
    completion: Option<CompletionInfo>,
    schema: std::marker::PhantomData<S>,
}

impl<S> View for StreamPump<S> {
    type V = PumpModel;

    closed spec fn view(&self) -> PumpModel {
        PumpModel {
            pending: self.decoder@,
            framing: self.framing,
            state: self.state,
            completion: completion_view(self.completion),
        }
    }
}

impl<S: RecordSchema> StreamPump<S> {
    pub closed spec fn wf(&self) -> bool {
        self.decoder.wf()
    }

    /// A pump that is active and holds no bytes.
    pub fn new(framing: Framing) -> (r: StreamPump<S>)
        ensures
            r.wf(),
            r@ == initial(framing),
    {
        StreamPump {
            decoder: FrameDecoder::new(),
            framing,
            state: StreamState::Active,
            completion: None,
            schema: std::marker::PhantomData,
        }
    }

    pub fn state(&self) -> (r: StreamState)
        ensures
            r == self@.state,
    {
        self.state
    }

    /// How the stream ended, if it ended normally.
    pub fn completion(&self) -> (r: Option<CompletionInfo>)
        ensures
            completion_view(r) == self@.completion,
    {
        match &self.completion {
            Some(c) => Some(
                CompletionInfo {
                    reason: match &c.reason {
                        Some(t) => Some(t.clone()),
                        None => None,
                    },
                },
            ),
            None => None,
        }
    }

    /// Read while active, finish once draining, stop once closed.
    pub fn next_action(&self) -> (r: PumpAction)
        ensures
            r == (match self@.state {
                StreamState::Active => PumpAction::ReadChunk,
                StreamState::Draining => PumpAction::Finish,
                StreamState::Closed => PumpAction::Stop,
            }),
    {
        match self.state {
            StreamState::Active => PumpAction::ReadChunk,
            StreamState::Draining => PumpAction::Finish,
            StreamState::Closed => PumpAction::Stop,
        }
    }

    /// Takes one chunk of the body and returns the events to publish, in
    /// order.
    pub fn on_chunk(&mut self, chunk: &[u8]) -> (r: Vec<ParsedEvent<S>>)
        requires
            old(self).wf(),
        ensures
            final(self).wf(),
            (final(self)@, events_view(r@)) == chunk_step::<S>(old(self)@, chunk@),
    {
        if self.state != StreamState::Active {
            let none: Vec<ParsedEvent<S>> = Vec::new();
            assert(events_view(none@) =~= Seq::empty());
            return none;
        }
        let lines = self.decoder.push(chunk);
        let ghost ls = lines_view(lines@);
        let mut out: Vec<ParsedEvent<S>> = Vec::new();
        let mut ended = false;
        let mut found: Option<CompletionInfo> = None;
        let mut i: usize = 0;
        assert(ls.take(0) =~= Seq::<Seq<u8>>::empty());
        assert(events_view(out@) =~= Seq::empty());
        while i < lines.len()
            invariant
                0 <= i <= lines@.len(),
                ls == lines_view(lines@),
                ls.len() == lines@.len(),
                events_view(out@) == line_events::<S>(self.framing, ls.take(i as int)),
                ended == lines_end::<S>(self.framing, ls.take(i as int)),
                completion_view(found) == lines_completion::<S>(self.framing, ls.take(i as int)),
            decreases lines@.len() - i,
        {
            assert(ls.take(i + 1).drop_last() =~= ls.take(i as int));
            assert(ls.take(i + 1).last() == lines@[i as int]@);
            let kind = classify_line(self.framing, lines[i].as_slice());
            match kind {
                LineKind::Blank => {
                    assert(line_event::<S>(self.framing, lines@[i as int]@) =~= Seq::empty());
                },
                LineKind::Sentinel => {
                    assert(line_event::<S>(self.framing, lines@[i as int]@) =~= Seq::empty());
                    ended = true;
                    if found.is_none() {
                        found = Some(CompletionInfo { reason: None });
                    }
                },
                LineKind::Record(rec) => {
                    let e = parse_record::<S>(rec.as_slice());
                    match &e {
                        ParsedEvent::Partial(p) => {
                            if p.is_terminal() {
                                ended = true;
                                if found.is_none() {
                                    found = Some(CompletionInfo { reason: p.completion_reason() });
                                }
                            }
                        },
                        _ => {},
                    }
                    let ghost before = out@;
                    out.push(e);
                    assert(events_view(out@) =~= events_view(before).push(e@));
                },
            }
            i = i + 1;
        }
        assert(ls.take(lines@.len() as int) =~= ls);
        if ended {
            self.state = StreamState::Draining;
        }
        if self.completion.is_none() {
            self.completion = found;
        }
        out
    }

    /// The body ended. Returns what the unterminated tail gives if the pump
    /// was still active, and closes it.
    pub fn finish(&mut self) -> (r: Vec<ParsedEvent<S>>)
        requires
            old(self).wf(),
        ensures
            final(self).wf(),
            (final(self)@, events_view(r@)) == finish_step::<S>(old(self)@),
    {
        let mut out: Vec<ParsedEvent<S>> = Vec::new();
        let was_active = self.state == StreamState::Active;
        let ghost pending = self.decoder@;
        let tail = self.decoder.finish();
        self.state = StreamState::Closed;
        if was_active {
            match tail {
                Some(t) => {
                    match classify_line(self.framing, t.as_slice()) {
                        LineKind::Record(rec) => {
                            out.push(parse_record::<S>(rec.as_slice()));
                            assert(events_view(out@) =~= line_event::<S>(self.framing, pending));
                        },
                        _ => {},
                    }
                },
                None => {
                    assert(classify(self.framing, pending) == LineClass::Blank);
                },
            }
        }
        assert(events_view(out@) =~= finish_step::<S>(old(self)@).1);
        out
    }

    /// The byte source failed: the one event to publish, after which the
    /// pump is closed.
    pub fn on_transport_error(&mut self, detail: String) -> (r: ParsedEvent<S>)
        requires
            old(self).wf(),
        ensures
            final(self).wf(),
            r@ == EventModel::<<S as View>::V>::TransportFailure(detail@),
            final(self)@ == (PumpModel { state: StreamState::Closed, ..old(self)@ }),
    {
        self.state = StreamState::Closed;
        ParsedEvent::TransportFailure(detail)
    }

    /// The consumer went away: the pump closes and asks for nothing more.
    pub fn on_consumer_gone(&mut self)
        requires
            old(self).wf(),
        ensures
            final(self).wf(),
            final(self)@ == (PumpModel { state: StreamState::Closed, ..old(self)@ }),
    {
        self.state = StreamState::Closed;
    }
}

/// All chunks of a body, joined.
pub open spec fn concat_all(chunks: Seq<Seq<u8>>) -> Seq<u8>
    decreases chunks.len(),
{
    if chunks.len() == 0 {
        Seq::empty()
    } else {
        concat_all(chunks.drop_last()) + chunks.last()
    }
}

/// Lines joined, each followed by a separator.
pub open spec fn join_lines(lines: Seq<Seq<u8>>) -> Seq<u8>
    decreases lines.len(),
{
    if lines.len() == 0 {
        Seq::empty()
    } else {
        join_lines(lines.drop_last()) + lines.last().push(NEWLINE)
    }
}

/// A pump fed some chunks in order: where it ends, and what it published.
pub open spec fn run<S: RecordSchema>(m: PumpModel, chunks: Seq<Seq<u8>>) -> (
    PumpModel,
    Seq<EventModel<<S as View>::V>>,
)
    decreases chunks.len(),
{
    if chunks.len() == 0 {
        (m, Seq::empty())
    } else {
        let p = run::<S>(m, chunks.drop_last());
        let q = chunk_step::<S>(p.0, chunks.last());
        (q.0, p.1 + q.1)
    }
}

/// A whole stream: a fresh pump fed some chunks, then the end of the body.
pub open spec fn session<S: RecordSchema>(f: Framing, chunks: Seq<Seq<u8>>) -> (
    PumpModel,
    Seq<EventModel<<S as View>::V>>,
) {
    let p = run::<S>(initial(f), chunks);
    let q = finish_step::<S>(p.0);
    (q.0, p.1 + q.1)
}

/// The record that a line holds, if it is one.
pub open spec fn record_in(f: Framing, line: Seq<u8>) -> Seq<u8> {
    match classify(f, line) {
        LineClass::Record(r) => r,
        _ => Seq::empty(),
    }
}

/// A line that holds a record decoding to a payload that does not end the
/// stream.
pub open spec fn is_valid_record<S: RecordSchema>(f: Framing, line: Seq<u8>) -> bool {
    &&& has_no_newline(line)
    &&& classify(f, line) is Record
    &&& record_event::<S>(record_in(f, line)) is Partial
    &&& !line_ends::<S>(f, line)
}

pub proof fn lemma_line_events_append<S: RecordSchema>(
    f: Framing,
    a: Seq<Seq<u8>>,
    b: Seq<Seq<u8>>,
)
    ensures
        line_events::<S>(f, a + b) == line_events::<S>(f, a) + line_events::<S>(f, b),
        lines_end::<S>(f, a + b) == (lines_end::<S>(f, a) || lines_end::<S>(f, b)),
    decreases b.len(),
{
    if b.len() == 0 {
        assert(a + b =~= a);
        assert(line_events::<S>(f, a) + Seq::empty() =~= line_events::<S>(f, a));
    } else {
        lemma_line_events_append::<S>(f, a, b.drop_last());
        assert((a + b).drop_last() =~= a + b.drop_last());
        assert((a + b).last() == b.last());
        assert(line_events::<S>(f, a) + line_events::<S>(f, b.drop_last()) + line_event::<S>(
            f,
            b.last(),
        ) =~= line_events::<S>(f, a) + (line_events::<S>(f, b.drop_last()) + line_event::<S>(
            f,
            b.last(),
        )));
    }
}

pub proof fn lemma_lines_end_index<S: RecordSchema>(f: Framing, lines: Seq<Seq<u8>>)
    ensures
        lines_end::<S>(f, lines) <==> exists|i: int|
            0 <= i < lines.len() && #[trigger] line_ends::<S>(f, lines[i]),
    decreases lines.len(),
{
    if lines.len() > 0 {
        let pre = lines.drop_last();
        lemma_lines_end_index::<S>(f, pre);
        if lines_end::<S>(f, pre) {
            let i = choose|i: int| 0 <= i < pre.len() && #[trigger] line_ends::<S>(f, pre[i]);
            assert(lines[i] == pre[i]);
        }
        if line_ends::<S>(f, lines.last()) {
            assert(line_ends::<S>(f, lines[lines.len() - 1]));
        }
        if exists|i: int| 0 <= i < lines.len() && #[trigger] line_ends::<S>(f, lines[i]) {
            let i = choose|i: int| 0 <= i < lines.len() && #[trigger] line_ends::<S>(f, lines[i]);
            if i < lines.len() - 1 {
                assert(pre[i] == lines[i]);
            }
        }
    }
}

proof fn lemma_complete_lines_append(b: Seq<u8>, c: Seq<u8>)
    ensures
        complete_lines(b + c) == complete_lines(b) + lines_after(unterminated_tail(b), c),
        unterminated_tail(b + c) == tail_after(unterminated_tail(b), c),
{
    assert(has_no_newline(Seq::<u8>::empty()));
    law_chunk_boundary(Seq::empty(), b, c);
}

/// The heart of chunk-boundary independence: as long as at most the last
/// of all the body's lines ends the stream, a pump fed any prefix of the
/// chunks has published exactly the events of the lines completed so far.
proof fn lemma_run<S: RecordSchema>(f: Framing, chunks: Seq<Seq<u8>>, total: Seq<Seq<u8>>)
    requires
        complete_lines(concat_all(chunks)).len() <= total.len(),
        forall|i: int|
            0 <= i < complete_lines(concat_all(chunks)).len() ==> complete_lines(
                concat_all(chunks),
            )[i] == total[i],
        forall|i: int| 0 <= i < total.len() - 1 ==> !#[trigger] line_ends::<S>(f, total[i]),
    ensures
        ({
            let ls = complete_lines(concat_all(chunks));
            let p = run::<S>(initial(f), chunks);
            &&& p.1 == line_events::<S>(f, ls)
            &&& p.0.framing == f
            &&& p.0.state == if lines_end::<S>(f, ls) {
                StreamState::Draining
            } else {
                StreamState::Active
            }
            &&& p.0.state == StreamState::Active ==> p.0.pending == unterminated_tail(
                concat_all(chunks),
            )
        }),
    decreases chunks.len(),
{
    let b = concat_all(chunks);
    if chunks.len() == 0 {
        assert(split_from((Seq::empty(), Seq::empty()), b) == (
            Seq::<Seq<u8>>::empty(),
            Seq::<u8>::empty(),
        ));
    } else {
        let pre = chunks.drop_last();
        let c = chunks.last();
        let bp = concat_all(pre);
        lemma_complete_lines_append(bp, c);
        let lp = complete_lines(bp);
        let new = lines_after(unterminated_tail(bp), c);
        assert(complete_lines(b) == lp + new);
        assert forall|i: int| 0 <= i < lp.len() implies lp[i] == total[i] by {
            assert((lp + new)[i] == lp[i]);
        }
        lemma_run::<S>(f, pre, total);
        lemma_line_events_append::<S>(f, lp, new);
        if lines_end::<S>(f, lp) {
            lemma_lines_end_index::<S>(f, lp);
            let i = choose|i: int| 0 <= i < lp.len() && #[trigger] line_ends::<S>(f, lp[i]);
            assert(lp[i] == total[i]);
            assert(new.len() == 0);
            assert(lp + new =~= lp);
            assert(line_events::<S>(f, lp) + Seq::empty() =~= line_events::<S>(f, lp));
        }
    }
}

/// Chunk-boundary independence. Whenever no line of the body but possibly
/// its last ends the stream, how the body is cut into chunks does not
/// matter: the stream publishes the events of the body's complete lines in
/// order, then, unless one of them ended the stream, those of its
/// unterminated tail, and closes. In particular it publishes what it would
/// for the whole body in one chunk.
pub proof fn law_chunking_independent<S: RecordSchema>(f: Framing, chunks: Seq<Seq<u8>>)
    requires
        forall|i: int|
            0 <= i < complete_lines(concat_all(chunks)).len() - 1 ==> !#[trigger] line_ends::<S>(
                f,
                complete_lines(concat_all(chunks))[i],
            ),
    ensures
        ({
            let b = concat_all(chunks);
            let ls = complete_lines(b);
            &&& session::<S>(f, chunks).1 == line_events::<S>(f, ls) + if lines_end::<S>(f, ls) {
                Seq::empty()
            } else {
                line_event::<S>(f, unterminated_tail(b))
            }
            &&& session::<S>(f, chunks).1 == session::<S>(f, seq![b]).1
            &&& session::<S>(f, chunks).0.state == StreamState::Closed
        }),
{
    let b = concat_all(chunks);
    let ls = complete_lines(b);
    lemma_run::<S>(f, chunks, ls);
    let one = seq![b];
    assert(one.drop_last() =~= Seq::<Seq<u8>>::empty());
    assert(concat_all(one.drop_last()) =~= Seq::<u8>::empty());
    assert(one.last() == b);
    assert(Seq::<u8>::empty() + b =~= b);
    assert(concat_all(one) =~= b);
    lemma_run::<S>(f, one, ls);
    if lines_end::<S>(f, ls) {
        let e = line_events::<S>(f, ls);
        assert(e + Seq::empty() =~= e);
        assert(e + Seq::empty() + Seq::empty() =~= e);
    }
}

proof fn lemma_join_one_line(l: Seq<u8>)
    requires
        has_no_newline(l),
    ensures
        lines_after(Seq::empty(), l.push(NEWLINE)) == seq![l],
        tail_after(Seq::empty(), l.push(NEWLINE)) == Seq::<u8>::empty(),
{
    lemma_no_newline_tail(l);
    assert(l.push(NEWLINE).drop_last() =~= l);
    assert(Seq::<Seq<u8>>::empty().push(l) =~= seq![l]);
}

proof fn lemma_no_newline_tail(l: Seq<u8>)
    requires
        has_no_newline(l),
    ensures
        split_from((Seq::empty(), Seq::empty()), l) == (Seq::<Seq<u8>>::empty(), l),
    decreases l.len(),
{
    if l.len() > 0 {
        lemma_no_newline_tail(l.drop_last());
        assert(l.drop_last().push(l.last()) =~= l);
    } else {
        assert(l =~= Seq::<u8>::empty());
    }
}

/// Joined lines without separators of their own split back into the same
/// lines, with nothing left over.
pub proof fn lemma_join_lines(lines: Seq<Seq<u8>>)
    requires
        forall|i: int| 0 <= i < lines.len() ==> has_no_newline(#[trigger] lines[i]),
    ensures
        complete_lines(join_lines(lines)) == lines,
        unterminated_tail(join_lines(lines)) == Seq::<u8>::empty(),
    decreases lines.len(),
{
    if lines.len() == 0 {
        assert(split_from((Seq::empty(), Seq::empty()), Seq::<u8>::empty()) == (
            Seq::<Seq<u8>>::empty(),
            Seq::<u8>::empty(),
        ));
    } else {
        let pre = lines.drop_last();
        assert forall|i: int| 0 <= i < pre.len() implies has_no_newline(#[trigger] pre[i]) by {
            assert(pre[i] == lines[i]);
        }
        lemma_join_lines(pre);
        assert(has_no_newline(lines[lines.len() - 1]));
        lemma_join_one_line(lines.last());
        lemma_complete_lines_append(join_lines(pre), lines.last().push(NEWLINE));
        assert(pre + seq![lines.last()] =~= lines);
    }
}

proof fn lemma_valid_events<S: RecordSchema>(f: Framing, lines: Seq<Seq<u8>>)
    requires
        forall|i: int| 0 <= i < lines.len() ==> is_valid_record::<S>(f, #[trigger] lines[i]),
    ensures
        line_events::<S>(f, lines).len() == lines.len(),
        forall|i: int|
            0 <= i < lines.len() ==> #[trigger] line_events::<S>(f, lines)[i] == record_event::<S>(
                record_in(f, lines[i]),
            ),
        !lines_end::<S>(f, lines),
    decreases lines.len(),
{
    if lines.len() > 0 {
        let pre = lines.drop_last();
        assert forall|i: int| 0 <= i < pre.len() implies is_valid_record::<S>(
            f,
            #[trigger] pre[i],
        ) by {
            assert(pre[i] == lines[i]);
        }
        lemma_valid_events::<S>(f, pre);
        assert(is_valid_record::<S>(f, lines[lines.len() - 1]));
        assert forall|i: int| 0 <= i < lines.len() implies #[trigger] line_events::<S>(
            f,
            lines,
        )[i] == record_event::<S>(record_in(f, lines[i])) by {
            if i < pre.len() {
                assert(pre[i] == lines[i]);
            }
        }
    }
}

/// However a body made of valid records and then the sentinel is cut into
/// chunks, the stream publishes exactly one payload per record, in order,
/// and then ends.
pub proof fn law_records_then_sentinel<S: RecordSchema>(
    f: Framing,
    records: Seq<Seq<u8>>,
    sentinel: Seq<u8>,
    chunks: Seq<Seq<u8>>,
)
    requires
        forall|i: int| 0 <= i < records.len() ==> is_valid_record::<S>(f, #[trigger] records[i]),
        has_no_newline(sentinel),
        classify(f, sentinel) is Sentinel,
        concat_all(chunks) == join_lines(records.push(sentinel)),
    ensures
        session::<S>(f, chunks).1.len() == records.len(),
        forall|i: int|
            0 <= i < records.len() ==> #[trigger] session::<S>(f, chunks).1[i] == record_event::<S>(
                record_in(f, records[i]),
            ),
        forall|i: int| 0 <= i < records.len() ==> #[trigger] session::<S>(f, chunks).1[i] is Partial,
        session::<S>(f, chunks).0.state == StreamState::Closed,
{
    let all = records.push(sentinel);
    assert forall|i: int| 0 <= i < all.len() implies has_no_newline(#[trigger] all[i]) by {
        if i < records.len() {
            assert(all[i] == records[i]);
        }
    }
    lemma_join_lines(all);
    lemma_valid_events::<S>(f, records);
    assert(all.drop_last() =~= records);
    assert(line_event::<S>(f, sentinel) =~= Seq::empty());
    assert(line_events::<S>(f, all) =~= line_events::<S>(f, records));
    assert forall|i: int| 0 <= i < all.len() - 1 implies !#[trigger] line_ends::<S>(f, all[i]) by {
        assert(all[i] == records[i]);
    }
    law_chunking_independent::<S>(f, chunks);
    assert(line_ends::<S>(f, all.last()));
    assert(lines_end::<S>(f, all));
    let e = line_events::<S>(f, all);
    assert(e + Seq::empty() =~= e);
}

/// A malformed record between two valid ones is published in its place,
/// and the stream goes on: however the three lines are cut into chunks, the
/// stream publishes a payload, a malformed-record notice and a payload, and
/// is still reading after the last chunk.
pub proof fn law_malformed_isolated<S: RecordSchema>(
    f: Framing,
    first: Seq<u8>,
    bad: Seq<u8>,
    second: Seq<u8>,
    chunks: Seq<Seq<u8>>,
)
    requires
        is_valid_record::<S>(f, first),
        is_valid_record::<S>(f, second),
        has_no_newline(bad),
        classify(f, bad) is Record,
        record_event::<S>(record_in(f, bad)) is Malformed,
        concat_all(chunks) == join_lines(seq![first, bad, second]),
    ensures
        session::<S>(f, chunks).1 == seq![
            record_event::<S>(record_in(f, first)),
            record_event::<S>(record_in(f, bad)),
            record_event::<S>(record_in(f, second)),
        ],
        session::<S>(f, chunks).1[0] is Partial,
        session::<S>(f, chunks).1[1] is Malformed,
        session::<S>(f, chunks).1[2] is Partial,
        run::<S>(initial(f), chunks).0.state == StreamState::Active,
{
    let all = seq![first, bad, second];
    assert forall|i: int| 0 <= i < all.len() implies has_no_newline(#[trigger] all[i]) by {}
    lemma_join_lines(all);
    assert(!line_ends::<S>(f, bad));
    let a1 = seq![first];
    let a2 = seq![first, bad];
    assert(a1.drop_last() =~= Seq::<Seq<u8>>::empty());
    assert(a1.last() == first);
    assert(a2.last() == bad);
    assert(all.last() == second);
    assert(!lines_end::<S>(f, Seq::<Seq<u8>>::empty()));
    assert(line_events::<S>(f, Seq::<Seq<u8>>::empty()) =~= Seq::empty());
    assert(a2.drop_last() =~= a1);
    assert(all.drop_last() =~= a2);
    assert(!lines_end::<S>(f, a1));
    assert(!lines_end::<S>(f, a2));
    assert(!lines_end::<S>(f, all));
    assert(line_event::<S>(f, first) =~= seq![record_event::<S>(record_in(f, first))]);
    assert(line_event::<S>(f, bad) =~= seq![record_event::<S>(record_in(f, bad))]);
    assert(line_event::<S>(f, second) =~= seq![record_event::<S>(record_in(f, second))]);
    assert(line_events::<S>(f, a1) =~= Seq::empty() + line_event::<S>(f, first));
    assert(line_events::<S>(f, a2) =~= line_events::<S>(f, a1) + line_event::<S>(f, bad));
    assert(line_events::<S>(f, all) =~= line_events::<S>(f, a2) + line_event::<S>(f, second));
    assert forall|i: int| 0 <= i < all.len() - 1 implies !#[trigger] line_ends::<S>(f, all[i]) by {}
    law_chunking_independent::<S>(f, chunks);
    lemma_run::<S>(f, chunks, all);
    assert(line_events::<S>(f, all) =~= seq![
        record_event::<S>(record_in(f, first)),
        record_event::<S>(record_in(f, bad)),
        record_event::<S>(record_in(f, second)),
    ]);
    assert(classify(f, Seq::<u8>::empty()) == LineClass::Blank);
    let e = line_events::<S>(f, all);
    assert(e + Seq::empty() =~= e);
}

/// A closed pump stays closed and publishes nothing, whatever chunks come:
/// once the consumer is gone, the driver reads no more.
pub proof fn law_closed_is_final<S: RecordSchema>(m: PumpModel, chunks: Seq<Seq<u8>>)
    requires
        m.state == StreamState::Closed,
    ensures
        run::<S>(m, chunks).0 == m,
        run::<S>(m, chunks).1 == Seq::<EventModel<<S as View>::V>>::empty(),
        finish_step::<S>(m).1 == Seq::<EventModel<<S as View>::V>>::empty(),
    decreases chunks.len(),
{
    if chunks.len() > 0 {
        law_closed_is_final::<S>(m, chunks.drop_last());
        assert(Seq::<EventModel<<S as View>::V>>::empty() + Seq::empty() =~= Seq::empty());
    }
}

pub open spec fn rank(s: StreamState) -> int {
    match s {
        StreamState::Active => 0,
        StreamState::Draining => 1,
        StreamState::Closed => 2,
    }
}

/// The control state never moves back: no step of the pump leaves a later
/// state for an earlier one.
pub proof fn law_state_forward<S: RecordSchema>(m: PumpModel, chunk: Seq<u8>)
    ensures
        rank(chunk_step::<S>(m, chunk).0.state) >= rank(m.state),
        rank(finish_step::<S>(m).0.state) >= rank(m.state),
{
}

proof fn lemma_completion_iff_end<S: RecordSchema>(f: Framing, lines: Seq<Seq<u8>>)
    ensures
        lines_completion::<S>(f, lines) is Some <==> lines_end::<S>(f, lines),
    decreases lines.len(),
{
    if lines.len() > 0 {
        lemma_completion_iff_end::<S>(f, lines.drop_last());
    }
}

/// An active pump records how the stream ended exactly when a chunk ends it
/// normally; cancellation and transport failure record nothing.
pub proof fn law_completion_marks_normal_end<S: RecordSchema>(m: PumpModel, chunk: Seq<u8>)
    requires
        m.state == StreamState::Active,
        m.completion is None,
    ensures
        (chunk_step::<S>(m, chunk).0.completion is Some) == (chunk_step::<S>(m, chunk).0.state
            == StreamState::Draining),
        finish_step::<S>(m).0.completion is None,
{
    lemma_completion_iff_end::<S>(m.framing, lines_after(m.pending, chunk));
}

} // verus!
