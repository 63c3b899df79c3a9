//! The client: requests to the service, and the events in its answers.
use super::dialect::{Dialect, SamplingEvent, SamplingEventV, SamplingRequest};
use crate::errors::{ApiError, ApiErrorV};
use crate::json::{json_text, writable};
use crate::text::{
    after_prefix, join, law_lines_end_at_newlines, law_prefix_is_taken_off, lines, same, split_lines, strip_prefix, trim_end_matches, trim_end_of,
    utf8_text, view_opt, view_res, views,
};
use vstd::prelude::*;
use vstd::utf8::*;

verus! {

// ---------------------------------------------------------------------------
// Server-sent events
// ---------------------------------------------------------------------------
/// An empty line begins at the position: two newlines stand there.
pub open spec fn gap_at(b: Seq<u8>, i: int) -> bool {
    0 <= i && i + 1 < b.len() && b[i] == 10 && b[i + 1] == 10
}

/// The position of the first two newlines in a row.
pub open spec fn gap(b: Seq<u8>) -> Option<int>
    decreases b.len(),
{
    if b.len() < 2 {
        None
    } else if gap_at(b, 0) {
        Some(0)
    } else {
        match gap(b.subrange(1, b.len() as int)) {
            Some(i) => Some(i + 1),
            None => None,
        }
    }
}

/// `gap` gives the first position with two newlines, where there is one.
pub proof fn lemma_gap(b: Seq<u8>)
    ensures
        match gap(b) {
            Some(k) => gap_at(b, k) && forall|i: int| 0 <= i < k ==> !gap_at(b, i),
            None => forall|i: int| !gap_at(b, i),
        },
    decreases b.len(),
{
    if b.len() >= 2 && !gap_at(b, 0) {
        let t = b.subrange(1, b.len() as int);
        lemma_gap(t);
        assert forall|i: int| 0 < i implies gap_at(b, i) == gap_at(t, i - 1) by {}
        match gap(t) {
            Some(k) => {
                assert(gap_at(b, k + 1));
                assert forall|i: int| 0 <= i < k + 1 implies !gap_at(b, i) by {
                    if i > 0 {
                        assert(!gap_at(t, i - 1));
                    }
                }
            },
            None => {
                assert forall|i: int| !gap_at(b, i) by {
                    if i > 0 {
                        assert(!gap_at(t, i - 1));
                    }
                }
            },
        }
    }
}

/// A position with two newlines, with none before it, is what `gap` gives.
proof fn lemma_gap_is(b: Seq<u8>, k: int)
    requires
        gap_at(b, k),
        forall|i: int| 0 <= i < k ==> !gap_at(b, i),
    ensures
        gap(b) == Some(k),
{
    lemma_gap(b);
    match gap(b) {
        Some(j) => {
            if j < k {
                assert(!gap_at(b, j));
            }
            if k < j {
                assert(!gap_at(b, k));
            }
        },
        None => {
            assert(!gap_at(b, k));
        },
    }
}

/// The complete events in some bytes: each ends at the first two newlines.
pub open spec fn frames(b: Seq<u8>) -> Seq<Seq<u8>>
    decreases b.len(),
    via frames_decreases
{
    match gap(b) {
        Some(k) => seq![b.subrange(0, k)] + frames(b.subrange(k + 2, b.len() as int)),
        None => seq![],
    }
}

#[via_fn]
proof fn frames_decreases(b: Seq<u8>) {
    lemma_gap(b);
}

/// What is left of some bytes after the complete events.
pub open spec fn leftover(b: Seq<u8>) -> Seq<u8>
    decreases b.len(),
    via leftover_decreases
{
    match gap(b) {
        Some(k) => leftover(b.subrange(k + 2, b.len() as int)),
        None => b,
    }
}

#[via_fn]
proof fn leftover_decreases(b: Seq<u8>) {
    lemma_gap(b);
}

/// The first of some lines that begins with `data: `, without that prefix.
pub open spec fn first_data(s: Seq<Seq<char>>) -> Option<Seq<char>>
    decreases s.len(),
{
    if s.len() == 0 {
        None
    } else {
        match after_prefix(s[0], "data: "@) {
            Some(x) => Some(x),
            None => first_data(s.subrange(1, s.len() as int)),
        }
    }
}

/// The data of an event, where it is text and has any.
pub open spec fn data_of(frame: Seq<u8>) -> Option<Seq<char>> {
    if valid_utf8(frame) {
        first_data(lines(decode_utf8(frame)))
    } else {
        None
    }
}

/// The data of events, in order; events without data are left out.
pub open spec fn data_of_all(s: Seq<Seq<u8>>) -> Seq<Seq<char>>
    decreases s.len(),
{
    if s.len() == 0 {
        seq![]
    } else {
        let rest = data_of_all(s.drop_last());
        match data_of(s.last()) {
            Some(x) => rest.push(x),
            None => rest,
        }
    }
}

/// The data of the complete events in some bytes.
pub open spec fn payloads(b: Seq<u8>) -> Seq<Seq<char>> {
    data_of_all(frames(b))
}

/// Cuts a stream of bytes into server-sent events. What does not make up a
/// complete event is kept until more bytes come.
pub struct SseSplitter {
    buf: Vec<u8>,
}

impl View for SseSplitter {
    type V = Seq<u8>;

    closed spec fn view(&self) -> Seq<u8> {
        self.buf@
    }
}

fn find_double_newline(buf: &Vec<u8>, from: usize) -> (r: Option<usize>)
    requires
        from <= buf@.len(),
    ensures
        match r {
            Some(k) => from <= k && k + 1 < buf@.len() && gap(
                buf@.subrange(from as int, buf@.len() as int),
            ) == Some(k - from),
            None => gap(buf@.subrange(from as int, buf@.len() as int)) is None,
        },
{
    let n: usize = buf.len();
    let ghost t = buf@.subrange(from as int, n as int);
    let mut i: usize = from;
    while i < n && n - i >= 2
        invariant
            from <= i <= n == buf@.len(),
            t == buf@.subrange(from as int, n as int),
            forall|j: int| 0 <= j < i - from ==> !gap_at(t, j),
        decreases n - i,
    {
        if buf[i] == 10 && buf[i + 1] == 10 {
            proof {
                lemma_gap_is(t, i - from);
            }
            return Some(i);
        }
        assert(!gap_at(t, i - from));
        i = i + 1;
    }
    proof {
        lemma_gap(t);
        match gap(t) {
            Some(k) => {
                assert(gap_at(t, k));
                assert(k + 1 < t.len());
            },
            None => {},
        }
    }
    None
}

fn extract_data(frame: Vec<u8>) -> (r: Option<String>)
    ensures
        view_opt(r) == data_of(frame@),
{
    match utf8_text(frame) {
        Ok(text) => {
            let rows = split_lines(text.as_str());
            let ghost all = views(rows@);
            let mut i: usize = 0;
            assert(all.subrange(0, all.len() as int) =~= all);
            while i < rows.len()
                invariant
                    i <= rows@.len(),
                    all == views(rows@),
                    all == lines(decode_utf8(frame@)),
                    valid_utf8(frame@),
                    first_data(all) == first_data(all.subrange(i as int, all.len() as int)),
                decreases rows@.len() - i,
            {
                let ghost rest = all.subrange(i as int, all.len() as int);
                assert(rest[0] == rows@[i as int]@);
                match strip_prefix(rows[i].as_str(), "data: ") {
                    Some(x) => {
                        return Some(x);
                    },
                    None => {},
                }
                assert(rest.subrange(1, rest.len() as int) =~= all.subrange(
                    i + 1,
                    all.len() as int,
                ));
                i = i + 1;
            }
            None
        },
        Err(_) => None,
    }
}

fn copy_bytes(v: &Vec<u8>, from: usize, to: usize) -> (r: Vec<u8>)
    requires
        from <= to <= v@.len(),
    ensures
        r@ == v@.subrange(from as int, to as int),
{
    let mut out: Vec<u8> = Vec::new();
    let mut i: usize = from;
    while i < to
        invariant
            from <= i <= to <= v@.len(),
            out@ == v@.subrange(from as int, i as int),
        decreases to - i,
    {
        out.push(v[i]);
        assert(v@.subrange(from as int, i + 1) =~= v@.subrange(from as int, i as int).push(
            v@[i as int],
        ));
        i = i + 1;
    }
    out
}

/// The data of a longer list of events is that of the shorter one and, where
/// the last event has any, its data.
proof fn lemma_data_concat(a: Seq<Seq<u8>>, b: Seq<Seq<u8>>)
    ensures
        data_of_all(a + b) == data_of_all(a) + data_of_all(b),
    decreases b.len(),
{
    if b.len() == 0 {
        assert(a + b =~= a);
        assert(data_of_all(a) + data_of_all(b) =~= data_of_all(a));
    } else {
        lemma_data_concat(a, b.drop_last());
        assert((a + b).drop_last() =~= a + b.drop_last());
        assert((a + b).last() == b.last());
        match data_of(b.last()) {
            Some(x) => {
                let d = data_of_all(b.drop_last());
                assert((data_of_all(a) + d).push(x) =~= data_of_all(a) + d.push(x));
            },
            None => {},
        }
    }
}

proof fn lemma_one_data(f: Seq<u8>)
    ensures
        data_of_all(seq![f]) == (match data_of(f) {
            Some(x) => seq![x],
            None => seq![],
        }),
{
    assert(seq![f].drop_last() =~= Seq::<Seq<u8>>::empty());
    assert(data_of_all(Seq::<Seq<u8>>::empty()) =~= Seq::<Seq<char>>::empty());
}

impl SseSplitter {
    /// A splitter that has seen no bytes.
    pub fn new() -> (r: SseSplitter)
        ensures
            r@ == Seq::<u8>::empty(),
    {
        SseSplitter { buf: Vec::new() }
    }

    /// Takes more bytes, and gives the data of the events that are complete
    /// now.
    pub fn feed(&mut self, chunk: &[u8]) -> (r: Vec<String>)
        ensures
            views(r@) == payloads(old(self)@ + chunk@),
            final(self)@ == leftover(old(self)@ + chunk@),
    {
        let mut all: Vec<u8> = copy_bytes(&self.buf, 0, self.buf.len());
        let mut i: usize = 0;
        assert(self.buf@.subrange(0, self.buf@.len() as int) =~= self.buf@);
        assert(self@ + chunk@.subrange(0, 0) =~= self@);
        let ghost start = self@;
        while i < chunk.len()
            invariant
                i <= chunk@.len(),
                all@ == start + chunk@.subrange(0, i as int),
            decreases chunk@.len() - i,
        {
            all.push(chunk[i]);
            assert(chunk@.subrange(0, i + 1) =~= chunk@.subrange(0, i as int).push(
                chunk@[i as int],
            ));
            assert(start + chunk@.subrange(0, i + 1) =~= (start + chunk@.subrange(
                0,
                i as int,
            )).push(chunk@[i as int]));
            i = i + 1;
        }
        assert(chunk@.subrange(0, i as int) =~= chunk@);
        let n: usize = all.len();
        let mut events: Vec<String> = Vec::new();
        let mut from: usize = 0;
        assert(all@.subrange(0, n as int) =~= all@);
        assert(views(events@) + payloads(all@) =~= payloads(all@));
        loop
            invariant
                from <= n == all@.len(),
                views(events@) + payloads(all@.subrange(from as int, n as int)) == payloads(all@),
                leftover(all@.subrange(from as int, n as int)) == leftover(all@),
            ensures
                from <= n,
                gap(all@.subrange(from as int, n as int)) is None,
                views(events@) + payloads(all@.subrange(from as int, n as int)) == payloads(all@),
                leftover(all@.subrange(from as int, n as int)) == leftover(all@),
            decreases n - from,
        {
            let ghost t = all@.subrange(from as int, n as int);
            match find_double_newline(&all, from) {
                Some(k) => {
                    let frame = copy_bytes(&all, from, k);
                    let ghost known = views(events@);
                    let ghost rest = all@.subrange(k + 2, n as int);
                    proof {
                        lemma_gap(t);
                        assert(t.subrange(0, k - from) =~= frame@);
                        assert(t.subrange(k - from + 2, t.len() as int) =~= rest);
                        lemma_data_concat(seq![frame@], frames(rest));
                        lemma_one_data(frame@);
                    }
                    match extract_data(frame) {
                        Some(x) => {
                            events.push(x);
                            proof {
                                assert(views(events@) =~= known.push(x@));
                                assert(known + (seq![x@] + payloads(rest)) =~= known.push(x@)
                                    + payloads(rest));
                            }
                        },
                        None => {
                            assert(Seq::<Seq<char>>::empty() + payloads(rest) =~= payloads(rest));
                        },
                    }
                    from = k + 2;
                },
                None => {
                    break;
                },
            }
        }
        proof {
            let t = all@.subrange(from as int, n as int);
            assert(payloads(t) =~= Seq::<Seq<char>>::empty());
            assert(views(events@) + payloads(t) =~= views(events@));
        }
        self.buf = copy_bytes(&all, from, n);
        events
    }
}

impl Default for SseSplitter {
    fn default() -> (r: SseSplitter)
        ensures
            r@ == Seq::<u8>::empty(),
    {
        SseSplitter::new()
    }
}

proof fn lemma_frames_concat(x: Seq<u8>, y: Seq<u8>)
    ensures
        frames(x + y) == frames(x) + frames(leftover(x) + y),
        leftover(x + y) == leftover(leftover(x) + y),
    decreases x.len(),
{
    lemma_gap(x);
    match gap(x) {
        Some(k) => {
            let rest = x.subrange(k + 2, x.len() as int);
            assert(gap_at(x + y, k));
            assert forall|i: int| 0 <= i < k implies !gap_at(x + y, i) by {
                assert(!gap_at(x, i));
            }
            lemma_gap_is(x + y, k);
            assert((x + y).subrange(0, k) =~= x.subrange(0, k));
            assert((x + y).subrange(k + 2, (x + y).len() as int) =~= rest + y);
            lemma_frames_concat(rest, y);
            let h = seq![x.subrange(0, k)];
            assert(h + (frames(rest) + frames(leftover(rest) + y)) =~= (h + frames(rest)) + frames(
                leftover(rest) + y,
            ));
        },
        None => {
            assert(frames(x) + frames(x + y) =~= frames(x + y));
        },
    }
}

/// How the bytes of a stream are cut into chunks does not matter: two chunks
/// give the same data, and leave the same bytes, as both in one.
pub proof fn law_chunks_do_not_matter(buf: Seq<u8>, a: Seq<u8>, b: Seq<u8>)
    ensures
        payloads(buf + (a + b)) == payloads(buf + a) + payloads(leftover(buf + a) + b),
        leftover(buf + (a + b)) == leftover(leftover(buf + a) + b),
{
    assert(buf + (a + b) =~= (buf + a) + b);
    lemma_frames_concat(buf + a, b);
    lemma_data_concat(frames(buf + a), frames(leftover(buf + a) + b));
}

// ---------------------------------------------------------------------------
// The events of an answer
// ---------------------------------------------------------------------------
/// What a stream of events hands on.
pub open spec fn view_items(s: Seq<Result<SamplingEvent, ApiError>>) -> Seq<
    Result<SamplingEventV, ApiErrorV>,
> {
    s.map_values(|r: Result<SamplingEvent, ApiError>| view_res(r))
}

/// What the data of one event hands on: its events, or the error.
pub open spec fn items_of(r: Result<Seq<SamplingEventV>, ApiErrorV>) -> Seq<
    Result<SamplingEventV, ApiErrorV>,
> {
    match r {
        Ok(evs) => evs.map_values(|e: SamplingEventV| Ok::<SamplingEventV, ApiErrorV>(e)),
        Err(e) => seq![Err(e)],
    }
}

/// What the data of several events hands on, up to the data that ends the
/// stream; and whether that was among it.
pub open spec fn interpreted<D: Dialect>(d: D, s: Seq<Seq<char>>) -> (
    Seq<Result<SamplingEventV, ApiErrorV>>,
    bool,
)
    decreases s.len(),
{
    if s.len() == 0 {
        (seq![], false)
    } else {
        let rest = interpreted(d, s.drop_last());
        if rest.1 {
            rest
        } else if d.sentinel() == Some(s.last()) {
            (rest.0, true)
        } else {
            (rest.0 + items_of(d.events(s.last())), false)
        }
    }
}

/// Turns the bytes of an answer into events.
pub struct EventStream<D: Dialect> {
    pub dialect: D,
    pub splitter: SseSplitter,
    pub finished: bool,
}

impl<D: Dialect> EventStream<D> {
    /// The events of an answer that has not begun.
    pub fn new(dialect: D) -> (r: EventStream<D>)
        ensures
            r.dialect == dialect,
            r.splitter@ == Seq::<u8>::empty(),
            !r.finished,
    {
        EventStream { dialect, splitter: SseSplitter::new(), finished: false }
    }

    /// Takes the next bytes of the answer, or the error that broke it off, and
    /// gives what is handed on. The stream ends with an error of the network
    /// and with the data that the dialect ends it with; data that cannot be
    /// read does not end it.
    pub fn step(&mut self, chunk: Result<Vec<u8>, String>) -> (r: Vec<
        Result<SamplingEvent, ApiError>,
    >)
        requires
            !old(self).finished,
        ensures
            final(self).dialect == old(self).dialect,
            match chunk {
                Ok(bytes) => (view_items(r@), final(self).splitter@, final(self).finished)
                    == stepped(old(self).dialect, old(self).splitter@, bytes@),
                Err(e) => {
                    &&& view_items(r@) == seq![
                        Err::<SamplingEventV, ApiErrorV>(ApiErrorV::Network(e@)),
                    ]
                    &&& final(self).finished
                    &&& final(self).splitter@ == old(self).splitter@
                },
            },
    {
        let mut out: Vec<Result<SamplingEvent, ApiError>> = Vec::new();
        match chunk {
            Err(e) => {
                self.finished = true;
                let item: Result<SamplingEvent, ApiError> = Err(ApiError::Network(e));
                out.push(item);
                assert(view_items(out@) =~= seq![view_res(item)]);
            },
            Ok(bytes) => {
                let found = self.splitter.feed(bytes.as_slice());
                let ghost all = views(found@);
                let mut i: usize = 0;
                proof {
                    assert(all.subrange(0, 0) =~= Seq::<Seq<char>>::empty());
                    assert(view_items(out@) =~= Seq::<
                        Result<SamplingEventV, ApiErrorV>,
                    >::empty());
                }
                let ghost d = self.dialect;
                while i < found.len()
                    invariant
                        i <= found@.len(),
                        all == views(found@),
                        d == self.dialect,
                        interpreted(d, all.subrange(0, i as int)) == (view_items(out@), false),
                        !self.finished,
                        self.splitter@ == leftover(old(self).splitter@ + bytes@),
                        all == payloads(old(self).splitter@ + bytes@),
                        d == old(self).dialect,
                        chunk == Ok::<Vec<u8>, String>(bytes),
                    decreases found@.len() - i,
                {
                    let p = found[i].as_str();
                    proof {
                        let pre = all.subrange(0, i + 1);
                        assert(pre.drop_last() =~= all.subrange(0, i as int));
                        assert(pre.last() == p@);
                    }
                    let ended = match self.dialect.done_sentinel() {
                        Some(s) => same(p, s),
                        None => false,
                    };
                    if ended {
                        proof {
                            lemma_interpreted_ended(d, all, i + 1);
                        }
                        self.finished = true;
                        return out;
                    }
                    let ghost known = view_items(out@);
                    match self.dialect.parse_chunk(p) {
                        Ok(evs) => {
                            push_events(&mut out, evs);
                        },
                        Err(e) => {
                            let item: Result<SamplingEvent, ApiError> = Err(e);
                            out.push(item);
                            assert(view_items(out@) =~= known + seq![view_res(item)]);
                        },
                    }
                    i = i + 1;
                }
                assert(all.subrange(0, i as int) =~= all);
            },
        }
        out
    }
}

fn push_events(out: &mut Vec<Result<SamplingEvent, ApiError>>, evs: Vec<SamplingEvent>)
    ensures
        view_items(final(out)@) == view_items(old(out)@) + items_of(
            Ok::<Seq<SamplingEventV>, ApiErrorV>(views(evs@)),
        ),
{
    let ghost start = view_items(out@);
    let ghost all = evs@;
    let ghost items = items_of(Ok::<Seq<SamplingEventV>, ApiErrorV>(views(all)));
    assert(start + items.subrange(0, 0) =~= start);
    for ev in iter: evs
        invariant
            iter.seq() == all,
            items == items_of(Ok::<Seq<SamplingEventV>, ApiErrorV>(views(all))),
            view_items(out@) == start + items.subrange(0, iter.index()),
    {
        let ghost k = iter.index();
        let ghost known = view_items(out@);
        let item: Result<SamplingEvent, ApiError> = Ok(ev);
        proof {
            assert(items[k] == view_res(item));
            assert((start + items.subrange(0, k)).push(items[k]) =~= start + items.subrange(
                0,
                k + 1,
            ));
        }
        out.push(item);
        assert(view_items(out@) =~= known.push(view_res(item)));
    }
    assert(items.subrange(0, items.len() as int) =~= items);
}

/// What one more chunk gives, what is left over then, and whether the stream has
/// ended.
pub open spec fn stepped<D: Dialect>(d: D, buf: Seq<u8>, chunk: Seq<u8>) -> (
    Seq<Result<SamplingEventV, ApiErrorV>>,
    Seq<u8>,
    bool,
) {
    let result = interpreted(d, payloads(buf + chunk));
    (result.0, leftover(buf + chunk), result.1)
}

/// Once the stream has ended, later data changes nothing.
proof fn lemma_interpreted_ended<D: Dialect>(d: D, s: Seq<Seq<char>>, k: int)
    requires
        0 <= k <= s.len(),
        interpreted(d, s.subrange(0, k)).1,
    ensures
        interpreted(d, s) == interpreted(d, s.subrange(0, k)),
    decreases s.len(),
{
    if k == s.len() {
        assert(s.subrange(0, k) =~= s);
    } else {
        assert(s.drop_last().subrange(0, k) =~= s.subrange(0, k));
        lemma_interpreted_ended(d, s.drop_last(), k);
    }
}

proof fn lemma_interpreted_concat<D: Dialect>(d: D, a: Seq<Seq<char>>, b: Seq<Seq<char>>)
    requires
        !interpreted(d, a).1,
    ensures
        interpreted(d, a + b) == (interpreted(d, a).0 + interpreted(d, b).0, interpreted(d, b).1),
    decreases b.len(),
{
    if b.len() == 0 {
        assert(a + b =~= a);
        assert(interpreted(d, a).0 + interpreted(d, b).0 =~= interpreted(d, a).0);
    } else {
        lemma_interpreted_concat(d, a, b.drop_last());
        assert((a + b).drop_last() =~= a + b.drop_last());
        assert((a + b).last() == b.last());
        let x = interpreted(d, a).0;
        let y = interpreted(d, b.drop_last()).0;
        let z = items_of(d.events(b.last()));
        assert((x + y) + z =~= x + (y + z));
    }
}

/// How the bytes of an answer are cut into chunks does not matter for its
/// events: where the first of two chunks does not end the stream, both together
/// hand on what the first and then the second hand on.
pub proof fn law_events_do_not_depend_on_chunks<D: Dialect>(
    d: D,
    buf: Seq<u8>,
    a: Seq<u8>,
    b: Seq<u8>,
)
    ensures
        !interpreted(d, payloads(buf + a)).1 ==> interpreted(d, payloads(buf + (a + b))) == (
            interpreted(d, payloads(buf + a)).0 + interpreted(
                d,
                payloads(leftover(buf + a) + b),
            ).0,
            interpreted(d, payloads(leftover(buf + a) + b)).1,
        ),
        interpreted(d, payloads(buf + a)).1 ==> interpreted(d, payloads(buf + (a + b)))
            == interpreted(d, payloads(buf + a)),
{
    law_chunks_do_not_matter(buf, a, b);
    let p = payloads(buf + a);
    let q = payloads(leftover(buf + a) + b);
    if !interpreted(d, p).1 {
        lemma_interpreted_concat(d, p, q);
    } else {
        assert((p + q).subrange(0, p.len() as int) =~= p);
        lemma_interpreted_ended(d, p + q, p.len() as int);
    }
}

// ---------------------------------------------------------------------------
// Requests
// ---------------------------------------------------------------------------
/// A request to the service: its address, the key that it is sent with, and
/// its body.
#[derive(Debug)]
pub struct HttpRequest {
    pub url: String,
    pub bearer: String,
    pub body: String,
}

/// The address of a service below a base address.
pub open spec fn address(base: Seq<char>, endpoint: Seq<char>) -> Seq<char> {
    trim_end_of(base, '/') + endpoint
}

/// What the status of an answer says.
#[derive(Copy, Clone, Debug, PartialEq, Eq, Structural)]
pub enum Reply {
    /// The answer follows as a stream of events.
    Accepted,
    /// Too many requests were sent.
    RateLimited,
    /// The request was refused; the answer says why.
    Refused,
}

/// The error that a reply stands for, given its status and its body, where that
/// can be read.
pub open spec fn reply_failure(status: u16, body: Option<Seq<char>>) -> Option<ApiErrorV> {
    match reply_of(status) {
        Reply::Accepted => None,
        Reply::RateLimited => Some(ApiErrorV::RateLimit),
        Reply::Refused => Some(
            ApiErrorV::Http {
                status,
                body: match body {
                    Some(s) => s,
                    None => seq![],
                },
            },
        ),
    }
}

/// What a status says: 429 is too many requests, and 200 to 299 is success.
pub open spec fn reply_of(status: u16) -> Reply {
    if status == 429 {
        Reply::RateLimited
    } else if 200 <= status < 300 {
        Reply::Accepted
    } else {
        Reply::Refused
    }
}

/// The client of a service, which speaks a dialect.
pub struct SamplingClient<D: Dialect> {
    pub api_key: String,
    pub base_url: String,
    pub dialect: D,
}

impl<D: Dialect> SamplingClient<D> {
    /// The client of a service.
    pub fn new(api_key: String, base_url: String, dialect: D) -> (r: SamplingClient<D>)
        ensures
            r.api_key@ == api_key@,
            r.base_url@ == base_url@,
            r.dialect == dialect,
    {
        SamplingClient { api_key, base_url, dialect }
    }

    /// The request that asks the model. It fails where the dialect cannot
    /// shape it, or where an object in the schema of a tool has a key twice.
    pub fn stream(&self, req: &SamplingRequest) -> (r: Result<HttpRequest, ApiError>)
        ensures
            match self.dialect.body(req@) {
                Err(e) => r is Err && r->Err_0@ == e,
                Ok(body) => if writable(body) {
                    &&& r is Ok
                    &&& r->Ok_0.url@ == address(self.base_url@, self.dialect.endpoint())
                    &&& r->Ok_0.bearer@ == self.api_key@
                    &&& r->Ok_0.body@ == json_text(body)
                } else {
                    r is Err && r->Err_0@ == ApiErrorV::BadJson("invalid tool schema"@)
                },
            },
    {
        let body = match self.dialect.build_body(req) {
            Ok(b) => b,
            Err(e) => {
                return Err(e);
            },
        };
        match body.to_text() {
            Some(text) => {
                let base = trim_end_matches(self.base_url.as_str(), '/');
                let url = join(base.as_str(), self.dialect.endpoint_path());
                Ok(HttpRequest { url, bearer: self.api_key.clone(), body: text })
            },
            None => Err(ApiError::BadJson("invalid tool schema".to_owned())),
        }
    }

    /// The events of the answer to a request, which is read in the dialect that
    /// shaped the request.
    pub fn events(&self) -> (r: EventStream<D>) where D: Copy
        ensures
            r.dialect == self.dialect,
            r.splitter@ == Seq::<u8>::empty(),
            !r.finished,
    {
        EventStream::new(self.dialect)
    }

    /// What the status of an answer says.
    pub fn reply(status: u16) -> (r: Reply)
        ensures
            r == reply_of(status),
    {
        if status == 429 {
            Reply::RateLimited
        } else if 200 <= status && status < 300 {
            Reply::Accepted
        } else {
            Reply::Refused
        }
    }

    /// The error of an answer that brings no events; `body` is what it says,
    /// where that could be read.
    pub fn reply_error(status: u16, body: Option<String>) -> (r: Option<ApiError>)
        ensures
            view_opt(r) == reply_failure(status, view_opt(body)),
    {
        match Self::reply(status) {
            Reply::Accepted => None,
            Reply::RateLimited => Some(ApiError::RateLimit),
            Reply::Refused => Some(
                ApiError::Http {
                    status,
                    body: match body {
                        Some(s) => s,
                        None => String::new(),
                    },
                },
            ),
        }
    }
}

// ---------------------------------------------------------------------------
// What holds of streams and addresses
// ---------------------------------------------------------------------------
/// No two newlines stand in a row, also with one more newline behind.
pub open spec fn one_frame(f: Seq<u8>) -> bool {
    forall|i: int|
        0 <= i < f.len() ==> !((#[trigger] f[i]) == 10 && (i + 1 == f.len() || f[i + 1] == 10))
}

/// A frame ends at two newlines and nowhere else: what comes behind is framed by
/// itself, and without two newlines there is no frame, and all is left over.
pub proof fn law_frames_end_at_two_newlines(f: Seq<u8>, rest: Seq<u8>)
    requires
        one_frame(f),
    ensures
        frames(f + seq![10u8, 10u8] + rest) == seq![f] + frames(rest),
        leftover(f + seq![10u8, 10u8] + rest) == leftover(rest),
        frames(f) == Seq::<Seq<u8>>::empty(),
        leftover(f) == f,
{
    let b = f + seq![10u8, 10u8] + rest;
    let k = f.len() as int;
    assert(gap_at(b, k));
    assert forall|i: int| 0 <= i < k implies !gap_at(b, i) by {
        assert(b[i] == f[i]);
        if i + 1 < k {
            assert(b[i + 1] == f[i + 1]);
        }
    }
    lemma_gap_is(b, k);
    assert(b.subrange(0, k) =~= f);
    assert(b.subrange(k + 2, b.len() as int) =~= rest);
    lemma_gap(f);
    match gap(f) {
        Some(i) => {
            assert(f[i] == 10 && f[i + 1] == 10);
        },
        None => {},
    }
}

/// The data of a frame is what stands behind `data: ` in the first line that
/// begins so.
pub proof fn law_data_is_in_the_first_data_line(
    line: Seq<char>,
    x: Seq<char>,
    rest: Seq<Seq<char>>,
)
    ensures
        first_data(seq!["data: "@ + x] + rest) == Some(x),
        !"data: "@.is_prefix_of(line) ==> first_data(seq![line] + rest) == first_data(rest),
        first_data(seq![]) is None,
{
    let a = seq!["data: "@ + x] + rest;
    law_prefix_is_taken_off(line, "data: "@, x);
    assert(a[0] == "data: "@ + x);
    let b = seq![line] + rest;
    assert(b[0] == line);
    assert(b.subrange(1, b.len() as int) =~= rest);
}

/// A frame that is no text carries no data; else its data is that of its lines.
pub proof fn law_only_text_carries_data(frame: Seq<u8>)
    ensures
        !valid_utf8(frame) ==> data_of(frame) is None,
        valid_utf8(frame) ==> data_of(frame) == first_data(lines(decode_utf8(frame))),
{
}

/// Each frame with data gives that data, one after the other, and a frame without
/// gives none.
pub proof fn law_frames_give_their_data_in_order(f: Seq<u8>, rest: Seq<u8>)
    requires
        one_frame(f),
    ensures
        payloads(f + seq![10u8, 10u8] + rest) == (match data_of(f) {
            Some(x) => seq![x],
            None => seq![],
        }) + payloads(rest),
        payloads(f) == Seq::<Seq<char>>::empty(),
{
    law_frames_end_at_two_newlines(f, rest);
    lemma_data_concat(seq![f], frames(rest));
    let one = seq![f];
    assert(one.drop_last() =~= Seq::<Seq<u8>>::empty());
    assert(data_of_all(one.drop_last()) =~= Seq::<Seq<char>>::empty());
    match data_of(f) {
        Some(x) => {
            assert(data_of_all(one) =~= seq![x]);
        },
        None => {
            assert(data_of_all(one) =~= Seq::<Seq<char>>::empty());
        },
    }
}

/// A frame of one line of data gives exactly that data.
pub proof fn law_one_line_of_data_is_read(f: Seq<u8>, x: Seq<char>, rest: Seq<u8>)
    requires
        one_frame(f),
        valid_utf8(f),
        decode_utf8(f) == "data: "@ + x,
        !x.contains('\n'),
    ensures
        payloads(f + seq![10u8, 10u8] + rest) == seq![x] + payloads(rest),
{
    law_frames_give_their_data_in_order(f, rest);
    reveal_strlit("data: ");
    let text = "data: "@ + x;
    assert forall|i: int| 0 <= i < text.len() implies text[i] != '\n' by {
        if i >= 6 {
            assert(text[i] == x[i - 6]);
            assert(x.contains(x[i - 6]));
        }
    }
    law_lines_end_at_newlines(text, seq![]);
    assert(seq![text] + Seq::<Seq<char>>::empty() =~= seq![text]);
    law_data_is_in_the_first_data_line(text, x, seq![]);
}

/// The data is read one after the other: each gives its events in order, or the
/// one error of reading it; what marks the end gives nothing, and nothing is read
/// after it.
pub proof fn law_data_is_read_in_order<D: Dialect>(d: D, s: Seq<Seq<char>>, x: Seq<char>)
    ensures
        interpreted(d, seq![]) == (Seq::<Result<SamplingEventV, ApiErrorV>>::empty(), false),
        ({
            let before = interpreted(d, s);
            let after = interpreted(d, s.push(x));
            &&& before.1 ==> after == before
            &&& !before.1 && d.sentinel() == Some(x) ==> after == (before.0, true)
            &&& !before.1 && d.sentinel() != Some(x) ==> {
                &&& !after.1
                &&& match d.events(x) {
                    Ok(evs) => {
                        &&& after.0.len() == before.0.len() + evs.len()
                        &&& before.0.is_prefix_of(after.0)
                        &&& forall|i: int|
                            0 <= i < evs.len() ==> after.0[before.0.len() + i] == Ok::<
                                SamplingEventV,
                                ApiErrorV,
                            >(#[trigger] evs[i])
                    },
                    Err(e) => after.0 == before.0.push(Err(e)),
                }
            }
        }),
{
    assert(s.push(x).drop_last() =~= s);
    let before = interpreted(d, s);
    match d.events(x) {
        Err(e) => {
            assert(before.0 + seq![Err::<SamplingEventV, ApiErrorV>(e)] =~= before.0.push(Err(e)));
        },
        Ok(evs) => {
            let added = before.0 + items_of(d.events(x));
            assert(added.subrange(0, before.0.len() as int) =~= before.0);
        },
    }
}

/// The address is the base address without slashes at its end, and the path.
pub proof fn law_address_is_base_and_path(base: Seq<char>, endpoint: Seq<char>)
    ensures
        base.len() == 0 || base.last() != '/' ==> address(base, endpoint) == base + endpoint,
        address(base.push('/'), endpoint) == address(base, endpoint),
{
    assert(base.push('/').drop_last() =~= base);
}

/// The service accepts with a status from 200 to 299, limits the rate with 429,
/// and refuses with any other.
pub proof fn law_status_tells_the_reply(status: u16)
    ensures
        200 <= status <= 299 <==> reply_of(status) == Reply::Accepted,
        status == 429 <==> reply_of(status) == Reply::RateLimited,
        (status < 200 || status > 299) && status != 429 <==> reply_of(status) == Reply::Refused,
{
}

/// The bytes of the chunks, one behind the other.
pub open spec fn all_bytes(chunks: Seq<Seq<u8>>) -> Seq<u8>
    decreases chunks.len(),
{
    if chunks.len() == 0 {
        seq![]
    } else {
        all_bytes(chunks.drop_last()) + chunks.last()
    }
}

/// What a stream has given once the chunks have come one by one, what is left
/// over of them, and whether it has ended.
pub open spec fn fed<D: Dialect>(d: D, chunks: Seq<Seq<u8>>) -> (
    Seq<Result<SamplingEventV, ApiErrorV>>,
    Seq<u8>,
    bool,
)
    decreases chunks.len(),
{
    if chunks.len() == 0 {
        (seq![], seq![], false)
    } else {
        let before = fed(d, chunks.drop_last());
        if before.2 {
            before
        } else {
            let after = stepped(d, before.1, chunks.last());
            (before.0 + after.0, after.1, after.2)
        }
    }
}

/// However the bytes of an answer are cut into chunks, the stream gives the
/// events of all of them, in order.
pub proof fn law_streams_give_all_events<D: Dialect>(d: D, chunks: Seq<Seq<u8>>)
    ensures
        fed(d, chunks).0 == interpreted(d, payloads(all_bytes(chunks))).0,
        fed(d, chunks).2 == interpreted(d, payloads(all_bytes(chunks))).1,
        !fed(d, chunks).2 ==> fed(d, chunks).1 == leftover(all_bytes(chunks)),
    decreases chunks.len(),
{
    let none = Seq::<u8>::empty();
    if chunks.len() == 0 {
        lemma_gap(none);
        assert(frames(none) =~= Seq::<Seq<u8>>::empty());
    } else {
        let a = all_bytes(chunks.drop_last());
        let b = chunks.last();
        law_streams_give_all_events(d, chunks.drop_last());
        law_events_do_not_depend_on_chunks(d, none, a, b);
        law_chunks_do_not_matter(none, a, b);
        assert(none + a =~= a);
        assert(none + (a + b) =~= a + b);
    }
}

/// A reply that is not accepted is an error: a rate limit by itself, and any other
/// with its status and its body, which is empty where it cannot be read.
pub proof fn law_refusals_are_errors(status: u16, body: Seq<char>)
    ensures
        200 <= status <= 299 ==> reply_failure(status, Some(body)) is None,
        status == 429 ==> reply_failure(status, Some(body)) == Some(ApiErrorV::RateLimit),
        (status < 200 || status > 299) && status != 429 ==> {
            &&& reply_failure(status, Some(body)) == Some(ApiErrorV::Http { status, body })
            &&& reply_failure(status, None) == Some(ApiErrorV::Http { status, body: seq![] })
        },
{
}

} // verus!
