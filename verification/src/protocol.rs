//! The batch retry-and-split protocol of the translation engine.
//!
//! A batch of indexed texts is sent to the model as one JSON object. The
//! protocol is a state machine: the caller asks for the current request,
//! performs the call, and feeds the reply (or the failure) back. The
//! machine walks three stages — the full batch up to three attempts, then
//! binary splits up to three levels with three attempts per chunk, then a
//! per-item fallback with two attempts that keeps the source text when the
//! model never complies. It therefore always ends with one text per index.

use vstd::prelude::*;
use vstd::string::*;
use crate::validate::{parse_and_validate, spec_parse_validate, spec_strings_view};

verus! {

/// One unit of batch work: a stable subtitle index and its text.
#[derive(Debug, PartialEq, Eq)]
pub struct BatchItem {
    pub index: u64,
    pub text: String,
}

/// Where the protocol stands.
#[derive(Debug, PartialEq, Eq)]
pub enum ProtocolPhase {
    /// Whole batch, `attempt` failures so far (three allowed).
    Full { attempt: u8 },
    /// Chunked batch: `chunks` tile the item positions; `cur` is the chunk
    /// being tried, `retry` its failures so far (three allowed); `depth`
    /// counts the splits taken (three allowed); `failed` records that an
    /// earlier chunk ran out of attempts.
    Split { depth: u8, chunks: Vec<(usize, usize)>, cur: usize, retry: u8, failed: bool },
    /// Item-by-item fallback at position `pos`, `attempt` failures so far
    /// (two allowed).
    Single { pos: usize, attempt: u8 },
    /// Every position carries a result.
    Done,
}

/// `chunks` tile the positions `[s, e)` contiguously with nonempty ranges.
pub open spec fn spec_chunks_chain(chunks: Seq<(usize, usize)>, s: int, e: int) -> bool
    decreases chunks.len(),
{
    if chunks.len() == 0 {
        s == e
    } else {
        &&& chunks[0].0 == s
        &&& s < chunks[0].1
        &&& spec_chunks_chain(chunks.drop_first(), chunks[0].1 as int, e)
    }
}

/// Halve every chunk that holds more than one position.
pub open spec fn spec_split_all(chunks: Seq<(usize, usize)>) -> Seq<(usize, usize)>
    decreases chunks.len(),
{
    if chunks.len() == 0 {
        Seq::empty()
    } else {
        let c = chunks[0];
        let head: Seq<(usize, usize)> = if c.1 - c.0 > 1 {
            seq![(c.0, ((c.0 + (c.1 - c.0) / 2) as usize)), ((((c.0 + (c.1 - c.0) / 2) as usize)), c.1)]
        } else {
            seq![c]
        };
        head + spec_split_all(chunks.drop_first())
    }
}

/// Does any chunk hold more than one position?
pub open spec fn spec_any_splittable(chunks: Seq<(usize, usize)>) -> bool {
    exists|i: int| 0 <= i < chunks.len() && (#[trigger] chunks[i]).1 - chunks[i].0 > 1
}

/// Bounds that follow from a chunk chain: every range is nonempty, lies in
/// `[s, e)`, ranges are contiguous, and the last one ends at `e`.
pub proof fn lemma_chain_bounds(chunks: Seq<(usize, usize)>, s: int, e: int)
    requires
        spec_chunks_chain(chunks, s, e),
    ensures
        forall|i: int|
            0 <= i < chunks.len() ==> s <= (#[trigger] chunks[i]).0 < chunks[i].1 <= e,
        forall|i: int|
            0 <= i < chunks.len() - 1 ==> (#[trigger] chunks[i]).1 == chunks[i + 1].0,
        chunks.len() > 0 ==> chunks.last().1 == e && chunks[0].0 == s,
        chunks.len() == 0 ==> s == e,
        s <= e,
    decreases chunks.len(),
{
    if chunks.len() > 0 {
        lemma_chain_bounds(chunks.drop_first(), chunks[0].1 as int, e);
        assert forall|i: int|
            0 <= i < chunks.len() implies s <= (#[trigger] chunks[i]).0 < chunks[i].1 <= e by {
            if i > 0 {
                assert(chunks[i] == chunks.drop_first()[i - 1]);
            }
        }
        assert forall|i: int|
            0 <= i < chunks.len() - 1 implies (#[trigger] chunks[i]).1 == chunks[i + 1].0 by {
            if i == 0 {
                assert(chunks.drop_first()[0] == chunks[1]);
            } else {
                assert(chunks[i] == chunks.drop_first()[i - 1]);
                assert(chunks[i + 1] == chunks.drop_first()[i]);
            }
        }
        if chunks.len() == 1 {
            assert(chunks.last() == chunks[0]);
        } else {
            assert(chunks.last() == chunks.drop_first().last());
        }
    }
}

proof fn lemma_chain_concat(a: Seq<(usize, usize)>, b: Seq<(usize, usize)>, s: int, m: int, e: int)
    requires
        spec_chunks_chain(a, s, m),
        spec_chunks_chain(b, m, e),
    ensures
        spec_chunks_chain(a + b, s, e),
    decreases a.len(),
{
    if a.len() == 0 {
        assert(a + b =~= b);
    } else {
        lemma_chain_concat(a.drop_first(), b, a[0].1 as int, m, e);
        assert((a + b)[0] == a[0]);
        assert((a + b).drop_first() =~= a.drop_first() + b);
    }
}

/// Splitting preserves the chain.
pub proof fn lemma_split_all_chain(chunks: Seq<(usize, usize)>, s: int, e: int)
    requires
        spec_chunks_chain(chunks, s, e),
    ensures
        spec_chunks_chain(spec_split_all(chunks), s, e),
        chunks.len() > 0 ==> spec_split_all(chunks).len() > 0,
    decreases chunks.len(),
{
    if chunks.len() > 0 {
        let c = chunks[0];
        lemma_split_all_chain(chunks.drop_first(), c.1 as int, e);
        if c.1 - c.0 > 1 {
            let mid = ((c.0 + (c.1 - c.0) / 2) as usize);
            assert(c.0 < mid < c.1);
            assert(spec_chunks_chain(seq![(c.0, mid), (mid, c.1)], s, c.1 as int)) by {
                assert(c.0 < mid < c.1);
                assert(seq![(c.0, mid), (mid, c.1)].drop_first() =~= seq![(mid, c.1)]);
                assert(seq![(mid, c.1)].drop_first() =~= Seq::<(usize, usize)>::empty());
                assert(spec_chunks_chain(Seq::<(usize, usize)>::empty(), c.1 as int, c.1 as int));
                assert(spec_chunks_chain(seq![(mid, c.1)], mid as int, c.1 as int));
            }
            lemma_chain_concat(
                seq![(c.0, mid), (mid, c.1)],
                spec_split_all(chunks.drop_first()),
                s,
                c.1 as int,
                e,
            );
        } else {
            assert(spec_chunks_chain(seq![c], s, c.1 as int)) by {
                assert(seq![c].drop_first() =~= Seq::<(usize, usize)>::empty());
                assert(spec_chunks_chain(Seq::<(usize, usize)>::empty(), c.1 as int, c.1 as int));
            }
            lemma_chain_concat(seq![c], spec_split_all(chunks.drop_first()), s, c.1 as int, e);
        }
    }
}

fn split_all(chunks: &Vec<(usize, usize)>) -> (r: (Vec<(usize, usize)>, bool))
    ensures
        r.0@ == spec_split_all(chunks@),
        r.1 == spec_any_splittable(chunks@),
{
    let mut out: Vec<(usize, usize)> = Vec::new();
    let mut any: bool = false;
    let mut i: usize = 0;
    proof {
        assert(chunks@.skip(0) =~= chunks@);
    }
    while i < chunks.len()
        invariant
            i <= chunks@.len(),
            out@ + spec_split_all(chunks@.skip(i as int)) == spec_split_all(chunks@),
            any == (exists|k: int|
                0 <= k < i && (#[trigger] chunks@[k]).1 - chunks@[k].0 > 1),
        decreases chunks.len() - i,
    {
        let c = chunks[i];
        proof {
            assert(chunks@.skip(i as int)[0] == chunks@[i as int]);
            assert(chunks@.skip(i as int).drop_first() =~= chunks@.skip(i + 1));
        }
        if c.1 > c.0 && c.1 - c.0 > 1 {
            let mid = c.0 + (c.1 - c.0) / 2;
            out.push((c.0, mid));
            out.push((mid, c.1));
            any = true;
        } else {
            out.push(c);
        }
        proof {
            assert(out@ + spec_split_all(chunks@.skip(i + 1)) =~= spec_split_all(chunks@));
        }
        i += 1;
    }
    proof {
        assert(chunks@.skip(chunks@.len() as int) =~= Seq::<(usize, usize)>::empty());
        assert(out@ =~= spec_split_all(chunks@));
        if any {
            assert(spec_any_splittable(chunks@));
        }
    }
    (out, any)
}

/// The retry-and-split machine over one batch.
#[derive(Debug, PartialEq, Eq)]
pub struct RetryProtocol {
    pub items: Vec<BatchItem>,
    pub phase: ProtocolPhase,
    /// One slot per item position; filled as replies are accepted.
    pub results: Vec<Option<String>>,
}

impl RetryProtocol {
    /// Number of items in the batch.
    pub open spec fn n(self) -> int {
        self.items@.len() as int
    }

    /// Positions `[lo, hi)` of the current request (empty once done).
    pub open spec fn spec_req_range(self) -> (int, int) {
        match self.phase {
            ProtocolPhase::Full { .. } => (0, self.n()),
            ProtocolPhase::Split { chunks, cur, .. } => (
                chunks@[cur as int].0 as int,
                chunks@[cur as int].1 as int,
            ),
            ProtocolPhase::Single { pos, .. } => (pos as int, pos + 1),
            ProtocolPhase::Done => (0, 0),
        }
    }

    /// The indices the current request asks the model to answer.
    pub open spec fn spec_expected(self) -> Seq<u64> {
        let (lo, hi) = self.spec_req_range();
        self.items@.subrange(lo, hi).map_values(|it: BatchItem| it.index)
    }

    /// Internal consistency of the machine.
    pub open spec fn wf(self) -> bool {
        &&& self.n() > 0
        &&& self.results@.len() == self.n()
        &&& match self.phase {
            ProtocolPhase::Full { attempt } => attempt < 3,
            ProtocolPhase::Split { depth, chunks, cur, retry, failed } => {
                &&& 1 <= depth <= 3
                &&& retry < 3
                &&& (cur as int) < chunks@.len()
                &&& spec_chunks_chain(chunks@, 0, self.n())
                &&& self.n() > 1
                &&& (!failed ==> forall|k: int|
                    0 <= k < chunks@[cur as int].0 ==> (#[trigger] self.results@[k]) is Some)
            },
            ProtocolPhase::Single { pos, attempt } => {
                &&& (pos as int) < self.n()
                &&& attempt < 2
                &&& forall|k: int| 0 <= k < pos ==> (#[trigger] self.results@[k]) is Some
            },
            ProtocolPhase::Done => forall|k: int|
                0 <= k < self.n() ==> (#[trigger] self.results@[k]) is Some,
        }
    }

    /// The current request's positions lie inside the batch, and are
    /// nonempty until the machine is done.
    pub proof fn lemma_req_range_ok(self)
        requires
            self.wf(),
        ensures
            ({
                let (lo, hi) = self.spec_req_range();
                &&& 0 <= lo <= hi <= self.n()
                &&& !(self.phase is Done) ==> lo < hi
            }),
    {
        match self.phase {
            ProtocolPhase::Split { chunks, cur, .. } => {
                lemma_chain_bounds(chunks@, 0, self.n());
            },
            _ => {},
        }
    }

    /// Start on a batch: the whole of it, first attempt.
    pub fn new(items: Vec<BatchItem>) -> (p: RetryProtocol)
        requires
            items@.len() > 0,
        ensures
            p.wf(),
            p.items == items,
            p.phase == (ProtocolPhase::Full { attempt: 0u8 }),
            forall|k: int| 0 <= k < p.results@.len() ==> (#[trigger] p.results@[k]) is None,
    {
        let n = items.len();
        let mut results: Vec<Option<String>> = Vec::new();
        let mut i: usize = 0;
        while i < n
            invariant
                i <= n,
                results@.len() == i,
                forall|k: int| 0 <= k < i ==> (#[trigger] results@[k]) is None,
            decreases n - i,
        {
            results.push(None);
            i += 1;
        }
        RetryProtocol { items, phase: ProtocolPhase::Full { attempt: 0 }, results }
    }

    /// Whether every position has a result.
    pub fn is_done(&self) -> (r: bool)
        ensures
            r == (self.phase is Done),
    {
        match &self.phase {
            ProtocolPhase::Done => true,
            _ => false,
        }
    }

    /// The payload of the next call: the `(index, text)` pairs of the
    /// current request, or `None` once the batch is finished.
    pub fn current_request(&self) -> (r: Option<Vec<(u64, String)>>)
        requires
            self.wf(),
        ensures
            (r is Some) <==> !(self.phase is Done),
            r matches Some(v) ==> ({
                let (lo, hi) = self.spec_req_range();
                &&& v@.len() == hi - lo
                &&& forall|k: int|
                    0 <= k < v@.len() ==> (#[trigger] v@[k]).0 == self.items@[lo + k].index
                        && v@[k].1@ == self.items@[lo + k].text@
            }),
    {
        let n = self.items.len();
        let (lo, hi) = match &self.phase {
            ProtocolPhase::Full { .. } => (0usize, n),
            ProtocolPhase::Split { chunks, cur, .. } => {
                proof {
                    lemma_chain_bounds(chunks@, 0, self.n());
                }
                let c = chunks[*cur];
                (c.0, c.1)
            },
            ProtocolPhase::Single { pos, .. } => {
                assert(*pos < n);
                (*pos, *pos + 1)
            },
            ProtocolPhase::Done => {
                return None;
            },
        };
        let mut v: Vec<(u64, String)> = Vec::new();
        let mut i: usize = lo;
        while i < hi
            invariant
                lo <= i <= hi <= self.items@.len(),
                v@.len() == i - lo,
                forall|k: int|
                    0 <= k < v@.len() ==> (#[trigger] v@[k]).0 == self.items@[lo + k].index
                        && v@[k].1@ == self.items@[lo + k].text@,
            decreases hi - i,
        {
            v.push((self.items[i].index, self.items[i].text.clone()));
            i += 1;
        }
        Some(v)
    }

    /// Seconds to sleep before re-sending the current request: doubling
    /// from one second with each failure of the same request, none before
    /// a first try.
    pub fn backoff_secs(&self) -> (r: u64)
        requires
            self.wf(),
        ensures
            r == match self.phase {
                ProtocolPhase::Full { attempt } => if attempt > 0 {
                    (1u64 << ((attempt - 1) as u64))
                } else {
                    0u64
                },
                ProtocolPhase::Split { retry, .. } => if retry > 0 {
                    (1u64 << ((retry - 1) as u64))
                } else {
                    0u64
                },
                ProtocolPhase::Single { attempt, .. } => if attempt > 0 {
                    1u64
                } else {
                    0u64
                },
                ProtocolPhase::Done => 0u64,
            },
    {
        match &self.phase {
            ProtocolPhase::Full { attempt } => {
                if *attempt > 0 {
                    1u64 << ((*attempt - 1) as u64)
                } else {
                    0
                }
            },
            ProtocolPhase::Split { retry, .. } => {
                if *retry > 0 {
                    1u64 << ((*retry - 1) as u64)
                } else {
                    0
                }
            },
            ProtocolPhase::Single { attempt, .. } => {
                if *attempt > 0 {
                    1
                } else {
                    0
                }
            },
            ProtocolPhase::Done => 0,
        }
    }

    /// Feed the model's reply for the current request. Equivalent to
    /// [`Self::on_failure`] when the reply does not validate.
    pub fn on_reply(&mut self, raw: &str)
        requires
            old(self).wf(),
            !(old(self).phase is Done),
        ensures
            final(self).wf(),
            final(self).items == old(self).items,
            ({
                let parsed = spec_parse_validate(raw@, old(self).spec_expected());
                match parsed {
                    Some(vals) => final(self).spec_accept_transition(*old(self), vals),
                    None => final(self).spec_reject_transition(*old(self)),
                }
            }),
    {
        let expected = self.expected_indices();
        match parse_and_validate(raw, &expected) {
            Some(values) => {
                proof {
                    self.lemma_req_range_ok();
                    assert(values@.len() == self.spec_expected().len());
                }
                self.accept(values)
            },
            None => self.on_failure(),
        }
    }

    /// The indices of the current request, as the validator expects them.
    fn expected_indices(&self) -> (r: Vec<u64>)
        requires
            self.wf(),
            !(self.phase is Done),
        ensures
            r@ == self.spec_expected(),
    {
        proof {
            self.lemma_req_range_ok();
        }
        let req = match self.current_request() {
            Some(v) => v,
            None => {
                proof {
                    assert(false);
                }
                return Vec::new();
            },
        };
        let mut out: Vec<u64> = Vec::new();
        let mut i: usize = 0;
        while i < req.len()
            invariant
                i <= req@.len(),
                out@.len() == i,
                forall|k: int| 0 <= k < i ==> (#[trigger] out@[k]) == req@[k].0,
            decreases req.len() - i,
        {
            out.push(req[i].0);
            i += 1;
        }
        proof {
            assert(out@ =~= self.spec_expected());
        }
        out
    }

    /// The state after an accepted reply: the request's positions take the
    /// reply's values; the machine moves to the next chunk, position, or
    /// finishes.
    pub open spec fn spec_accept_transition(self, prev: RetryProtocol, vals: Seq<Seq<char>>)
        -> bool {
        let (lo, hi) = prev.spec_req_range();
        let filled = ({
            &&& self.results@.len() == prev.results@.len()
            &&& forall|k: int|
                0 <= k < self.results@.len() ==> if lo <= k < hi {
                    (#[trigger] self.results@[k]) matches Some(s) && s@ == vals[k - lo]
                } else {
                    self.results@[k] == prev.results@[k]
                }
        });
        match prev.phase {
            ProtocolPhase::Full { .. } => filled && (self.phase is Done),
            ProtocolPhase::Split { depth, chunks, cur, failed, .. } => {
                if cur + 1 < chunks@.len() {
                    filled && (self.phase matches ProtocolPhase::Split { depth: d2, chunks: c2, cur: cu2, retry: r2, failed: f2 }
                        && d2 == depth && c2@ == chunks@ && cu2 == cur + 1 && r2 == 0 && f2
                        == failed)
                } else if !failed {
                    filled && (self.phase is Done)
                } else {
                    self.spec_escalated(depth, chunks@)
                }
            },
            ProtocolPhase::Single { pos, .. } => {
                filled && (if pos + 1 < prev.n() {
                    self.phase matches ProtocolPhase::Single { pos: p2, attempt: a2 } && p2 == pos
                        + 1 && a2 == 0
                } else {
                    self.phase is Done
                })
            },
            ProtocolPhase::Done => filled && (self.phase is Done),
        }
    }

    /// The state after the chunk stage is exhausted with failures: deeper
    /// splits while both depth and a splittable chunk remain, else the
    /// per-item fallback; either way with a clean slate.
    pub open spec fn spec_escalated(self, depth: u8, chunks: Seq<(usize, usize)>) -> bool {
        if depth < 3 && spec_any_splittable(chunks) {
            &&& (self.phase matches ProtocolPhase::Split { depth: d2, chunks: c2, cur: cu2, retry: r2, failed: f2 }
                && d2 == depth + 1 && cu2 == 0 && r2 == 0 && !f2 && c2@ == spec_split_all(chunks))
            &&& self.spec_results_cleared()
        } else {
            &&& self.phase == (ProtocolPhase::Single { pos: 0usize, attempt: 0u8 })
            &&& self.spec_results_cleared()
        }
    }

    /// The state after a failed or rejected reply: another attempt of the
    /// same request while attempts remain; else the batch splits, or falls
    /// to single items, or — in the single stage — the source text is kept
    /// for the position and the machine moves on.
    pub open spec fn spec_reject_transition(self, prev: RetryProtocol) -> bool {
        match prev.phase {
            ProtocolPhase::Full { attempt } => {
                if attempt < 2 {
                    &&& self.phase == (ProtocolPhase::Full { attempt: (attempt + 1) as u8 })
                    &&& self.results == prev.results
                } else if prev.n() > 1 {
                    &&& (self.phase matches ProtocolPhase::Split { depth: d2, chunks: c2, cur: cu2, retry: r2, failed: f2 }
                        && d2 == 1 && cu2 == 0 && r2 == 0 && !f2 && c2@ == spec_split_all(
                        seq![(0usize, (prev.items@.len() as usize))],
                    ))
                    &&& self.spec_results_cleared()
                } else {
                    &&& self.phase == (ProtocolPhase::Single { pos: 0usize, attempt: 0u8 })
                    &&& self.spec_results_cleared()
                }
            },
            ProtocolPhase::Split { depth, chunks, cur, retry, failed } => {
                if retry < 2 {
                    &&& (self.phase matches ProtocolPhase::Split { depth: d2, chunks: c2, cur: cu2, retry: r2, failed: f2 }
                        && d2 == depth && c2@ == chunks@ && cu2 == cur && r2 == retry + 1 && f2
                        == failed)
                    &&& self.results == prev.results
                } else if cur + 1 < chunks@.len() {
                    &&& (self.phase matches ProtocolPhase::Split { depth: d2, chunks: c2, cur: cu2, retry: r2, failed: f2 }
                        && d2 == depth && c2@ == chunks@ && cu2 == cur + 1 && r2 == 0 && f2)
                    &&& self.results == prev.results
                } else {
                    self.spec_escalated(depth, chunks@)
                }
            },
            ProtocolPhase::Single { pos, attempt } => {
                if attempt < 1 {
                    &&& self.phase == (ProtocolPhase::Single { pos, attempt: 1u8 })
                    &&& self.results == prev.results
                } else {
                    &&& self.results@.len() == prev.results@.len()
                    &&& forall|k: int|
                        0 <= k < self.results@.len() ==> if k == pos {
                            (#[trigger] self.results@[k]) matches Some(s) && s@
                                == prev.items@[pos as int].text@
                        } else {
                            self.results@[k] == prev.results@[k]
                        }
                    &&& self.phase == (if pos + 1 < prev.n() {
                        ProtocolPhase::Single { pos: (pos + 1) as usize, attempt: 0u8 }
                    } else {
                        ProtocolPhase::Done
                    })
                }
            },
            ProtocolPhase::Done => self == prev,
        }
    }

    /// All result slots are empty.
    pub open spec fn spec_results_cleared(self) -> bool {
        &&& self.results@.len() == self.n()
        &&& forall|k: int| 0 <= k < self.results@.len() ==> (#[trigger] self.results@[k]) is None
    }

    fn clear_results(&mut self)
        requires
            old(self).wf(),
        ensures
            final(self).items == old(self).items,
            final(self).phase == old(self).phase,
            final(self).spec_results_cleared(),
    {
        let n = self.items.len();
        let mut results: Vec<Option<String>> = Vec::new();
        let mut i: usize = 0;
        while i < n
            invariant
                i <= n,
                results@.len() == i,
                forall|k: int| 0 <= k < i ==> (#[trigger] results@[k]) is None,
            decreases n - i,
        {
            results.push(None);
            i += 1;
        }
        self.results = results;
    }

    fn accept(&mut self, values: Vec<String>)
        requires
            old(self).wf(),
            !(old(self).phase is Done),
            values@.len() == old(self).spec_req_range().1 - old(self).spec_req_range().0,
        ensures
            final(self).wf(),
            final(self).items == old(self).items,
            final(self).spec_accept_transition(*old(self), spec_strings_view(values@)),
    {
        let n = self.items.len();
        let (lo, hi) = match &self.phase {
            ProtocolPhase::Full { .. } => (0usize, n),
            ProtocolPhase::Split { chunks, cur, .. } => {
                proof {
                    lemma_chain_bounds(chunks@, 0, self.n());
                }
                let c = chunks[*cur];
                (c.0, c.1)
            },
            ProtocolPhase::Single { pos, .. } => {
                assert(*pos < n);
                (*pos, *pos + 1)
            },
            ProtocolPhase::Done => {
                proof {
                    assert(false);
                }
                (0usize, 0usize)
            },
        };
        let mut i: usize = 0;
        let ghost prev_results = self.results@;
        while i < values.len()
            invariant
                i <= values@.len(),
                lo + values@.len() == hi,
                hi <= self.results@.len(),
                self.results@.len() == prev_results.len(),
                self.items == old(self).items,
                self.phase == old(self).phase,
                forall|k: int|
                    0 <= k < self.results@.len() ==> if lo <= k < lo + i {
                        (#[trigger] self.results@[k]) matches Some(s) && s@ == values@[k - lo]@
                    } else {
                        self.results@[k] == prev_results[k]
                    },
            decreases values.len() - i,
        {
            let v = values[i].clone();
            self.results.set(lo + i, Some(v));
            i += 1;
        }
        // advance the phase
        let mut escalated: bool = false;
        let next_phase = match &self.phase {
            ProtocolPhase::Full { .. } => ProtocolPhase::Done,
            ProtocolPhase::Split { depth, chunks, cur, failed, .. } => {
                proof {
                    lemma_chain_bounds(chunks@, 0, self.n());
                }
                if *cur < chunks.len() - 1 {
                    let new_chunks = copy_chunks(chunks);
                    ProtocolPhase::Split {
                        depth: *depth,
                        chunks: new_chunks,
                        cur: *cur + 1,
                        retry: 0,
                        failed: *failed,
                    }
                } else if !*failed {
                    ProtocolPhase::Done
                } else {
                    let d = *depth;
                    let ghost old_chunks = chunks@;
                    let (new_chunks, any) = split_all(chunks);
                    escalated = true;
                    if d < 3 && any {
                        proof {
                            lemma_split_all_chain(old_chunks, 0, self.n());
                        }
                        ProtocolPhase::Split {
                            depth: d + 1,
                            chunks: new_chunks,
                            cur: 0,
                            retry: 0,
                            failed: false,
                        }
                    } else {
                        ProtocolPhase::Single { pos: 0, attempt: 0 }
                    }
                }
            },
            ProtocolPhase::Single { pos, .. } => {
                let p = *pos;
                assert(p < n);
                if p + 1 < self.items.len() {
                    ProtocolPhase::Single { pos: p + 1, attempt: 0 }
                } else {
                    ProtocolPhase::Done
                }
            },
            ProtocolPhase::Done => ProtocolPhase::Done,
        };
        self.phase = next_phase;
        if escalated {
            self.clear_results();
        }
    }

    /// Feed a transport failure (or an unusable reply) for the current
    /// request.
    pub fn on_failure(&mut self)
        requires
            old(self).wf(),
            !(old(self).phase is Done),
        ensures
            final(self).wf(),
            final(self).items == old(self).items,
            final(self).spec_reject_transition(*old(self)),
    {
        match &self.phase {
            ProtocolPhase::Full { attempt } => {
                let a = *attempt;
                if a < 2 {
                    self.phase = ProtocolPhase::Full { attempt: a + 1 };
                } else if self.items.len() > 1 {
                    let n = self.items.len();
                    let whole: Vec<(usize, usize)> = vec![(0usize, n)];
                    proof {
                        assert(whole@ =~= seq![(0usize, n)]);
                        assert(whole@.drop_first() =~= Seq::<(usize, usize)>::empty());
                        assert(spec_chunks_chain(
                            Seq::<(usize, usize)>::empty(),
                            n as int,
                            n as int,
                        ));
                        assert(spec_chunks_chain(whole@, 0, self.n()));
                        lemma_split_all_chain(whole@, 0, self.n());
                    }
                    let (chunks, _) = split_all(&whole);
                    self.phase = ProtocolPhase::Split {
                        depth: 1,
                        chunks,
                        cur: 0,
                        retry: 0,
                        failed: false,
                    };
                    self.clear_results();
                } else {
                    self.phase = ProtocolPhase::Single { pos: 0, attempt: 0 };
                    self.clear_results();
                }
            },
            ProtocolPhase::Split { depth, chunks, cur, retry, failed } => {
                let d = *depth;
                let r = *retry;
                let c = *cur;
                let f = *failed;
                if r < 2 {
                    let new_chunks = copy_chunks(chunks);
                    self.phase = ProtocolPhase::Split {
                        depth: d,
                        chunks: new_chunks,
                        cur: c,
                        retry: r + 1,
                        failed: f,
                    };
                } else if c < chunks.len() - 1 {
                    let new_chunks = copy_chunks(chunks);
                    self.phase = ProtocolPhase::Split {
                        depth: d,
                        chunks: new_chunks,
                        cur: c + 1,
                        retry: 0,
                        failed: true,
                    };
                } else {
                    let ghost old_chunks = chunks@;
                    let (new_chunks, any) = split_all(chunks);
                    if d < 3 && any {
                        proof {
                            lemma_split_all_chain(old_chunks, 0, self.n());
                        }
                        self.phase = ProtocolPhase::Split {
                            depth: d + 1,
                            chunks: new_chunks,
                            cur: 0,
                            retry: 0,
                            failed: false,
                        };
                        self.clear_results();
                    } else {
                        self.phase = ProtocolPhase::Single { pos: 0, attempt: 0 };
                        self.clear_results();
                    }
                }
            },
            ProtocolPhase::Single { pos, attempt } => {
                let p = *pos;
                let a = *attempt;
                if a < 1 {
                    self.phase = ProtocolPhase::Single { pos: p, attempt: 1 };
                } else {
                    let n = self.items.len();
                    assert(p < n);
                    let fallback = self.items[p].text.clone();
                    self.results.set(p, Some(fallback));
                    if p + 1 < n {
                        self.phase = ProtocolPhase::Single { pos: p + 1, attempt: 0 };
                    } else {
                        self.phase = ProtocolPhase::Done;
                    }
                }
            },
            ProtocolPhase::Done => {
                proof {
                    assert(false);
                }
            },
        }
    }

    /// The finished batch: one `(index, text)` pair per item, in item
    /// order.
    pub fn result(&self) -> (r: Vec<(u64, String)>)
        requires
            self.wf(),
            self.phase is Done,
        ensures
            r@.len() == self.items@.len(),
            forall|k: int|
                0 <= k < r@.len() ==> (#[trigger] r@[k]).0 == self.items@[k].index && r@[k].1@
                    == self.results@[k]->0@,
    {
        let mut out: Vec<(u64, String)> = Vec::new();
        let mut i: usize = 0;
        while i < self.items.len()
            invariant
                i <= self.items@.len(),
                self.wf(),
                self.phase is Done,
                out@.len() == i,
                forall|k: int|
                    0 <= k < i ==> (#[trigger] out@[k]).0 == self.items@[k].index && out@[k].1@
                        == self.results@[k]->0@,
            decreases self.items.len() - i,
        {
            let text = match &self.results[i] {
                Some(s) => s.clone(),
                None => {
                    proof {
                        assert(self.results@[i as int] is Some);
                        assert(false);
                    }
                    String::new()
                },
            };
            out.push((self.items[i].index, text));
            i += 1;
        }
        out
    }
}

/// Copy of a chunk vector, with the contents specified.
fn copy_chunks(other: &Vec<(usize, usize)>) -> (r: Vec<(usize, usize)>)
    ensures
        r@ == other@,
{
    let mut r: Vec<(usize, usize)> = Vec::new();
    let mut i: usize = 0;
    while i < other.len()
        invariant
            i <= other@.len(),
            r@ == other@.take(i as int),
        decreases other.len() - i,
    {
        r.push(other[i]);
        assert(r@ =~= other@.take(i + 1));
        i += 1;
    }
    assert(other@.take(other@.len() as int) =~= other@);
    r
}

} // verus!
