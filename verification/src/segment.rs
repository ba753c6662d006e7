//! Word-timestamp segmentation: turn a vendor's word list into subtitle
//! entries, joining CJK text without spaces and splitting on silence,
//! length, and punctuation rules.

use vstd::prelude::*;
use vstd::string::*;
use crate::chars::{chars_of_str, string_from_chars};
use crate::subtitle::SubtitleItem;
use crate::translate::spec_is_cjk;

verus! {

/// Hard split on a silence gap above this, in milliseconds.
pub const GAP_THRESHOLD_MS: u64 = 1000;

/// Hard ceiling of characters per line, joining spaces included.
pub const MAX_CHARS: usize = 50;

/// Soft ceiling from which pause punctuation splits.
pub const SOFT_CHARS: usize = 33;

/// One timed word token.
#[derive(Debug, Clone, PartialEq, Eq)]
pub struct Word {
    pub start_ms: u64,
    pub end_ms: u64,
    pub text: String,
}

/// The view of one word.
pub struct WordV {
    pub start_ms: u64,
    pub end_ms: u64,
    pub text: Seq<char>,
}

/// The view of one produced subtitle.
pub struct SubV {
    pub id: nat,
    pub start_ms: u64,
    pub end_ms: u64,
    pub text: Seq<char>,
}

/// The views of a word vector.
pub open spec fn spec_words_view(ws: Seq<Word>) -> Seq<WordV> {
    ws.map_values(|w: Word| WordV { start_ms: w.start_ms, end_ms: w.end_ms, text: w.text@ })
}

/// Is `c` a CJK character, for joining purposes?
pub fn is_cjk_char(c: char) -> (r: bool)
    ensures
        r == spec_is_cjk(c),
{
    let cp = c as u32;
    (0x4E00 <= cp && cp <= 0x9FFF) || (0x3040 <= cp && cp <= 0x30FF) || (0xAC00 <= cp && cp
        <= 0xD7AF)
}

/// CJK punctuation that never takes a space before it.
pub open spec fn spec_is_cjk_punct(c: char) -> bool {
    c == '，' || c == '。' || c == '！' || c == '？' || c == '；' || c == '、' || c == '…' || c == '·'
        || c == '—'
}

fn is_cjk_punct(c: char) -> (r: bool)
    ensures
        r == spec_is_cjk_punct(c),
{
    c == '，' || c == '。' || c == '！' || c == '？' || c == '；' || c == '、' || c == '…' || c == '·'
        || c == '—'
}

/// Sentence-final punctuation: a soft split always follows it.
pub open spec fn spec_is_sentence_end(c: char) -> bool {
    c == '。' || c == '！' || c == '？' || c == '…' || c == '.' || c == '!' || c == '?'
}

fn is_sentence_end(c: char) -> (r: bool)
    ensures
        r == spec_is_sentence_end(c),
{
    c == '。' || c == '！' || c == '？' || c == '…' || c == '.' || c == '!' || c == '?'
}

/// Pause punctuation: splits once the line is long enough.
pub open spec fn spec_is_pause(c: char) -> bool {
    c == '，' || c == '、' || c == '；' || c == ',' || c == ';'
}

fn is_pause(c: char) -> (r: bool)
    ensures
        r == spec_is_pause(c),
{
    c == '，' || c == '、' || c == '；' || c == ',' || c == ';'
}

/// Whether a joining space belongs between two adjacent tokens: none
/// between two CJK characters, none before CJK punctuation.
pub open spec fn spec_smart_sep(prev: Seq<char>, cur: Seq<char>) -> bool {
    let prev_last_cjk = prev.len() > 0 && spec_is_cjk(prev.last());
    let cur_first_cjk = cur.len() > 0 && spec_is_cjk(cur[0]);
    let cur_punct = cur.len() > 0 && spec_is_cjk_punct(cur[0]);
    !(prev_last_cjk && cur_first_cjk) && !cur_punct
}

/// The smart join of token texts.
pub open spec fn spec_join_smart(texts: Seq<Seq<char>>) -> Seq<char>
    decreases texts.len(),
{
    if texts.len() == 0 {
        Seq::empty()
    } else if texts.len() == 1 {
        texts[0]
    } else {
        spec_join_smart(texts.drop_last()) + (if spec_smart_sep(
            texts[texts.len() - 2],
            texts.last(),
        ) {
            " "@
        } else {
            Seq::empty()
        }) + texts.last()
    }
}

/// The texts of a word slice.
pub open spec fn spec_texts_of(ws: Seq<Word>) -> Seq<Seq<char>> {
    ws.map_values(|w: Word| w.text@)
}

/// Join word tokens: a single space between tokens, except none between
/// two CJK characters and none before CJK punctuation.
pub fn join_words_smart(words: &Vec<Word>) -> (r: String)
    ensures
        r@ == spec_join_smart(spec_texts_of(words@)),
{
    let ghost m = spec_texts_of(words@);
    let mut out: Vec<char> = Vec::new();
    let mut i: usize = 0;
    while i < words.len()
        invariant
            i <= words@.len(),
            m == spec_texts_of(words@),
            out@ == spec_join_smart(m.take(i as int)),
        decreases words.len() - i,
    {
        proof {
            assert(m.take(i + 1).drop_last() =~= m.take(i as int));
        }
        if i > 0 {
            let prev = chars_of_str(words[i - 1].text.as_str());
            let cur = chars_of_str(words[i].text.as_str());
            let prev_last_cjk = prev.len() > 0 && is_cjk_char(prev[prev.len() - 1]);
            let cur_first_cjk = cur.len() > 0 && is_cjk_char(cur[0]);
            let cur_punct = cur.len() > 0 && is_cjk_punct(cur[0]);
            if !(prev_last_cjk && cur_first_cjk) && !cur_punct {
                out.push(' ');
                proof {
                    reveal_strlit(" ");
                }
            }
        }
        crate::chars::push_str_chars(&mut out, words[i].text.as_str());
        proof {
            assert(m.take(i + 1).last() == m[i as int]);
            if i > 0 {
                assert(m.take(i + 1)[i - 1] == m[i - 1]);
            }
            assert(out@ =~= spec_join_smart(m.take(i + 1)));
        }
        i += 1;
    }
    proof {
        assert(m.take(m.len() as int) =~= m);
    }
    string_from_chars(&out)
}

// ── Segmentation machine ────────────────────────────────────────────────────

/// The simulation state of the segmenter.
pub struct SegSim {
    pub subs: Seq<SubV>,
    pub seg: Seq<WordV>,
    pub seg_chars: nat,
    pub prev_end: u64,
    pub next_id: nat,
}

/// The initial segmenter state.
pub open spec fn spec_seg_init() -> SegSim {
    SegSim { subs: Seq::empty(), seg: Seq::empty(), seg_chars: 0, prev_end: 0, next_id: 1 }
}

/// Flush the open segment into one subtitle.
pub open spec fn spec_flush(st: SegSim) -> SegSim {
    SegSim {
        subs: st.subs.push(
            SubV {
                id: st.next_id,
                start_ms: st.seg[0].start_ms,
                end_ms: st.seg.last().end_ms,
                text: spec_join_smart(st.seg.map_values(|w: WordV| w.text)),
            },
        ),
        seg: Seq::empty(),
        seg_chars: 0,
        prev_end: st.prev_end,
        next_id: st.next_id + 1,
    }
}

/// One word of input: empty tokens are skipped; a silence gap above the
/// threshold or a line that would exceed the hard ceiling splits before
/// the word; sentence-final punctuation — or pause punctuation past the
/// soft ceiling — splits after it.
pub open spec fn spec_seg_step(st: SegSim, w: WordV) -> SegSim {
    if w.text.len() == 0 {
        st
    } else {
        let gap_split = w.start_ms > st.prev_end + GAP_THRESHOLD_MS;
        let space: nat = if st.seg.len() == 0 {
            0
        } else {
            1
        };
        let over = st.seg_chars + space + w.text.len() > MAX_CHARS;
        let st1 = if st.seg.len() > 0 && (gap_split || over) {
            spec_flush(st)
        } else {
            st
        };
        let space1: nat = if st1.seg.len() == 0 {
            0
        } else {
            1
        };
        let st2 = SegSim {
            subs: st1.subs,
            seg: st1.seg.push(w),
            seg_chars: st1.seg_chars + space1 + w.text.len(),
            prev_end: w.end_ms,
            next_id: st1.next_id,
        };
        let ends_sentence = spec_is_sentence_end(w.text.last());
        let ends_pause = spec_is_pause(w.text.last());
        if ends_sentence || (ends_pause && st2.seg_chars >= SOFT_CHARS) {
            spec_flush(st2)
        } else {
            st2
        }
    }
}

/// The run over a word list.
pub open spec fn spec_seg_run(ws: Seq<WordV>) -> SegSim
    decreases ws.len(),
{
    if ws.len() == 0 {
        spec_seg_init()
    } else {
        spec_seg_step(spec_seg_run(ws.drop_last()), ws.last())
    }
}

/// The subtitles of a word list: the run's output, with any open segment
/// flushed at the end.
pub open spec fn spec_segment(ws: Seq<WordV>) -> Seq<SubV> {
    let fin = spec_seg_run(ws);
    if fin.seg.len() > 0 {
        spec_flush(fin).subs
    } else {
        fin.subs
    }
}

/// The view of produced subtitles.
pub open spec fn spec_subs_view(subs: Seq<SubtitleItem>) -> Seq<SubV> {
    subs.map_values(
        |s: SubtitleItem| SubV { id: s.id as nat, start_ms: s.start_ms, end_ms: s.end_ms, text: s.text@ },
    )
}

/// Segment timed words into subtitle entries by the four split rules: a
/// silence gap over one second splits; a line never exceeds fifty
/// characters counting joining spaces (unless a single token does);
/// sentence-final punctuation splits; pause punctuation splits from
/// thirty-three characters on.
pub fn segment_words(words: &Vec<Word>) -> (r: Vec<SubtitleItem>)
    requires
        words@.len() < u32::MAX,
        forall|i: int| 0 <= i < words@.len() ==> (#[trigger] words@[i]).end_ms <= u64::MAX - 1000,
    ensures
        spec_subs_view(r@) == spec_segment(spec_words_view(words@)),
{
    let ghost wv = spec_words_view(words@);
    let mut subs: Vec<SubtitleItem> = Vec::new();
    let mut seg: Vec<Word> = Vec::new();
    let mut seg_chars: usize = 0;
    let mut prev_end: u64 = 0;
    let mut next_id: u32 = 1;
    let mut i: usize = 0;
    proof {
        assert(wv.take(0) =~= Seq::<WordV>::empty());
        assert(spec_subs_view(subs@) =~= spec_seg_run(wv.take(0)).subs);
        assert(spec_words_view(seg@) =~= spec_seg_run(wv.take(0)).seg);
    }
    while i < words.len()
        invariant
            i <= words@.len(),
            words@.len() < u32::MAX,
            forall|k: int|
                0 <= k < words@.len() ==> (#[trigger] words@[k]).end_ms <= u64::MAX - 1000,
            wv == spec_words_view(words@),
            spec_subs_view(subs@) == spec_seg_run(wv.take(i as int)).subs,
            spec_words_view(seg@) == spec_seg_run(wv.take(i as int)).seg,
            seg_chars == spec_seg_run(wv.take(i as int)).seg_chars,
            prev_end == spec_seg_run(wv.take(i as int)).prev_end,
            next_id == spec_seg_run(wv.take(i as int)).next_id,
            next_id == subs@.len() + 1,
            subs@.len() + seg@.len() <= i,
            seg@.len() == 0 ==> seg_chars == 0,
            prev_end <= u64::MAX - 1000,
        decreases words.len() - i,
    {
        let ghost st0 = spec_seg_run(wv.take(i as int));
        let ghost w_v = wv[i as int];
        proof {
            assert(wv.take(i + 1).drop_last() =~= wv.take(i as int));
            assert(wv.take(i + 1).last() == w_v);
            assert(spec_seg_run(wv.take(i + 1)) == spec_seg_step(st0, w_v));
        }
        let w = &words[i];
        let wtext = chars_of_str(w.text.as_str());
        if wtext.len() > 0 {
            let gap_split = w.start_ms > prev_end + GAP_THRESHOLD_MS;
            let space: usize = if seg.len() == 0 {
                0
            } else {
                1
            };
            let over = (seg_chars as u128) + (space as u128) + (wtext.len() as u128) > (
            MAX_CHARS as u128);
            let ghost st1 = if st0.seg.len() > 0 && (w_v.start_ms > st0.prev_end
                + GAP_THRESHOLD_MS || st0.seg_chars + (if st0.seg.len() == 0 {
                0nat
            } else {
                1nat
            }) + w_v.text.len() > MAX_CHARS) {
                spec_flush(st0)
            } else {
                st0
            };
            if seg.len() > 0 && (gap_split || over) {
                let sub = flush_segment(&seg, next_id);
                proof {
                    assert(spec_texts_of(seg@) =~= spec_words_view(seg@).map_values(
                        |x: WordV| x.text,
                    ));
                    assert(st1 == spec_flush(st0));
                }
                subs.push(sub);
                seg = Vec::new();
                seg_chars = 0;
                next_id = next_id + 1;
                proof {
                    assert(spec_words_view(seg@) =~= Seq::<WordV>::empty());
                    assert(spec_subs_view(subs@) =~= st1.subs);
                }
            } else {
                proof {
                    assert(st1 == st0);
                }
            }
            proof {
                assert(spec_subs_view(subs@) == st1.subs);
                assert(spec_words_view(seg@) == st1.seg);
                assert(seg_chars == st1.seg_chars);
                assert(next_id == st1.next_id);
            }
            let space1: usize = if seg.len() == 0 {
                0
            } else {
                1
            };
            let new_chars_wide: u128 = (seg_chars as u128) + (space1 as u128) + (wtext.len()
                as u128);
            proof {
                assert(new_chars_wide <= usize::MAX as u128);
            }
            let cloned = w.text.clone();
            proof {
                assert(cloned == words@[i as int].text);
            }
            seg.push(Word { start_ms: w.start_ms, end_ms: w.end_ms, text: cloned });
            seg_chars = new_chars_wide as usize;
            prev_end = w.end_ms;
            let ghost st2 = SegSim {
                subs: st1.subs,
                seg: st1.seg.push(w_v),
                seg_chars: st1.seg_chars + (if st1.seg.len() == 0 {
                    0nat
                } else {
                    1nat
                }) + w_v.text.len(),
                prev_end: w_v.end_ms,
                next_id: st1.next_id,
            };
            proof {
                assert(spec_words_view(seg@) =~= st2.seg);
                assert(seg_chars == st2.seg_chars);
            }
            let last_c = wtext[wtext.len() - 1];
            let ends_sentence = is_sentence_end(last_c);
            let ends_pause = is_pause(last_c);
            proof {
                assert(last_c == w_v.text.last());
            }
            if ends_sentence || (ends_pause && seg_chars >= SOFT_CHARS) {
                let sub = flush_segment(&seg, next_id);
                proof {
                    assert(spec_texts_of(seg@) =~= spec_words_view(seg@).map_values(
                        |x: WordV| x.text,
                    ));
                }
                subs.push(sub);
                seg = Vec::new();
                seg_chars = 0;
                next_id = next_id + 1;
                proof {
                    assert(spec_words_view(seg@) =~= Seq::<WordV>::empty());
                    assert(spec_seg_step(st0, w_v) == spec_flush(st2));
                    assert(spec_subs_view(subs@) =~= spec_flush(st2).subs);
                }
            } else {
                proof {
                    assert(spec_seg_step(st0, w_v) == st2);
                }
            }
        } else {
            proof {
                assert(w_v.text.len() == 0);
                assert(spec_seg_step(st0, w_v) == st0);
            }
        }
        proof {
            assert(spec_subs_view(subs@) =~= spec_seg_run(wv.take(i + 1)).subs);
            assert(spec_words_view(seg@) =~= spec_seg_run(wv.take(i + 1)).seg);
        }
        i += 1;
    }
    proof {
        assert(wv.take(wv.len() as int) =~= wv);
    }
    if seg.len() > 0 {
        let sub = flush_segment(&seg, next_id);
        proof {
            assert(spec_texts_of(seg@) =~= spec_words_view(seg@).map_values(|x: WordV| x.text));
        }
        subs.push(sub);
    }
    proof {
        assert(spec_subs_view(subs@) =~= spec_segment(wv));
    }
    subs
}

fn flush_segment(seg: &Vec<Word>, id: u32) -> (r: SubtitleItem)
    requires
        seg@.len() > 0,
    ensures
        r.id == id,
        r.start_ms == seg@[0].start_ms,
        r.end_ms == seg@.last().end_ms,
        r.text@ == spec_join_smart(spec_texts_of(seg@)),
{
    let text = join_words_smart(seg);
    SubtitleItem { id, start_ms: seg[0].start_ms, end_ms: seg[seg.len() - 1].end_ms, text }
}

// ── Utterance lists ─────────────────────────────────────────────────────────

/// Turn a vendor's utterance rows `(start_ms, end_ms, text)` into
/// subtitles: empty texts are dropped, ids count from one in order.
pub fn utterances_to_subtitles(utts: &Vec<(u64, u64, String)>) -> (r: Vec<SubtitleItem>)
    requires
        utts@.len() < u32::MAX,
    ensures
        ({
            let kept = utts@.filter(|u: (u64, u64, String)| u.2@.len() > 0);
            &&& r@.len() == kept.len()
            &&& forall|i: int|
                0 <= i < r@.len() ==> (#[trigger] r@[i]).id == i + 1 && r@[i].start_ms
                    == kept[i].0 && r@[i].end_ms == kept[i].1 && r@[i].text == kept[i].2
        }),
{
    let ghost pred = |u: (u64, u64, String)| u.2@.len() > 0;
    let mut out: Vec<SubtitleItem> = Vec::new();
    let mut i: usize = 0;
    proof {
        assert(utts@.take(0).filter(pred) =~= Seq::<(u64, u64, String)>::empty()) by {
            reveal(Seq::filter);
        }
    }
    while i < utts.len()
        invariant
            i <= utts@.len(),
            utts@.len() < u32::MAX,
            pred == (|u: (u64, u64, String)| u.2@.len() > 0),
            out@.len() == utts@.take(i as int).filter(pred).len(),
            out@.len() <= i,
            forall|k: int|
                0 <= k < out@.len() ==> ({
                    let kept = utts@.take(i as int).filter(pred);
                    (#[trigger] out@[k]).id == k + 1 && out@[k].start_ms == kept[k].0
                        && out@[k].end_ms == kept[k].1 && out@[k].text == kept[k].2
                }),
        decreases utts.len() - i,
    {
        proof {
            utts@.take(i as int).lemma_filter_push(utts@[i as int], pred);
            assert(utts@.take(i + 1) =~= utts@.take(i as int).push(utts@[i as int]));
        }
        if !utts[i].2.as_str().is_empty() {
            let id32: u32 = (out.len() + 1) as u32;
            let text = utts[i].2.clone();
            proof {
                assert(text == utts@[i as int].2);
            }
            out.push(
                SubtitleItem {
                    id: id32,
                    start_ms: utts[i].0,
                    end_ms: utts[i].1,
                    text,
                },
            );
        }
        i += 1;
    }
    proof {
        assert(utts@.take(utts@.len() as int) =~= utts@);
    }
    out
}

} // verus!
