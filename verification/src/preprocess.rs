//! The dubbing preprocess protocol: batched LLM normalization of subtitle
//! text into TTS-friendly prose. A batch gets three attempts under the
//! same JSON round-trip contract as translation; when all fail, every
//! index of the batch keeps its source text, so the stage itself never
//! fails.

use vstd::prelude::*;
use vstd::string::*;
use crate::validate::{parse_and_validate, spec_parse_validate, spec_strings_view};

verus! {

/// Default number of subtitles per preprocess batch.
pub const PREPROCESS_BATCH_SIZE: usize = 20;

/// The preprocess system prompt: a fixed normalization instruction with
/// the JSON round-trip rules.
pub const PREPROCESS_PROMPT: &'static str = "将以下字幕文本处理成适合中文TTS朗读的口语化文本：\n规则：\n1. 数字转中文读法（1024 → 一千零二十四）\n2. 英文缩写展开（如上下文明确则展开，否则保留）\n3. 删除括号内的舞台指示（[笑声]、(掌声) 等）\n4. 标点规范化（省略号统一为…，感叹号不重复）\n5. 保持原意，不翻译，不添加内容\n## Rules\n- Input/output format: JSON object {\"index\": \"text\", ...}\n- Output count MUST exactly match input count\n- Output ONLY the JSON object";

/// One preprocess batch walking its three attempts.
#[derive(Debug)]
pub struct PreprocessBatch {
    /// The `(index, source text)` pairs of the batch.
    pub items: Vec<(u64, String)>,
    /// Failed attempts so far (three allowed).
    pub attempt: u8,
    /// The accepted texts, one per item, once decided.
    pub outcome: Option<Vec<String>>,
}

impl PreprocessBatch {
    /// Machine consistency.
    pub open spec fn wf(self) -> bool {
        &&& self.items@.len() > 0
        &&& self.attempt <= 3
        &&& (self.outcome matches Some(v) ==> v@.len() == self.items@.len())
    }

    /// The indices the reply must answer.
    pub open spec fn spec_expected(self) -> Seq<u64> {
        self.items@.map_values(|p: (u64, String)| p.0)
    }

    /// Start on a batch.
    pub fn new(items: Vec<(u64, String)>) -> (b: PreprocessBatch)
        requires
            items@.len() > 0,
        ensures
            b.wf(),
            b.items == items,
            b.attempt == 0,
            b.outcome is None,
    {
        PreprocessBatch { items, attempt: 0, outcome: None }
    }

    /// Whether the batch still needs a call.
    pub fn is_done(&self) -> (r: bool)
        ensures
            r == (self.outcome is Some),
    {
        match &self.outcome {
            Some(_) => true,
            None => false,
        }
    }

    /// Seconds to sleep before re-sending: doubling from two seconds with
    /// each failure, none before the first try.
    pub fn backoff_secs(&self) -> (r: u64)
        requires
            self.wf(),
        ensures
            self.attempt == 0 ==> r == 0,
            self.attempt > 0 ==> r == (1u64 << (self.attempt as u64)),
    {
        if self.attempt > 0 {
            1u64 << (self.attempt as u64)
        } else {
            0
        }
    }

    /// Feed the model's reply. A validated reply settles the batch with
    /// the model's texts; a rejected one costs an attempt, and the third
    /// failure settles the batch with every source text kept.
    pub fn on_reply(&mut self, raw: &str)
        requires
            old(self).wf(),
            old(self).outcome is None,
        ensures
            final(self).wf(),
            final(self).items == old(self).items,
            ({
                let parsed = spec_parse_validate(raw@, old(self).spec_expected());
                match parsed {
                    Some(vals) => (final(self).outcome matches Some(v) && spec_strings_view(v@)
                        == vals && final(self).attempt == old(self).attempt),
                    None => final(self).spec_reject(*old(self)),
                }
            }),
    {
        let expected = self.expected_indices();
        match parse_and_validate(raw, &expected) {
            Some(values) => {
                proof {
                    assert(values@.len() == old(self).spec_expected().len());
                }
                self.outcome = Some(values);
            },
            None => self.on_failure(),
        }
    }

    /// The state after a rejected reply: one more attempt while they
    /// last; the third failure keeps the source text of every index.
    pub open spec fn spec_reject(self, prev: PreprocessBatch) -> bool {
        if prev.attempt < 2 {
            &&& self.attempt == prev.attempt + 1
            &&& self.outcome is None
        } else {
            &&& self.outcome matches Some(v) && v@.len() == prev.items@.len() && (forall|k: int|
                0 <= k < v@.len() ==> (#[trigger] v@[k])@ == prev.items@[k].1@)
        }
    }

    /// Feed a transport failure (or an unusable reply).
    pub fn on_failure(&mut self)
        requires
            old(self).wf(),
            old(self).outcome is None,
        ensures
            final(self).wf(),
            final(self).items == old(self).items,
            final(self).spec_reject(*old(self)),
    {
        if self.attempt < 2 {
            self.attempt = self.attempt + 1;
        } else {
            let mut fallback: Vec<String> = Vec::new();
            let mut i: usize = 0;
            while i < self.items.len()
                invariant
                    i <= self.items@.len(),
                    self.items == old(self).items,
                    self.attempt == old(self).attempt,
                    self.outcome is None,
                    fallback@.len() == i,
                    forall|k: int|
                        0 <= k < i ==> (#[trigger] fallback@[k])@ == self.items@[k].1@,
                decreases self.items.len() - i,
            {
                fallback.push(self.items[i].1.clone());
                i += 1;
            }
            self.outcome = Some(fallback);
        }
    }

    fn expected_indices(&self) -> (r: Vec<u64>)
        ensures
            r@ == self.spec_expected(),
    {
        let mut out: Vec<u64> = Vec::new();
        let mut i: usize = 0;
        while i < self.items.len()
            invariant
                i <= self.items@.len(),
                out@.len() == i,
                forall|k: int| 0 <= k < i ==> (#[trigger] out@[k]) == self.items@[k].0,
            decreases self.items.len() - i,
        {
            out.push(self.items[i].0);
            i += 1;
        }
        proof {
            assert(out@ =~= self.spec_expected());
        }
        out
    }

    /// The settled texts, in item order.
    pub fn result(&self) -> (r: Vec<(u64, String)>)
        requires
            self.wf(),
            self.outcome is Some,
        ensures
            r@.len() == self.items@.len(),
            forall|k: int|
                0 <= k < r@.len() ==> (#[trigger] r@[k]).0 == self.items@[k].0 && r@[k].1
                    == self.outcome->0@[k],
    {
        let texts = match &self.outcome {
            Some(v) => v,
            None => {
                proof {
                    assert(false);
                }
                return Vec::new();
            },
        };
        let mut out: Vec<(u64, String)> = Vec::new();
        let mut i: usize = 0;
        while i < self.items.len()
            invariant
                i <= self.items@.len(),
                texts@ == self.outcome->0@,
                texts@.len() == self.items@.len(),
                out@.len() == i,
                forall|k: int|
                    0 <= k < i ==> (#[trigger] out@[k]).0 == self.items@[k].0 && out@[k].1
                        == self.outcome->0@[k],
            decreases self.items.len() - i,
        {
            out.push((self.items[i].0, texts[i].clone()));
            i += 1;
        }
        out
    }
}

} // verus!
