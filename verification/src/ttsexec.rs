//! The TTS stage's per-item execution protocol.
//!
//! Work items are the store's pending rows, taken in stored order. Each
//! item gets up to three synthesis attempts with doubling backoff; a final
//! failure marks the item failed and the run moves on, so one bad item
//! never stops the stage. Every outcome is written back to the store
//! before the next item starts.

use vstd::prelude::*;
use vstd::string::*;
use crate::chars::{push_str_chars, string_from_chars};
use crate::num::{push_dec_pad, spec_dec_pad};
use crate::store::{DubbingTtsItem, JobStore, spec_find_tts};

verus! {

/// Where the synthesized clip of a subtitle is written.
pub open spec fn spec_tts_output_path(work_dir: Seq<char>, index: i32) -> Seq<char> {
    work_dir + "/tts/tts_"@ + spec_dec_pad(index as nat, 4) + ".mp3"@
}

/// Build the output path `{work_dir}/tts/tts_{index:04}.mp3`.
pub fn tts_output_path(work_dir: &str, index: i32) -> (r: String)
    requires
        index >= 0,
    ensures
        r@ == spec_tts_output_path(work_dir@, index),
{
    let mut out: Vec<char> = Vec::new();
    push_str_chars(&mut out, work_dir);
    push_str_chars(&mut out, "/tts/tts_");
    push_dec_pad(index as u64, 4, &mut out);
    push_str_chars(&mut out, ".mp3");
    proof {
        assert(out@ =~= spec_tts_output_path(work_dir@, index));
    }
    string_from_chars(&out)
}

/// The executor's walk over the pending items of one job.
#[derive(Debug)]
pub struct TtsExecutor {
    /// The pending rows, in the order the store returned them.
    pub pending: Vec<DubbingTtsItem>,
    /// Position of the item being synthesized.
    pub pos: usize,
    /// Failed attempts of the current item (three allowed).
    pub attempt: u8,
}

impl TtsExecutor {
    /// Executor consistency.
    pub open spec fn wf(self) -> bool {
        &&& self.pos <= self.pending@.len()
        &&& self.attempt < 3
    }

    /// All items processed?
    pub open spec fn spec_done(self) -> bool {
        self.pos == self.pending@.len()
    }

    /// Start at the first pending item.
    pub fn new(pending: Vec<DubbingTtsItem>) -> (e: TtsExecutor)
        ensures
            e.wf(),
            e.pending == pending,
            e.pos == 0,
            e.attempt == 0,
    {
        TtsExecutor { pending, pos: 0, attempt: 0 }
    }

    /// All items processed?
    pub fn is_done(&self) -> (r: bool)
        ensures
            r == self.spec_done(),
    {
        self.pos == self.pending.len()
    }

    /// The item to synthesize next, or `None` when the run is over.
    pub fn current_item(&self) -> (r: Option<&DubbingTtsItem>)
        requires
            self.wf(),
        ensures
            (r is Some) <==> !self.spec_done(),
            r matches Some(it) ==> *it == self.pending@[self.pos as int],
    {
        if self.pos < self.pending.len() {
            Some(&self.pending[self.pos])
        } else {
            None
        }
    }

    /// Seconds to sleep before re-trying the current item: 2, then 4 —
    /// doubling with each failure, none before a first try.
    pub fn backoff_secs(&self) -> (r: u64)
        requires
            self.wf(),
        ensures
            self.attempt == 0 ==> r == 0,
            self.attempt > 0 ==> r == (1u64 << (self.attempt as u64)),
    {
        if self.attempt > 0 {
            1u64 << (self.attempt as u64)
        } else {
            0
        }
    }

    /// Record a successful synthesis of the current item: its store row is
    /// completed with the clip path and duration, and the walk advances.
    pub fn on_success(
        &mut self,
        store: &mut JobStore,
        audio_path: &str,
        duration_ms: i64,
        now: &str,
    )
        requires
            old(self).wf(),
            !old(self).spec_done(),
            old(store).wf(),
            duration_ms >= 0,
        ensures
            final(self).wf(),
            final(store).wf(),
            final(self).pending == old(self).pending,
            final(self).pos == old(self).pos + 1,
            final(self).attempt == 0,
            ({
                let it = old(self).pending@[old(self).pos as int];
                match spec_find_tts(old(store).tts_items@, it.job_id@, it.subtitle_index) {
                    None => final(store).tts_items == old(store).tts_items,
                    Some(i) => ({
                        let row = final(store).tts_items@[i];
                        &&& final(store).tts_items@ == old(store).tts_items@.update(i, row)
                        &&& row.status@ == "completed"@
                        &&& (row.tts_audio_path matches Some(p) && p@ == audio_path@)
                        &&& row.tts_duration_ms == Some(duration_ms)
                    }),
                }
            }),
            final(store).jobs == old(store).jobs,
            final(store).stages == old(store).stages,
            final(store).translation_progress == old(store).translation_progress,
    {
        let n = self.pending.len();
        let it = &self.pending[self.pos];
        store.update_tts_item_completed(
            it.job_id.as_str(),
            it.subtitle_index,
            audio_path,
            duration_ms,
            now,
        );
        assert(self.pos < n);
        self.pos = self.pos + 1;
        self.attempt = 0;
    }

    /// Record a failed attempt. While attempts remain the walk stays on
    /// the item (returns `false`); on the third failure the store row is
    /// marked failed with the error text and the walk advances anyway
    /// (returns `true`) — a failed item does not fail the stage.
    pub fn on_failure(&mut self, store: &mut JobStore, error: &str) -> (gave_up: bool)
        requires
            old(self).wf(),
            !old(self).spec_done(),
            old(store).wf(),
        ensures
            final(self).wf(),
            final(store).wf(),
            final(self).pending == old(self).pending,
            gave_up == (old(self).attempt == 2),
            !gave_up ==> final(self).pos == old(self).pos && final(self).attempt == old(
                self,
            ).attempt + 1 && *final(store) == *old(store),
            gave_up ==> final(self).pos == old(self).pos + 1 && final(self).attempt == 0,
            gave_up ==> ({
                let it = old(self).pending@[old(self).pos as int];
                match spec_find_tts(old(store).tts_items@, it.job_id@, it.subtitle_index) {
                    None => final(store).tts_items == old(store).tts_items,
                    Some(i) => ({
                        let row = final(store).tts_items@[i];
                        &&& final(store).tts_items@ == old(store).tts_items@.update(i, row)
                        &&& row.status@ == "failed"@
                        &&& (row.error matches Some(e) && e@ == error@)
                    }),
                }
            }),
            final(store).jobs == old(store).jobs,
            final(store).stages == old(store).stages,
            final(store).translation_progress == old(store).translation_progress,
    {
        if self.attempt < 2 {
            self.attempt = self.attempt + 1;
            false
        } else {
            let n = self.pending.len();
            let it = &self.pending[self.pos];
            store.update_tts_item_failed(it.job_id.as_str(), it.subtitle_index, error);
            assert(self.pos < n);
            self.pos = self.pos + 1;
            self.attempt = 0;
            true
        }
    }
}

} // verus!
