//! The durable-state model: jobs, stage checkpoints, per-item TTS rows and
//! translation progress, with the invariants the pipeline relies on for
//! resume. The caller mirrors every change to its storage; the logic and
//! its guarantees live here.

use vstd::multiset::Multiset;
use vstd::prelude::*;
use vstd::string::*;
use crate::errors::DubError;

verus! {

// ── Entities ────────────────────────────────────────────────────────────────

/// An LLM endpoint record.
#[derive(Debug, Clone, PartialEq, Eq)]
pub struct AiConfig {
    pub id: String,
    pub title: String,
    pub base_url: String,
    pub api_key: String,
    pub model: String,
    pub sort_order: i32,
    pub is_default: bool,
    pub concurrent_limit: i32,
    pub request_timeout: i32,
    pub rate_limit: i32,
}

/// A dubbing run rooted at a project directory.
#[derive(Debug, Clone, PartialEq, Eq)]
pub struct DubbingJob {
    pub id: String,
    pub project_dir: String,
    pub video_path: String,
    pub subtitle_count: i32,
    pub reference_mode: String,
    pub reference_audio_path: Option<String>,
    pub tts_plugin_id: Option<String>,
    pub status: String,
    pub current_stage: Option<String>,
    pub error: Option<String>,
    pub created_at: String,
    pub updated_at: String,
}

/// The checkpoint row of one named stage of a job.
#[derive(Debug, Clone, PartialEq, Eq)]
pub struct DubbingStageState {
    pub job_id: String,
    pub stage: String,
    pub status: String,
    pub progress: i32,
    pub output_path: Option<String>,
    pub error: Option<String>,
    pub completed_at: Option<String>,
}

/// The per-subtitle TTS work row: the unit of resume for the TTS stage.
#[derive(Debug, Clone, PartialEq, Eq)]
pub struct DubbingTtsItem {
    pub job_id: String,
    pub subtitle_index: i32,
    pub preprocessed_text: String,
    pub start_ms: i64,
    pub end_ms: i64,
    pub reference_audio_path: Option<String>,
    pub tts_audio_path: Option<String>,
    pub tts_duration_ms: Option<i64>,
    pub status: String,
    pub retry_count: i32,
    pub error: Option<String>,
    pub completed_at: Option<String>,
}

/// A TTS provider record.
#[derive(Debug, Clone, PartialEq, Eq)]
pub struct TtsPlugin {
    pub id: String,
    pub name: String,
    pub plugin_type: String,
    pub config_json: String,
    pub requires_ref: bool,
    pub is_enabled: bool,
    pub sort_order: i32,
    pub created_at: String,
}

/// One translation checkpoint: the accepted text of a subtitle for a
/// phase of a run.
#[derive(Debug, Clone, PartialEq, Eq)]
pub struct TranslationRow {
    pub project_dir: String,
    pub subtitle_index: u64,
    pub phase: String,
    pub result_text: String,
}

// ── Stage names and statuses ────────────────────────────────────────────────

/// The fixed, ordered stages of a dubbing job.
#[derive(Debug, Clone, Copy, PartialEq, Eq)]
pub enum Stage {
    Preprocess,
    Media,
    Reference,
    Tts,
    Alignment,
    Compose,
}

/// The status of a stage checkpoint.
#[derive(Debug, Clone, Copy, PartialEq, Eq)]
pub enum StageStatus {
    Pending,
    Running,
    Completed,
    Failed,
}

/// The stored name of a stage.
pub open spec fn spec_stage_name(s: Stage) -> Seq<char> {
    match s {
        Stage::Preprocess => "preprocess"@,
        Stage::Media => "media"@,
        Stage::Reference => "reference"@,
        Stage::Tts => "tts"@,
        Stage::Alignment => "alignment"@,
        Stage::Compose => "compose"@,
    }
}

/// The name of a stage, as stored in its rows.
pub fn stage_name(s: Stage) -> (r: &'static str)
    ensures
        r@ == spec_stage_name(s),
{
    match s {
        Stage::Preprocess => "preprocess",
        Stage::Media => "media",
        Stage::Reference => "reference",
        Stage::Tts => "tts",
        Stage::Alignment => "alignment",
        Stage::Compose => "compose",
    }
}

/// The stored name of a stage status.
pub open spec fn spec_status_name(s: StageStatus) -> Seq<char> {
    match s {
        StageStatus::Pending => "pending"@,
        StageStatus::Running => "running"@,
        StageStatus::Completed => "completed"@,
        StageStatus::Failed => "failed"@,
    }
}

/// The name of a status, as stored in its rows.
pub fn status_name(s: StageStatus) -> (r: &'static str)
    ensures
        r@ == spec_status_name(s),
{
    match s {
        StageStatus::Pending => "pending",
        StageStatus::Running => "running",
        StageStatus::Completed => "completed",
        StageStatus::Failed => "failed",
    }
}

/// The four status words are pairwise distinct.
pub proof fn lemma_status_words_distinct()
    ensures
        "pending"@ != "running"@,
        "pending"@ != "completed"@,
        "pending"@ != "failed"@,
        "running"@ != "completed"@,
        "running"@ != "failed"@,
        "completed"@ != "failed"@,
{
    reveal_strlit("pending");
    reveal_strlit("running");
    reveal_strlit("completed");
    reveal_strlit("failed");
    assert("pending"@.len() == 7);
    assert("running"@.len() == 7);
    assert("completed"@.len() == 9);
    assert("failed"@.len() == 6);
    assert("pending"@[0] == 'p' && "running"@[0] == 'r');
}

/// Only the completed status is stored under the name `completed`.
pub proof fn lemma_status_name_completed(s: StageStatus)
    ensures
        (spec_status_name(s) == "completed"@) <==> (s is Completed),
{
    lemma_status_words_distinct();
}

/// The status a stored word denotes, when it is one of the four.
pub open spec fn spec_parse_status(s: Seq<char>) -> Option<StageStatus> {
    if s == spec_status_name(StageStatus::Pending) {
        Some(StageStatus::Pending)
    } else if s == spec_status_name(StageStatus::Running) {
        Some(StageStatus::Running)
    } else if s == spec_status_name(StageStatus::Completed) {
        Some(StageStatus::Completed)
    } else if s == spec_status_name(StageStatus::Failed) {
        Some(StageStatus::Failed)
    } else {
        None
    }
}

/// The poset of legal stage transitions: `pending` precedes `running`,
/// which precedes `completed` and `failed`; a failed stage may run again.
pub open spec fn spec_transition_allowed(from: StageStatus, to: StageStatus) -> bool {
    ||| (from is Pending && to is Running)
    ||| (from is Running && to is Completed)
    ||| (from is Running && to is Failed)
    ||| (from is Failed && to is Running)
}

/// Decide whether `from` may move to `to`.
pub fn transition_allowed(from: StageStatus, to: StageStatus) -> (r: bool)
    ensures
        r == spec_transition_allowed(from, to),
{
    match (from, to) {
        (StageStatus::Pending, StageStatus::Running) => true,
        (StageStatus::Running, StageStatus::Completed) => true,
        (StageStatus::Running, StageStatus::Failed) => true,
        (StageStatus::Failed, StageStatus::Running) => true,
        _ => false,
    }
}

/// The stage-transition law in full: the only moves the store accepts are
/// `pending → running`, `running → completed`, `running → failed` and
/// `failed → running`; in particular nothing leaves `completed`, and no
/// state is entered from itself.
pub proof fn lemma_stage_poset(from: StageStatus, to: StageStatus)
    ensures
        spec_transition_allowed(from, to) <==> ((from is Pending && to is Running) || (from
            is Running && to is Completed) || (from is Running && to is Failed) || (from is Failed
            && to is Running)),
        from is Completed ==> !spec_transition_allowed(from, to),
        spec_transition_allowed(from, to) ==> from != to,
{
}

// ── The store ───────────────────────────────────────────────────────────────

/// First stage row of `(job, stage)`.
pub open spec fn spec_find_stage(s: Seq<DubbingStageState>, job: Seq<char>, stage: Seq<char>)
    -> Option<int>
    decreases s.len(),
{
    if s.len() == 0 {
        None
    } else if s[0].job_id@ == job && s[0].stage@ == stage {
        Some(0)
    } else {
        match spec_find_stage(s.drop_first(), job, stage) {
            Some(i) => Some(i + 1),
            None => None,
        }
    }
}

/// First TTS row of `(job, index)`.
pub open spec fn spec_find_tts(s: Seq<DubbingTtsItem>, job: Seq<char>, idx: i32) -> Option<int>
    decreases s.len(),
{
    if s.len() == 0 {
        None
    } else if s[0].job_id@ == job && s[0].subtitle_index == idx {
        Some(0)
    } else {
        match spec_find_tts(s.drop_first(), job, idx) {
            Some(i) => Some(i + 1),
            None => None,
        }
    }
}

/// First progress row of `(dir, index, phase)`.
pub open spec fn spec_find_progress(
    s: Seq<TranslationRow>,
    dir: Seq<char>,
    idx: u64,
    phase: Seq<char>,
) -> Option<int>
    decreases s.len(),
{
    if s.len() == 0 {
        None
    } else if s[0].project_dir@ == dir && s[0].subtitle_index == idx && s[0].phase@ == phase {
        Some(0)
    } else {
        match spec_find_progress(s.drop_first(), dir, idx, phase) {
            Some(i) => Some(i + 1),
            None => None,
        }
    }
}

/// First job rooted at `dir`.
pub open spec fn spec_find_job(s: Seq<DubbingJob>, dir: Seq<char>) -> Option<int>
    decreases s.len(),
{
    if s.len() == 0 {
        None
    } else if s[0].project_dir@ == dir {
        Some(0)
    } else {
        match spec_find_job(s.drop_first(), dir) {
            Some(i) => Some(i + 1),
            None => None,
        }
    }
}

/// A TTS row is internally consistent: its time span is ordered and a
/// completed row carries its audio path and a nonnegative duration.
pub open spec fn spec_tts_item_wf(it: DubbingTtsItem) -> bool {
    &&& it.end_ms >= it.start_ms
    &&& it.status@ == "completed"@ ==> it.tts_audio_path is Some && (it.tts_duration_ms matches
    Some(d) && d >= 0)
}

/// A stage row is internally consistent: a completed row shows progress
/// 100, any other row progress 0.
pub open spec fn spec_stage_row_wf(row: DubbingStageState) -> bool {
    &&& row.status@ == "completed"@ ==> row.progress == 100
    &&& row.status@ != "completed"@ ==> row.progress == 0
}

/// Audio-completeness law of the TTS rows: in a well-formed store, every
/// row marked completed carries its audio path and a nonnegative
/// duration.
pub proof fn lemma_completed_item_has_audio(store: JobStore, i: int)
    requires
        store.wf(),
        0 <= i < store.tts_items@.len(),
        store.tts_items@[i].status@ == "completed"@,
    ensures
        store.tts_items@[i].tts_audio_path is Some,
        store.tts_items@[i].tts_duration_ms matches Some(d) && d >= 0,
{
}

/// The in-memory job state store.
#[derive(Debug)]
pub struct JobStore {
    pub jobs: Vec<DubbingJob>,
    pub stages: Vec<DubbingStageState>,
    pub tts_items: Vec<DubbingTtsItem>,
    pub translation_progress: Vec<TranslationRow>,
}

impl JobStore {
    /// All rows are internally consistent.
    pub open spec fn wf(self) -> bool {
        &&& forall|i: int|
            0 <= i < self.stages@.len() ==> spec_stage_row_wf(#[trigger] self.stages@[i])
        &&& forall|i: int|
            0 <= i < self.tts_items@.len() ==> spec_tts_item_wf(#[trigger] self.tts_items@[i])
    }

    /// An empty store.
    pub fn new() -> (s: JobStore)
        ensures
            s.wf(),
            s.jobs@.len() == 0,
            s.stages@.len() == 0,
            s.tts_items@.len() == 0,
            s.translation_progress@.len() == 0,
    {
        JobStore {
            jobs: Vec::new(),
            stages: Vec::new(),
            tts_items: Vec::new(),
            translation_progress: Vec::new(),
        }
    }

    // ── Stages ──────────────────────────────────────────────────────────

    fn find_stage(&self, job_id: &str, stage: &str) -> (r: Option<usize>)
        ensures
            match r {
                Some(i) => spec_find_stage(self.stages@, job_id@, stage@) == Some(i as int) && i
                    < self.stages@.len(),
                None => spec_find_stage(self.stages@, job_id@, stage@) is None,
            },
    {
        let n = self.stages.len();
        proof {
            assert(self.stages@.skip(0) =~= self.stages@);
        }
        let mut i: usize = 0;
        while i < n
            invariant
                i <= n,
                n == self.stages@.len(),
                (spec_find_stage(self.stages@, job_id@, stage@) is None <==> spec_find_stage(
                    self.stages@.skip(i as int),
                    job_id@,
                    stage@,
                ) is None),
                spec_find_stage(self.stages@.skip(i as int), job_id@, stage@) matches Some(j)
                    ==> spec_find_stage(self.stages@, job_id@, stage@) == Some(j + i),
            decreases n - i,
        {
            proof {
                assert(self.stages@.skip(i as int)[0] == self.stages@[i as int]);
                assert(self.stages@.skip(i as int).drop_first() =~= self.stages@.skip(i + 1));
            }
            let row = &self.stages[i];
            if str_eq_opt(row.job_id.as_str(), job_id) && str_eq_opt(row.stage.as_str(), stage) {
                return Some(i);
            }
            i += 1;
        }
        assert(self.stages@.skip(n as int) =~= Seq::<DubbingStageState>::empty());
        None
    }

    /// The effective status of `(job, stage)`: `Pending` without a row,
    /// else the stored word's status.
    pub open spec fn spec_stage_status(self, job: Seq<char>, stage: Stage) -> Option<StageStatus> {
        match spec_find_stage(self.stages@, job, spec_stage_name(stage)) {
            None => Some(StageStatus::Pending),
            Some(i) => spec_parse_status(self.stages@[i].status@),
        }
    }

    /// The status of a stage, `Pending` when it has no row yet; `None`
    /// exactly when its row holds an unknown status word.
    pub fn stage_status(&self, job_id: &str, stage: Stage) -> (r: Option<StageStatus>)
        ensures
            r == self.spec_stage_status(job_id@, stage),
    {
        proof {
            lemma_status_words_distinct();
        }
        let name = stage_name(stage);
        match self.find_stage(job_id, name) {
            None => Some(StageStatus::Pending),
            Some(i) => {
                let row = &self.stages[i];
                if str_eq_opt(row.status.as_str(), "pending") {
                    Some(StageStatus::Pending)
                } else if str_eq_opt(row.status.as_str(), "running") {
                    Some(StageStatus::Running)
                } else if str_eq_opt(row.status.as_str(), "completed") {
                    Some(StageStatus::Completed)
                } else if str_eq_opt(row.status.as_str(), "failed") {
                    Some(StageStatus::Failed)
                } else {
                    None
                }
            },
        }
    }

    /// Move a stage of a job to `status`, writing its checkpoint row.
    ///
    /// The move must obey the stage poset, starting from `pending` when the
    /// stage has no row. A completed row carries progress 100 and the given
    /// completion instant; every other row carries progress 0. On a refused
    /// move the store is unchanged and the stage's prior status is
    /// reported in the error.
    pub fn set_stage_status(
        &mut self,
        job_id: &str,
        stage: Stage,
        status: StageStatus,
        output_path: Option<String>,
        error: Option<String>,
        now: &str,
    ) -> (r: Result<(), DubError>)
        requires
            old(self).wf(),
        ensures
            final(self).wf(),
            final(self).jobs == old(self).jobs,
            final(self).tts_items == old(self).tts_items,
            final(self).translation_progress == old(self).translation_progress,
            r is Err ==> *final(self) == *old(self),
            (r is Ok) <==> (old(self).spec_stage_status(job_id@, stage) matches Some(from)
                && spec_transition_allowed(from, status)),
            r is Ok ==> ({
                let rows = final(self).stages@;
                let key = spec_find_stage(old(self).stages@, job_id@, spec_stage_name(stage));
                let j: int = match key {
                    Some(i) => i,
                    None => old(self).stages@.len() as int,
                };
                &&& rows.len() == (match key {
                    Some(_) => old(self).stages@.len() as int,
                    None => old(self).stages@.len() + 1int,
                })
                &&& forall|k: int|
                    0 <= k < rows.len() && k != j ==> rows[k] == #[trigger] old(self).stages@[k]
                &&& rows[j].job_id@ == job_id@
                &&& rows[j].stage@ == spec_stage_name(stage)
                &&& rows[j].status@ == spec_status_name(status)
                &&& rows[j].progress == (if status is Completed {
                    100int
                } else {
                    0int
                })
                &&& rows[j].output_path == output_path
                &&& rows[j].error == error
                &&& (status is Completed ==> (rows[j].completed_at matches Some(t) && t@ == now@))
                &&& (!(status is Completed) ==> rows[j].completed_at is None)
            }),
    {
        let name = stage_name(stage);
        let from = match self.stage_status(job_id, stage) {
            Some(st) => st,
            None => {
                return Err(
                    DubError::Storage {
                        detail: String::from_str("stage row holds an unknown status"),
                    },
                );
            },
        };
        if !transition_allowed(from, status) {
            return Err(
                DubError::Storage { detail: String::from_str("stage transition refused") },
            );
        }
        let completed = matches!(status, StageStatus::Completed);
        let row = DubbingStageState {
            job_id: String::from_str(job_id),
            stage: String::from_str(name),
            status: String::from_str(status_name(status)),
            progress: if completed {
                100
            } else {
                0
            },
            output_path,
            error,
            completed_at: if completed {
                Some(String::from_str(now))
            } else {
                None
            },
        };
        proof {
            lemma_status_name_completed(status);
        }
        match self.find_stage(job_id, name) {
            Some(i) => {
                self.stages.set(i, row);
            },
            None => {
                self.stages.push(row);
            },
        }
        Ok(())
    }

    /// The stage rows of a job, in stored order.
    pub fn get_dubbing_stages(&self, job_id: &str) -> (r: Vec<DubbingStageState>)
        ensures
            r@ == self.stages@.filter(|row: DubbingStageState| row.job_id@ == job_id@),
    {
        let ghost pred = |row: DubbingStageState| row.job_id@ == job_id@;
        let mut out: Vec<DubbingStageState> = Vec::new();
        let mut i: usize = 0;
        proof {
            assert(self.stages@.take(0) =~= Seq::<DubbingStageState>::empty());
            assert(Seq::<DubbingStageState>::empty().filter(pred)
                =~= Seq::<DubbingStageState>::empty()) by {
                reveal(Seq::filter);
            }
        }
        while i < self.stages.len()
            invariant
                i <= self.stages@.len(),
                pred == (|row: DubbingStageState| row.job_id@ == job_id@),
                out@ == self.stages@.take(i as int).filter(pred),
            decreases self.stages.len() - i,
        {
            proof {
                self.stages@.take(i as int).lemma_filter_push(self.stages@[i as int], pred);
                assert(self.stages@.take(i + 1) =~= self.stages@.take(i as int).push(
                    self.stages@[i as int],
                ));
            }
            let row = &self.stages[i];
            if str_eq_opt(row.job_id.as_str(), job_id) {
                let copy = clone_stage_row(row);
                proof {
                    assert(copy == self.stages@[i as int]);
                }
                out.push(copy);
            }
            i += 1;
        }
        proof {
            assert(self.stages@.take(self.stages@.len() as int) =~= self.stages@);
        }
        out
    }
    // ── TTS items ───────────────────────────────────────────────────────

    fn find_tts(&self, job_id: &str, idx: i32) -> (r: Option<usize>)
        ensures
            match r {
                Some(i) => spec_find_tts(self.tts_items@, job_id@, idx) == Some(i as int) && i
                    < self.tts_items@.len(),
                None => spec_find_tts(self.tts_items@, job_id@, idx) is None,
            },
    {
        let n = self.tts_items.len();
        proof {
            assert(self.tts_items@.skip(0) =~= self.tts_items@);
        }
        let mut i: usize = 0;
        while i < n
            invariant
                i <= n,
                n == self.tts_items@.len(),
                (spec_find_tts(self.tts_items@, job_id@, idx) is None <==> spec_find_tts(
                    self.tts_items@.skip(i as int),
                    job_id@,
                    idx,
                ) is None),
                spec_find_tts(self.tts_items@.skip(i as int), job_id@, idx) matches Some(j)
                    ==> spec_find_tts(self.tts_items@, job_id@, idx) == Some(j + i),
            decreases n - i,
        {
            proof {
                assert(self.tts_items@.skip(i as int)[0] == self.tts_items@[i as int]);
                assert(self.tts_items@.skip(i as int).drop_first() =~= self.tts_items@.skip(
                    i + 1,
                ));
            }
            let row = &self.tts_items[i];
            if row.subtitle_index == idx && str_eq_opt(row.job_id.as_str(), job_id) {
                return Some(i);
            }
            i += 1;
        }
        assert(self.tts_items@.skip(n as int) =~= Seq::<DubbingTtsItem>::empty());
        None
    }

    /// Create the missing TTS rows for `items`, as fresh `pending` rows in
    /// input order; rows whose `(job, index)` already exists stay exactly
    /// as they are, so completed work is never disturbed.
    pub fn bulk_upsert_tts_items(&mut self, items: &Vec<DubbingTtsItem>)
        requires
            old(self).wf(),
            forall|i: int|
                0 <= i < items@.len() ==> (#[trigger] items@[i]).end_ms >= items@[i].start_ms
                    && items@[i].status@ == "pending"@,
        ensures
            final(self).wf(),
            final(self).jobs == old(self).jobs,
            final(self).stages == old(self).stages,
            final(self).translation_progress == old(self).translation_progress,
            final(self).tts_items@ == old(self).tts_items@ + items@.filter(
                |it: DubbingTtsItem|
                    spec_find_tts(old(self).tts_items@, it.job_id@, it.subtitle_index) is None,
            ).map_values(|it: DubbingTtsItem| spec_fresh_tts_row(it)),
    {
        let ghost old_rows = self.tts_items@;
        let ghost pred = |it: DubbingTtsItem|
            spec_find_tts(old_rows, it.job_id@, it.subtitle_index) is None;
        let ghost fresh = |it: DubbingTtsItem| spec_fresh_tts_row(it);
        let n0 = self.tts_items.len();
        let mut i: usize = 0;
        proof {
            assert(items@.take(0).filter(pred) =~= Seq::<DubbingTtsItem>::empty()) by {
                reveal(Seq::filter);
            }
            assert(self.tts_items@ =~= old_rows + items@.take(0).filter(pred).map_values(fresh));
        }
        while i < items.len()
            invariant
                i <= items@.len(),
                n0 == old_rows.len(),
                old_rows == old(self).tts_items@,
                pred == (|it: DubbingTtsItem|
                    spec_find_tts(old_rows, it.job_id@, it.subtitle_index) is None),
                fresh == (|it: DubbingTtsItem| spec_fresh_tts_row(it)),
                forall|k: int|
                    0 <= k < items@.len() ==> (#[trigger] items@[k]).end_ms >= items@[k].start_ms
                        && items@[k].status@ == "pending"@,
                self.jobs == old(self).jobs,
                self.stages == old(self).stages,
                self.translation_progress == old(self).translation_progress,
                self.tts_items@ == old_rows + items@.take(i as int).filter(pred).map_values(
                    fresh,
                ),
                old(self).wf(),
            decreases items.len() - i,
        {
            proof {
                items@.take(i as int).lemma_filter_push(items@[i as int], pred);
                assert(items@.take(i + 1) =~= items@.take(i as int).push(items@[i as int]));
            }
            let it = &items[i];
            proof {
                assert(self.tts_items@.take(n0 as int) =~= old_rows);
            }
            if !tts_exists_in_prefix(&self.tts_items, n0, it) {
                let row = DubbingTtsItem {
                    job_id: it.job_id.clone(),
                    subtitle_index: it.subtitle_index,
                    preprocessed_text: it.preprocessed_text.clone(),
                    start_ms: it.start_ms,
                    end_ms: it.end_ms,
                    reference_audio_path: None,
                    tts_audio_path: None,
                    tts_duration_ms: None,
                    status: it.status.clone(),
                    retry_count: 0,
                    error: None,
                    completed_at: None,
                };
                proof {
                    assert(row == spec_fresh_tts_row(items@[i as int]));
                }
                self.tts_items.push(row);
                proof {
                    assert(self.tts_items@ =~= old_rows + items@.take(i + 1).filter(
                        pred,
                    ).map_values(fresh));
                }
            } else {
                proof {
                    assert(self.tts_items@ =~= old_rows + items@.take(i + 1).filter(
                        pred,
                    ).map_values(fresh));
                }
            }
            i += 1;
        }
        proof {
            assert(items@.take(items@.len() as int) =~= items@);
            assert forall|k: int|
                0 <= k < self.tts_items@.len() implies spec_tts_item_wf(
                #[trigger] self.tts_items@[k],
            ) by {
                if k >= old_rows.len() {
                    let f = items@.filter(pred).map_values(fresh);
                    assert(self.tts_items@[k] == f[k - old_rows.len()]);
                    let src = items@.filter(pred)[k - old_rows.len()];
                    assert(items@.filter(pred).contains(src));
                    items@.lemma_filter_contains_rev(pred, src);
                    let w = choose|w: int| 0 <= w < items@.len() && items@[w] == src;
                    assert(items@[w].end_ms >= items@[w].start_ms && items@[w].status@
                        == "pending"@);
                    lemma_fresh_row_wf(src);
                }
            }
        }
    }

    /// Mark an item completed with its audio path and duration; every
    /// other field and row is untouched. An unknown `(job, index)` changes
    /// nothing.
    pub fn update_tts_item_completed(
        &mut self,
        job_id: &str,
        subtitle_index: i32,
        tts_audio_path: &str,
        tts_duration_ms: i64,
        now: &str,
    )
        requires
            old(self).wf(),
            tts_duration_ms >= 0,
        ensures
            final(self).wf(),
            final(self).jobs == old(self).jobs,
            final(self).stages == old(self).stages,
            final(self).translation_progress == old(self).translation_progress,
            match spec_find_tts(old(self).tts_items@, job_id@, subtitle_index) {
                None => final(self).tts_items == old(self).tts_items,
                Some(i) => ({
                    let row = final(self).tts_items@[i];
                    let prev = old(self).tts_items@[i];
                    &&& final(self).tts_items@ == old(self).tts_items@.update(i, row)
                    &&& row.status@ == "completed"@
                    &&& (row.tts_audio_path matches Some(p) && p@ == tts_audio_path@)
                    &&& row.tts_duration_ms == Some(tts_duration_ms)
                    &&& (row.completed_at matches Some(t) && t@ == now@)
                    &&& row.error is None
                    &&& row.job_id == prev.job_id && row.subtitle_index == prev.subtitle_index
                    &&& row.preprocessed_text == prev.preprocessed_text
                    &&& row.start_ms == prev.start_ms && row.end_ms == prev.end_ms
                    &&& row.reference_audio_path == prev.reference_audio_path
                    &&& row.retry_count == prev.retry_count
                }),
            },
    {
        match self.find_tts(job_id, subtitle_index) {
            None => {},
            Some(i) => {
                let prev = &self.tts_items[i];
                let row = DubbingTtsItem {
                    job_id: prev.job_id.clone(),
                    subtitle_index: prev.subtitle_index,
                    preprocessed_text: prev.preprocessed_text.clone(),
                    start_ms: prev.start_ms,
                    end_ms: prev.end_ms,
                    reference_audio_path: clone_opt_string(&prev.reference_audio_path),
                    tts_audio_path: Some(String::from_str(tts_audio_path)),
                    tts_duration_ms: Some(tts_duration_ms),
                    status: String::from_str("completed"),
                    retry_count: prev.retry_count,
                    error: None,
                    completed_at: Some(String::from_str(now)),
                };
                self.tts_items.set(i, row);
                proof {
                    assert(final(self).tts_items@ =~= old(self).tts_items@.update(
                        i as int,
                        final(self).tts_items@[i as int],
                    ));
                }
            },
        }
    }

    /// Mark an item failed with its error text, counting the retry; every
    /// other field and row is untouched.
    pub fn update_tts_item_failed(&mut self, job_id: &str, subtitle_index: i32, error: &str)
        requires
            old(self).wf(),
        ensures
            final(self).wf(),
            final(self).jobs == old(self).jobs,
            final(self).stages == old(self).stages,
            final(self).translation_progress == old(self).translation_progress,
            match spec_find_tts(old(self).tts_items@, job_id@, subtitle_index) {
                None => final(self).tts_items == old(self).tts_items,
                Some(i) => ({
                    let row = final(self).tts_items@[i];
                    let prev = old(self).tts_items@[i];
                    &&& final(self).tts_items@ == old(self).tts_items@.update(i, row)
                    &&& row.status@ == "failed"@
                    &&& (row.error matches Some(e) && e@ == error@)
                    &&& (prev.retry_count < i32::MAX ==> row.retry_count == prev.retry_count + 1)
                    &&& row.job_id == prev.job_id && row.subtitle_index == prev.subtitle_index
                    &&& row.preprocessed_text == prev.preprocessed_text
                    &&& row.start_ms == prev.start_ms && row.end_ms == prev.end_ms
                    &&& row.reference_audio_path == prev.reference_audio_path
                    &&& row.tts_audio_path == prev.tts_audio_path
                    &&& row.tts_duration_ms == prev.tts_duration_ms
                    &&& row.completed_at == prev.completed_at
                }),
            },
    {
        match self.find_tts(job_id, subtitle_index) {
            None => {},
            Some(i) => {
                let prev = &self.tts_items[i];
                let retries = if prev.retry_count < i32::MAX {
                    prev.retry_count + 1
                } else {
                    prev.retry_count
                };
                let row = DubbingTtsItem {
                    job_id: prev.job_id.clone(),
                    subtitle_index: prev.subtitle_index,
                    preprocessed_text: prev.preprocessed_text.clone(),
                    start_ms: prev.start_ms,
                    end_ms: prev.end_ms,
                    reference_audio_path: clone_opt_string(&prev.reference_audio_path),
                    tts_audio_path: clone_opt_string(&prev.tts_audio_path),
                    tts_duration_ms: prev.tts_duration_ms,
                    status: String::from_str("failed"),
                    retry_count: retries,
                    error: Some(String::from_str(error)),
                    completed_at: clone_opt_string(&prev.completed_at),
                };
                proof {
                    reveal_strlit("failed");
                    reveal_strlit("completed");
                    assert("failed"@.len() == 6 && "completed"@.len() == 9);
                }
                self.tts_items.set(i, row);
                proof {
                    assert(final(self).tts_items@ =~= old(self).tts_items@.update(
                        i as int,
                        final(self).tts_items@[i as int],
                    ));
                }
            },
        }
    }

    /// Record the reference audio of an item; everything else is untouched.
    pub fn update_tts_item_reference(&mut self, job_id: &str, subtitle_index: i32, path: &str)
        requires
            old(self).wf(),
        ensures
            final(self).wf(),
            final(self).jobs == old(self).jobs,
            final(self).stages == old(self).stages,
            final(self).translation_progress == old(self).translation_progress,
            match spec_find_tts(old(self).tts_items@, job_id@, subtitle_index) {
                None => final(self).tts_items == old(self).tts_items,
                Some(i) => ({
                    let row = final(self).tts_items@[i];
                    let prev = old(self).tts_items@[i];
                    &&& final(self).tts_items@ == old(self).tts_items@.update(i, row)
                    &&& (row.reference_audio_path matches Some(p) && p@ == path@)
                    &&& row == (DubbingTtsItem {
                        reference_audio_path: row.reference_audio_path,
                        ..prev
                    })
                }),
            },
    {
        match self.find_tts(job_id, subtitle_index) {
            None => {},
            Some(i) => {
                let prev = &self.tts_items[i];
                let row = DubbingTtsItem {
                    job_id: prev.job_id.clone(),
                    subtitle_index: prev.subtitle_index,
                    preprocessed_text: prev.preprocessed_text.clone(),
                    start_ms: prev.start_ms,
                    end_ms: prev.end_ms,
                    reference_audio_path: Some(String::from_str(path)),
                    tts_audio_path: clone_opt_string(&prev.tts_audio_path),
                    tts_duration_ms: prev.tts_duration_ms,
                    status: prev.status.clone(),
                    retry_count: prev.retry_count,
                    error: clone_opt_string(&prev.error),
                    completed_at: clone_opt_string(&prev.completed_at),
                };
                self.tts_items.set(i, row);
                proof {
                    assert(final(self).tts_items@ =~= old(self).tts_items@.update(
                        i as int,
                        final(self).tts_items@[i as int],
                    ));
                }
            },
        }
    }

    /// All TTS rows of a job, in ascending subtitle-index order.
    pub fn get_all_tts_items(&self, job_id: &str) -> (r: Vec<DubbingTtsItem>)
        ensures
            spec_items_sorted(r@),
            r@.to_multiset() == self.tts_items@.filter(
                |it: DubbingTtsItem| it.job_id@ == job_id@,
            ).to_multiset(),
            r@.len() == self.tts_items@.filter(|it: DubbingTtsItem| it.job_id@ == job_id@).len(),
            forall|k: int| 0 <= k < r@.len() ==> (#[trigger] r@[k]).job_id@ == job_id@,
    {
        let ghost pred = |it: DubbingTtsItem| it.job_id@ == job_id@;
        let mut out: Vec<DubbingTtsItem> = Vec::new();
        let mut i: usize = 0;
        proof {
            assert(self.tts_items@.take(0).filter(pred) =~= Seq::<DubbingTtsItem>::empty()) by {
                reveal(Seq::filter);
            }
        }
        while i < self.tts_items.len()
            invariant
                i <= self.tts_items@.len(),
                pred == (|it: DubbingTtsItem| it.job_id@ == job_id@),
                out@ == self.tts_items@.take(i as int).filter(pred),
            decreases self.tts_items.len() - i,
        {
            proof {
                self.tts_items@.take(i as int).lemma_filter_push(self.tts_items@[i as int], pred);
                assert(self.tts_items@.take(i + 1) =~= self.tts_items@.take(i as int).push(
                    self.tts_items@[i as int],
                ));
            }
            let row = &self.tts_items[i];
            if str_eq_opt(row.job_id.as_str(), job_id) {
                let copy = clone_tts_row(row);
                proof {
                    assert(copy == self.tts_items@[i as int]);
                }
                out.push(copy);
            }
            i += 1;
        }
        proof {
            assert(self.tts_items@.take(self.tts_items@.len() as int) =~= self.tts_items@);
        }
        let sorted = sort_items_by_index(out);
        proof {
            lemma_sorted_filter_members(self.tts_items@, pred, sorted@);
        }
        sorted
    }

    /// The rows of a job that still need work: exactly those whose status
    /// is not `completed`, in ascending subtitle-index order. Completed
    /// rows are never returned, so a resumed run touches only unfinished
    /// items.
    pub fn get_pending_tts_items(&self, job_id: &str) -> (r: Vec<DubbingTtsItem>)
        ensures
            spec_items_sorted(r@),
            r@.to_multiset() == self.tts_items@.filter(
                |it: DubbingTtsItem| it.job_id@ == job_id@ && it.status@ != "completed"@,
            ).to_multiset(),
            r@.len() == self.tts_items@.filter(
                |it: DubbingTtsItem| it.job_id@ == job_id@ && it.status@ != "completed"@,
            ).len(),
            forall|k: int|
                0 <= k < r@.len() ==> (#[trigger] r@[k]).job_id@ == job_id@ && r@[k].status@
                    != "completed"@,
    {
        let ghost pred = |it: DubbingTtsItem| it.job_id@ == job_id@ && it.status@ != "completed"@;
        let mut out: Vec<DubbingTtsItem> = Vec::new();
        let mut i: usize = 0;
        proof {
            assert(self.tts_items@.take(0).filter(pred) =~= Seq::<DubbingTtsItem>::empty()) by {
                reveal(Seq::filter);
            }
        }
        while i < self.tts_items.len()
            invariant
                i <= self.tts_items@.len(),
                pred == (|it: DubbingTtsItem|
                    it.job_id@ == job_id@ && it.status@ != "completed"@),
                out@ == self.tts_items@.take(i as int).filter(pred),
            decreases self.tts_items.len() - i,
        {
            proof {
                self.tts_items@.take(i as int).lemma_filter_push(self.tts_items@[i as int], pred);
                assert(self.tts_items@.take(i + 1) =~= self.tts_items@.take(i as int).push(
                    self.tts_items@[i as int],
                ));
            }
            let row = &self.tts_items[i];
            if str_eq_opt(row.job_id.as_str(), job_id) && !str_eq_opt(
                row.status.as_str(),
                "completed",
            ) {
                let copy = clone_tts_row(row);
                proof {
                    assert(copy == self.tts_items@[i as int]);
                }
                out.push(copy);
            }
            i += 1;
        }
        proof {
            assert(self.tts_items@.take(self.tts_items@.len() as int) =~= self.tts_items@);
        }
        let sorted = sort_items_by_index(out);
        proof {
            lemma_sorted_filter_members(self.tts_items@, pred, sorted@);
        }
        sorted
    }

    // ── Jobs ────────────────────────────────────────────────────────────

    fn find_job_by_dir(&self, dir: &str) -> (r: Option<usize>)
        ensures
            match r {
                Some(i) => spec_find_job(self.jobs@, dir@) == Some(i as int) && i
                    < self.jobs@.len(),
                None => spec_find_job(self.jobs@, dir@) is None,
            },
    {
        let n = self.jobs.len();
        proof {
            assert(self.jobs@.skip(0) =~= self.jobs@);
        }
        let mut i: usize = 0;
        while i < n
            invariant
                i <= n,
                n == self.jobs@.len(),
                (spec_find_job(self.jobs@, dir@) is None <==> spec_find_job(
                    self.jobs@.skip(i as int),
                    dir@,
                ) is None),
                spec_find_job(self.jobs@.skip(i as int), dir@) matches Some(j) ==> spec_find_job(
                    self.jobs@,
                    dir@,
                ) == Some(j + i),
            decreases n - i,
        {
            proof {
                assert(self.jobs@.skip(i as int)[0] == self.jobs@[i as int]);
                assert(self.jobs@.skip(i as int).drop_first() =~= self.jobs@.skip(i + 1));
            }
            if str_eq_opt(self.jobs[i].project_dir.as_str(), dir) {
                return Some(i);
            }
            i += 1;
        }
        assert(self.jobs@.skip(n as int) =~= Seq::<DubbingJob>::empty());
        None
    }

    /// The job rooted at `dir`, if any.
    pub fn get_dubbing_job_by_dir(&self, project_dir: &str) -> (r: Option<DubbingJob>)
        ensures
            match r {
                Some(job) => (spec_find_job(self.jobs@, project_dir@) matches Some(i)
                    && self.jobs@[i] == job),
                None => spec_find_job(self.jobs@, project_dir@) is None,
            },
    {
        match self.find_job_by_dir(project_dir) {
            Some(i) => {
                let job = clone_job_row(&self.jobs[i]);
                Some(job)
            },
            None => None,
        }
    }

    /// Insert or replace a job, keyed by its id.
    pub fn upsert_dubbing_job(&mut self, job: &DubbingJob)
        requires
            old(self).wf(),
        ensures
            final(self).wf(),
            final(self).stages == old(self).stages,
            final(self).tts_items == old(self).tts_items,
            final(self).translation_progress == old(self).translation_progress,
            ({
                let key = spec_find_job_id(old(self).jobs@, job.id@);
                match key {
                    Some(i) => final(self).jobs@ == old(self).jobs@.update(i, *job),
                    None => final(self).jobs@ == old(self).jobs@.push(*job),
                }
            }),
    {
        let copy = clone_job_row(job);
        match self.find_job_by_id(job.id.as_str()) {
            Some(i) => {
                self.jobs.set(i, copy);
            },
            None => {
                self.jobs.push(copy);
            },
        }
    }

    fn find_job_by_id(&self, id: &str) -> (r: Option<usize>)
        ensures
            match r {
                Some(i) => spec_find_job_id(self.jobs@, id@) == Some(i as int) && i
                    < self.jobs@.len(),
                None => spec_find_job_id(self.jobs@, id@) is None,
            },
    {
        let n = self.jobs.len();
        proof {
            assert(self.jobs@.skip(0) =~= self.jobs@);
        }
        let mut i: usize = 0;
        while i < n
            invariant
                i <= n,
                n == self.jobs@.len(),
                (spec_find_job_id(self.jobs@, id@) is None <==> spec_find_job_id(
                    self.jobs@.skip(i as int),
                    id@,
                ) is None),
                spec_find_job_id(self.jobs@.skip(i as int), id@) matches Some(j)
                    ==> spec_find_job_id(self.jobs@, id@) == Some(j + i),
            decreases n - i,
        {
            proof {
                assert(self.jobs@.skip(i as int)[0] == self.jobs@[i as int]);
                assert(self.jobs@.skip(i as int).drop_first() =~= self.jobs@.skip(i + 1));
            }
            if str_eq_opt(self.jobs[i].id.as_str(), id) {
                return Some(i);
            }
            i += 1;
        }
        assert(self.jobs@.skip(n as int) =~= Seq::<DubbingJob>::empty());
        None
    }

    /// Update a job's status, current stage and error, stamping the update
    /// instant. An unknown id changes nothing.
    pub fn update_dubbing_job_status(
        &mut self,
        job_id: &str,
        status: &str,
        current_stage: Option<String>,
        error: Option<String>,
        now: &str,
    )
        requires
            old(self).wf(),
        ensures
            final(self).wf(),
            final(self).stages == old(self).stages,
            final(self).tts_items == old(self).tts_items,
            final(self).translation_progress == old(self).translation_progress,
            match spec_find_job_id(old(self).jobs@, job_id@) {
                None => final(self).jobs == old(self).jobs,
                Some(i) => ({
                    let row = final(self).jobs@[i];
                    let prev = old(self).jobs@[i];
                    &&& final(self).jobs@ == old(self).jobs@.update(i, row)
                    &&& row.status@ == status@
                    &&& row.current_stage == current_stage
                    &&& row.error == error
                    &&& row.updated_at@ == now@
                    &&& row == (DubbingJob {
                        status: row.status,
                        current_stage: row.current_stage,
                        error: row.error,
                        updated_at: row.updated_at,
                        ..prev
                    })
                }),
            },
    {
        match self.find_job_by_id(job_id) {
            None => {},
            Some(i) => {
                let prev = &self.jobs[i];
                let row = DubbingJob {
                    id: prev.id.clone(),
                    project_dir: prev.project_dir.clone(),
                    video_path: prev.video_path.clone(),
                    subtitle_count: prev.subtitle_count,
                    reference_mode: prev.reference_mode.clone(),
                    reference_audio_path: clone_opt_string(&prev.reference_audio_path),
                    tts_plugin_id: clone_opt_string(&prev.tts_plugin_id),
                    status: String::from_str(status),
                    current_stage,
                    error,
                    created_at: prev.created_at.clone(),
                    updated_at: String::from_str(now),
                };
                self.jobs.set(i, row);
                proof {
                    assert(final(self).jobs@ =~= old(self).jobs@.update(
                        i as int,
                        final(self).jobs@[i as int],
                    ));
                }
            },
        }
    }

    /// Delete a job and everything it owns: its stage rows and TTS rows go
    /// with it.
    pub fn delete_dubbing_job(&mut self, job_id: &str)
        requires
            old(self).wf(),
        ensures
            final(self).wf(),
            final(self).translation_progress == old(self).translation_progress,
            final(self).jobs@ == old(self).jobs@.filter(
                |j: DubbingJob| j.id@ != job_id@,
            ),
            final(self).stages@ == old(self).stages@.filter(
                |row: DubbingStageState| row.job_id@ != job_id@,
            ),
            final(self).tts_items@ == old(self).tts_items@.filter(
                |it: DubbingTtsItem| it.job_id@ != job_id@,
            ),
    {
        let ghost jp = |j: DubbingJob| j.id@ != job_id@;
        let ghost sp = |row: DubbingStageState| row.job_id@ != job_id@;
        let ghost tp = |it: DubbingTtsItem| it.job_id@ != job_id@;
        let ghost jobs0 = self.jobs@;
        let ghost stages0 = self.stages@;
        let ghost tts0 = self.tts_items@;
        let mut jobs: Vec<DubbingJob> = Vec::new();
        let mut i: usize = 0;
        proof {
            assert(jobs0.take(0).filter(jp) =~= Seq::<DubbingJob>::empty()) by {
                reveal(Seq::filter);
            }
        }
        while i < self.jobs.len()
            invariant
                i <= self.jobs@.len(),
                jobs0 == self.jobs@,
                stages0 == self.stages@,
                tts0 == self.tts_items@,
                self.translation_progress == old(self).translation_progress,
                old(self).wf(),
                jp == (|j: DubbingJob| j.id@ != job_id@),
                jobs@ == jobs0.take(i as int).filter(jp),
            decreases self.jobs.len() - i,
        {
            proof {
                jobs0.take(i as int).lemma_filter_push(jobs0[i as int], jp);
                assert(jobs0.take(i + 1) =~= jobs0.take(i as int).push(jobs0[i as int]));
            }
            if !str_eq_opt(self.jobs[i].id.as_str(), job_id) {
                let copy = clone_job_row(&self.jobs[i]);
                proof {
                    assert(copy == jobs0[i as int]);
                }
                jobs.push(copy);
            }
            i += 1;
        }
        proof {
            assert(jobs0.take(jobs0.len() as int) =~= jobs0);
        }
        self.jobs = jobs;
        let mut stages: Vec<DubbingStageState> = Vec::new();
        let mut k: usize = 0;
        proof {
            assert(stages0.take(0).filter(sp) =~= Seq::<DubbingStageState>::empty()) by {
                reveal(Seq::filter);
            }
        }
        while k < self.stages.len()
            invariant
                k <= self.stages@.len(),
                stages0 == self.stages@,
                tts0 == self.tts_items@,
                self.translation_progress == old(self).translation_progress,
                self.jobs@ == jobs0.filter(|j: DubbingJob| j.id@ != job_id@),
                old(self).wf(),
                sp == (|row: DubbingStageState| row.job_id@ != job_id@),
                stages@ == stages0.take(k as int).filter(sp),
            decreases self.stages.len() - k,
        {
            proof {
                stages0.take(k as int).lemma_filter_push(stages0[k as int], sp);
                assert(stages0.take(k + 1) =~= stages0.take(k as int).push(stages0[k as int]));
            }
            if !str_eq_opt(self.stages[k].job_id.as_str(), job_id) {
                let copy = clone_stage_row(&self.stages[k]);
                proof {
                    assert(copy == stages0[k as int]);
                }
                stages.push(copy);
            }
            k += 1;
        }
        proof {
            assert(stages0.take(stages0.len() as int) =~= stages0);
        }
        self.stages = stages;
        let mut tts: Vec<DubbingTtsItem> = Vec::new();
        let mut t: usize = 0;
        proof {
            assert(tts0.take(0).filter(tp) =~= Seq::<DubbingTtsItem>::empty()) by {
                reveal(Seq::filter);
            }
        }
        while t < self.tts_items.len()
            invariant
                t <= self.tts_items@.len(),
                tts0 == self.tts_items@,
                self.translation_progress == old(self).translation_progress,
                self.jobs@ == jobs0.filter(|j: DubbingJob| j.id@ != job_id@),
                self.stages@ == stages0.filter(|row: DubbingStageState| row.job_id@ != job_id@),
                old(self).wf(),
                tp == (|it: DubbingTtsItem| it.job_id@ != job_id@),
                tts@ == tts0.take(t as int).filter(tp),
            decreases self.tts_items.len() - t,
        {
            proof {
                tts0.take(t as int).lemma_filter_push(tts0[t as int], tp);
                assert(tts0.take(t + 1) =~= tts0.take(t as int).push(tts0[t as int]));
            }
            if !str_eq_opt(self.tts_items[t].job_id.as_str(), job_id) {
                let copy = clone_tts_row(&self.tts_items[t]);
                proof {
                    assert(copy == tts0[t as int]);
                }
                tts.push(copy);
            }
            t += 1;
        }
        proof {
            assert(tts0.take(tts0.len() as int) =~= tts0);
            assert forall|x: int|
                0 <= x < self.stages@.len() implies spec_stage_row_wf(
                #[trigger] self.stages@[x],
            ) by {
                stages0.lemma_filter_pred(sp, x);
                assert(self.stages@[x] == stages0.filter(sp)[x]);
                assert(stages0.filter(sp).contains(stages0.filter(sp)[x]));
                stages0.lemma_filter_contains_rev(sp, stages0.filter(sp)[x]);
                let w = choose|w: int| 0 <= w < stages0.len() && stages0[w] == self.stages@[x];
                assert(spec_stage_row_wf(stages0[w]));
            }
        }
        self.tts_items = tts;
        proof {
            assert forall|x: int|
                0 <= x < self.tts_items@.len() implies spec_tts_item_wf(
                #[trigger] self.tts_items@[x],
            ) by {
                assert(self.tts_items@[x] == tts0.filter(tp)[x]);
                assert(tts0.filter(tp).contains(tts0.filter(tp)[x]));
                tts0.lemma_filter_contains_rev(tp, tts0.filter(tp)[x]);
                let w = choose|w: int| 0 <= w < tts0.len() && tts0[w] == self.tts_items@[x];
                assert(spec_tts_item_wf(tts0[w]));
            }
        }
    }

    // ── Translation progress ────────────────────────────────────────────

    fn find_progress(&self, dir: &str, idx: u64, phase: &str) -> (r: Option<usize>)
        ensures
            match r {
                Some(i) => spec_find_progress(self.translation_progress@, dir@, idx, phase@)
                    == Some(i as int) && i < self.translation_progress@.len(),
                None => spec_find_progress(self.translation_progress@, dir@, idx, phase@) is None,
            },
    {
        let n = self.translation_progress.len();
        proof {
            assert(self.translation_progress@.skip(0) =~= self.translation_progress@);
        }
        let mut i: usize = 0;
        while i < n
            invariant
                i <= n,
                n == self.translation_progress@.len(),
                (spec_find_progress(self.translation_progress@, dir@, idx, phase@) is None
                    <==> spec_find_progress(
                    self.translation_progress@.skip(i as int),
                    dir@,
                    idx,
                    phase@,
                ) is None),
                spec_find_progress(
                    self.translation_progress@.skip(i as int),
                    dir@,
                    idx,
                    phase@,
                ) matches Some(j) ==> spec_find_progress(
                    self.translation_progress@,
                    dir@,
                    idx,
                    phase@,
                ) == Some(j + i),
            decreases n - i,
        {
            proof {
                assert(self.translation_progress@.skip(i as int)[0]
                    == self.translation_progress@[i as int]);
                assert(self.translation_progress@.skip(i as int).drop_first()
                    =~= self.translation_progress@.skip(i + 1));
            }
            let row = &self.translation_progress[i];
            if row.subtitle_index == idx && str_eq_opt(row.project_dir.as_str(), dir)
                && str_eq_opt(row.phase.as_str(), phase) {
                return Some(i);
            }
            i += 1;
        }
        assert(self.translation_progress@.skip(n as int) =~= Seq::<TranslationRow>::empty());
        None
    }

    /// The checkpointed `(index, text)` pairs of a phase, in stored order.
    pub fn get_translation_progress(&self, project_dir: &str, phase: &str) -> (r: Vec<
        (u64, String),
    >)
        ensures
            r@ == self.translation_progress@.filter(
                |row: TranslationRow| row.project_dir@ == project_dir@ && row.phase@ == phase@,
            ).map_values(|row: TranslationRow| (row.subtitle_index, row.result_text)),
    {
        let ghost pred = |row: TranslationRow|
            row.project_dir@ == project_dir@ && row.phase@ == phase@;
        let ghost f = |row: TranslationRow| (row.subtitle_index, row.result_text);
        let mut out: Vec<(u64, String)> = Vec::new();
        let mut i: usize = 0;
        proof {
            assert(self.translation_progress@.take(0).filter(pred)
                =~= Seq::<TranslationRow>::empty()) by {
                reveal(Seq::filter);
            }
            assert(out@ =~= self.translation_progress@.take(0).filter(pred).map_values(f));
        }
        while i < self.translation_progress.len()
            invariant
                i <= self.translation_progress@.len(),
                pred == (|row: TranslationRow|
                    row.project_dir@ == project_dir@ && row.phase@ == phase@),
                f == (|row: TranslationRow| (row.subtitle_index, row.result_text)),
                out@ == self.translation_progress@.take(i as int).filter(pred).map_values(f),
            decreases self.translation_progress.len() - i,
        {
            proof {
                self.translation_progress@.take(i as int).lemma_filter_push(
                    self.translation_progress@[i as int],
                    pred,
                );
                assert(self.translation_progress@.take(i + 1)
                    =~= self.translation_progress@.take(i as int).push(
                    self.translation_progress@[i as int],
                ));
            }
            let row = &self.translation_progress[i];
            if str_eq_opt(row.project_dir.as_str(), project_dir) && str_eq_opt(
                row.phase.as_str(),
                phase,
            ) {
                let text = row.result_text.clone();
                proof {
                    assert((row.subtitle_index, text) == f(
                        self.translation_progress@[i as int],
                    ));
                }
                out.push((row.subtitle_index, text));
                proof {
                    assert(out@ =~= self.translation_progress@.take(i + 1).filter(
                        pred,
                    ).map_values(f));
                }
            } else {
                proof {
                    assert(out@ =~= self.translation_progress@.take(i + 1).filter(
                        pred,
                    ).map_values(f));
                }
            }
            i += 1;
        }
        proof {
            assert(self.translation_progress@.take(self.translation_progress@.len() as int)
                =~= self.translation_progress@);
        }
        out
    }

    /// Checkpoint one result: the row for `(dir, index, phase)` now holds
    /// `result_text` — replaced in place when it existed, appended
    /// otherwise — and every other row is unchanged. Reading the key back
    /// therefore yields exactly the text written.
    pub fn save_translation_progress(
        &mut self,
        project_dir: &str,
        subtitle_index: u64,
        phase: &str,
        result_text: &str,
    )
        requires
            old(self).wf(),
        ensures
            final(self).wf(),
            final(self).jobs == old(self).jobs,
            final(self).stages == old(self).stages,
            final(self).tts_items == old(self).tts_items,
            ({
                let rows = final(self).translation_progress@;
                let key = spec_find_progress(
                    old(self).translation_progress@,
                    project_dir@,
                    subtitle_index,
                    phase@,
                );
                let j: int = match key {
                    Some(i) => i,
                    None => old(self).translation_progress@.len() as int,
                };
                &&& rows.len() == (match key {
                    Some(_) => old(self).translation_progress@.len() as int,
                    None => old(self).translation_progress@.len() + 1int,
                })
                &&& forall|k: int|
                    0 <= k < rows.len() && k != j ==> rows[k] == #[trigger] old(
                        self,
                    ).translation_progress@[k]
                &&& rows[j].project_dir@ == project_dir@
                &&& rows[j].subtitle_index == subtitle_index
                &&& rows[j].phase@ == phase@
                &&& rows[j].result_text@ == result_text@
            }),
    {
        let row = TranslationRow {
            project_dir: String::from_str(project_dir),
            subtitle_index,
            phase: String::from_str(phase),
            result_text: String::from_str(result_text),
        };
        match self.find_progress(project_dir, subtitle_index, phase) {
            Some(i) => {
                self.translation_progress.set(i, row);
            },
            None => {
                self.translation_progress.push(row);
            },
        }
    }

    /// Drop every checkpoint of a run.
    pub fn clear_translation_progress(&mut self, project_dir: &str)
        requires
            old(self).wf(),
        ensures
            final(self).wf(),
            final(self).jobs == old(self).jobs,
            final(self).stages == old(self).stages,
            final(self).tts_items == old(self).tts_items,
            final(self).translation_progress@ == old(self).translation_progress@.filter(
                |row: TranslationRow| row.project_dir@ != project_dir@,
            ),
    {
        let ghost pred = |row: TranslationRow| row.project_dir@ != project_dir@;
        let ghost src = self.translation_progress@;
        let mut kept: Vec<TranslationRow> = Vec::new();
        let mut i: usize = 0;
        proof {
            assert(src.take(0).filter(pred) =~= Seq::<TranslationRow>::empty()) by {
                reveal(Seq::filter);
            }
        }
        while i < self.translation_progress.len()
            invariant
                i <= self.translation_progress@.len(),
                src == self.translation_progress@,
                pred == (|row: TranslationRow| row.project_dir@ != project_dir@),
                kept@ == src.take(i as int).filter(pred),
            decreases self.translation_progress.len() - i,
        {
            proof {
                src.take(i as int).lemma_filter_push(src[i as int], pred);
                assert(src.take(i + 1) =~= src.take(i as int).push(src[i as int]));
            }
            let row = &self.translation_progress[i];
            if !str_eq_opt(row.project_dir.as_str(), project_dir) {
                let copy = clone_progress_row(row);
                proof {
                    assert(copy == src[i as int]);
                }
                kept.push(copy);
            }
            i += 1;
        }
        proof {
            assert(src.take(src.len() as int) =~= src);
        }
        self.translation_progress = kept;
    }
}

// ── Job information ─────────────────────────────────────────────────────────

/// The wire form of a stage row.
#[derive(Debug, Clone, PartialEq, Eq)]
pub struct DubbingStageStateDto {
    pub job_id: String,
    pub stage: String,
    pub status: String,
    pub progress: i32,
    pub output_path: Option<String>,
    pub error: Option<String>,
    pub completed_at: Option<String>,
}

/// A stage row as its wire form.
pub fn stage_to_dto(s: DubbingStageState) -> (r: DubbingStageStateDto)
    ensures
        r.job_id == s.job_id && r.stage == s.stage && r.status == s.status && r.progress
            == s.progress && r.output_path == s.output_path && r.error == s.error
            && r.completed_at == s.completed_at,
{
    DubbingStageStateDto {
        job_id: s.job_id,
        stage: s.stage,
        status: s.status,
        progress: s.progress,
        output_path: s.output_path,
        error: s.error,
        completed_at: s.completed_at,
    }
}

/// The wire form of a job with its stage rows.
#[derive(Debug)]
pub struct DubbingJobInfoDto {
    pub id: String,
    pub project_dir: String,
    pub video_path: String,
    pub subtitle_count: i32,
    pub reference_mode: String,
    pub reference_audio_path: Option<String>,
    pub tts_plugin_id: Option<String>,
    pub status: String,
    pub current_stage: Option<String>,
    pub error: Option<String>,
    pub stages: Vec<DubbingStageStateDto>,
}

/// Whether a stage row and its wire form agree on every field.
pub open spec fn spec_stage_dto_matches(d: DubbingStageStateDto, s: DubbingStageState) -> bool {
    &&& d.job_id == s.job_id
    &&& d.stage == s.stage
    &&& d.status == s.status
    &&& d.progress == s.progress
    &&& d.output_path == s.output_path
    &&& d.error == s.error
    &&& d.completed_at == s.completed_at
}

/// Whether a job and its info agree on the job fields.
pub open spec fn spec_info_matches_job(info: DubbingJobInfoDto, job: DubbingJob) -> bool {
    &&& info.id == job.id
    &&& info.project_dir == job.project_dir
    &&& info.video_path == job.video_path
    &&& info.subtitle_count == job.subtitle_count
    &&& info.reference_mode == job.reference_mode
    &&& info.reference_audio_path == job.reference_audio_path
    &&& info.tts_plugin_id == job.tts_plugin_id
    &&& info.status == job.status
    &&& info.current_stage == job.current_stage
    &&& info.error == job.error
}

impl JobStore {
    /// The wire description of a job: its fields and, field for field,
    /// its stage rows in stored order.
    pub fn job_info(&self, job: &DubbingJob) -> (r: DubbingJobInfoDto)
        ensures
            spec_info_matches_job(r, *job),
            r.stages@.len() == self.stages@.filter(
                |row: DubbingStageState| row.job_id@ == job.id@,
            ).len(),
            forall|i: int|
                0 <= i < r.stages@.len() ==> spec_stage_dto_matches(
                    #[trigger] r.stages@[i],
                    self.stages@.filter(|row: DubbingStageState| row.job_id@ == job.id@)[i],
                ),
    {
        let rows = self.get_dubbing_stages(job.id.as_str());
        let mut stages: Vec<DubbingStageStateDto> = Vec::new();
        let mut i: usize = 0;
        while i < rows.len()
            invariant
                i <= rows@.len(),
                rows@ == self.stages@.filter(
                    |row: DubbingStageState| row.job_id@ == job.id@,
                ),
                stages@.len() == i,
                forall|k: int|
                    0 <= k < i ==> spec_stage_dto_matches(#[trigger] stages@[k], rows@[k]),
            decreases rows.len() - i,
        {
            let dto = stage_to_dto(clone_stage_row(&rows[i]));
            stages.push(dto);
            i += 1;
        }
        DubbingJobInfoDto {
            id: job.id.clone(),
            project_dir: job.project_dir.clone(),
            video_path: job.video_path.clone(),
            subtitle_count: job.subtitle_count,
            reference_mode: job.reference_mode.clone(),
            reference_audio_path: clone_opt_string(&job.reference_audio_path),
            tts_plugin_id: clone_opt_string(&job.tts_plugin_id),
            status: job.status.clone(),
            current_stage: clone_opt_string(&job.current_stage),
            error: clone_opt_string(&job.error),
            stages,
        }
    }

    /// Start or resume the job of a project directory: an existing job is
    /// reported as it stands; otherwise a fresh `pending` job with the
    /// given identity is created and reported.
    pub fn init_dubbing_job(
        &mut self,
        project_dir: &str,
        video_path: &str,
        subtitle_count: i32,
        reference_mode: &str,
        reference_audio_path: Option<String>,
        tts_plugin_id: Option<String>,
        new_id: &str,
        now: &str,
    ) -> (r: DubbingJobInfoDto)
        requires
            old(self).wf(),
        ensures
            final(self).wf(),
            final(self).stages == old(self).stages,
            final(self).tts_items == old(self).tts_items,
            final(self).translation_progress == old(self).translation_progress,
            match spec_find_job(old(self).jobs@, project_dir@) {
                Some(i) => ({
                    &&& final(self).jobs == old(self).jobs
                    &&& spec_info_matches_job(r, old(self).jobs@[i])
                    &&& r.stages@.len() == old(self).stages@.filter(
                        |row: DubbingStageState| row.job_id@ == old(self).jobs@[i].id@,
                    ).len()
                    &&& forall|k: int|
                        0 <= k < r.stages@.len() ==> spec_stage_dto_matches(
                            #[trigger] r.stages@[k],
                            old(self).stages@.filter(
                                |row: DubbingStageState| row.job_id@ == old(self).jobs@[i].id@,
                            )[k],
                        )
                }),
                None => ({
                    &&& final(self).jobs@.len() == old(self).jobs@.len() + 1
                    &&& final(self).jobs@.take(old(self).jobs@.len() as int) == old(self).jobs@
                    &&& final(self).jobs@.last().id@ == new_id@
                    &&& final(self).jobs@.last().project_dir@ == project_dir@
                    &&& final(self).jobs@.last().video_path@ == video_path@
                    &&& final(self).jobs@.last().subtitle_count == subtitle_count
                    &&& final(self).jobs@.last().reference_mode@ == reference_mode@
                    &&& final(self).jobs@.last().reference_audio_path == reference_audio_path
                    &&& final(self).jobs@.last().tts_plugin_id == tts_plugin_id
                    &&& final(self).jobs@.last().status@ == "pending"@
                    &&& final(self).jobs@.last().current_stage is None
                    &&& final(self).jobs@.last().error is None
                    &&& final(self).jobs@.last().created_at@ == now@
                    &&& final(self).jobs@.last().updated_at@ == now@
                    &&& spec_info_matches_job(r, final(self).jobs@.last())
                    &&& r.stages@.len() == 0
                }),
            },
    {
        match self.get_dubbing_job_by_dir(project_dir) {
            Some(existing) => {
                let info = self.job_info(&existing);
                info
            },
            None => {
                let job = DubbingJob {
                    id: String::from_str(new_id),
                    project_dir: String::from_str(project_dir),
                    video_path: String::from_str(video_path),
                    subtitle_count,
                    reference_mode: String::from_str(reference_mode),
                    reference_audio_path,
                    tts_plugin_id,
                    status: String::from_str("pending"),
                    current_stage: None,
                    error: None,
                    created_at: String::from_str(now),
                    updated_at: String::from_str(now),
                };
                let info = DubbingJobInfoDto {
                    id: job.id.clone(),
                    project_dir: job.project_dir.clone(),
                    video_path: job.video_path.clone(),
                    subtitle_count: job.subtitle_count,
                    reference_mode: job.reference_mode.clone(),
                    reference_audio_path: clone_opt_string(&job.reference_audio_path),
                    tts_plugin_id: clone_opt_string(&job.tts_plugin_id),
                    status: job.status.clone(),
                    current_stage: None,
                    error: None,
                    stages: Vec::new(),
                };
                self.jobs.push(job);
                proof {
                    assert(final(self).jobs@.take(old(self).jobs@.len() as int) =~= old(
                        self,
                    ).jobs@);
                }
                info
            },
        }
    }
}

/// First job with this id.
pub open spec fn spec_find_job_id(s: Seq<DubbingJob>, id: Seq<char>) -> Option<int>
    decreases s.len(),
{
    if s.len() == 0 {
        None
    } else if s[0].id@ == id {
        Some(0)
    } else {
        match spec_find_job_id(s.drop_first(), id) {
            Some(i) => Some(i + 1),
            None => None,
        }
    }
}

fn clone_job_row(row: &DubbingJob) -> (r: DubbingJob)
    ensures
        r == *row,
{
    DubbingJob {
        id: row.id.clone(),
        project_dir: row.project_dir.clone(),
        video_path: row.video_path.clone(),
        subtitle_count: row.subtitle_count,
        reference_mode: row.reference_mode.clone(),
        reference_audio_path: clone_opt_string(&row.reference_audio_path),
        tts_plugin_id: clone_opt_string(&row.tts_plugin_id),
        status: row.status.clone(),
        current_stage: clone_opt_string(&row.current_stage),
        error: clone_opt_string(&row.error),
        created_at: row.created_at.clone(),
        updated_at: row.updated_at.clone(),
    }
}

/// Every row of a sequence with the filter's multiset satisfies the
/// filter's predicate.
proof fn lemma_sorted_filter_members(
    src: Seq<DubbingTtsItem>,
    pred: spec_fn(DubbingTtsItem) -> bool,
    sorted: Seq<DubbingTtsItem>,
)
    requires
        sorted.to_multiset() == src.filter(pred).to_multiset(),
    ensures
        forall|k: int| 0 <= k < sorted.len() ==> pred(#[trigger] sorted[k]),
{
    broadcast use vstd::seq_lib::group_to_multiset_ensures;
    broadcast use vstd::multiset::group_multiset_axioms;

    let flt = src.filter(pred);
    assert forall|k: int| 0 <= k < sorted.len() implies pred(#[trigger] sorted[k]) by {
        assert(sorted.contains(sorted[k]));
        assert(sorted.to_multiset().count(sorted[k]) > 0);
        assert(flt.to_multiset().count(sorted[k]) > 0);
        assert(flt.contains(sorted[k]));
        let w = choose|w: int| 0 <= w < flt.len() && flt[w] == sorted[k];
        src.lemma_filter_pred(pred, w);
    }
}

/// Rows in ascending `subtitle_index` order.
pub open spec fn spec_items_sorted(s: Seq<DubbingTtsItem>) -> bool {
    forall|i: int, j: int|
        0 <= i <= j < s.len() ==> (#[trigger] s[i]).subtitle_index <= (#[trigger] s[j]).subtitle_index
}

/// Order rows by ascending subtitle index, keeping exactly the given rows.
fn sort_items_by_index(input: Vec<DubbingTtsItem>) -> (r: Vec<DubbingTtsItem>)
    ensures
        spec_items_sorted(r@),
        r@.to_multiset() == input@.to_multiset(),
        r@.len() == input@.len(),
{
    broadcast use vstd::seq_lib::group_to_multiset_ensures;
    broadcast use vstd::multiset::group_multiset_axioms;

    let mut v = input;
    let mut out: Vec<DubbingTtsItem> = Vec::new();
    proof {
        assert(out@.to_multiset().add(v@.to_multiset()) =~= input@.to_multiset());
    }
    while v.len() > 0
        invariant
            spec_items_sorted(out@),
            out@.to_multiset().add(v@.to_multiset()) == input@.to_multiset(),
            out@.len() + v@.len() == input@.len(),
            forall|a: int, b: int|
                0 <= a < out@.len() && 0 <= b < v@.len() ==> (#[trigger] out@[a]).subtitle_index
                    <= (#[trigger] v@[b]).subtitle_index,
        decreases v.len(),
    {
        let mut m: usize = 0;
        let mut k: usize = 1;
        while k < v.len()
            invariant
                m < k <= v@.len() || (k <= v@.len() && m == 0),
                m < v@.len(),
                v@.len() > 0,
                forall|j: int| 0 <= j < k ==> v@[m as int].subtitle_index <= (#[trigger] v@[j]).subtitle_index,
            decreases v.len() - k,
        {
            if v[k].subtitle_index < v[m].subtitle_index {
                m = k;
            }
            k += 1;
        }
        let ghost old_v = v@;
        let ghost old_out = out@;
        let x = v.remove(m);
        out.push(x);
        proof {
            broadcast use vstd::seq_lib::group_to_multiset_ensures;
            broadcast use vstd::multiset::group_multiset_axioms;

            assert(v@ == old_v.remove(m as int));
            assert(old_v.remove(m as int).to_multiset() =~= old_v.to_multiset().remove(
                old_v[m as int],
            ));
            assert(out@ == old_out.push(old_v[m as int]));
            assert(old_out.push(old_v[m as int]).to_multiset() =~= old_out.to_multiset().insert(
                old_v[m as int],
            ));
            assert(old_v.contains(old_v[m as int]));
            assert(old_v.to_multiset().count(old_v[m as int]) > 0);
            assert(out@.to_multiset().add(v@.to_multiset()) =~= input@.to_multiset());
            assert forall|a: int, b: int|
                0 <= a < out@.len() && 0 <= b < v@.len() implies (#[trigger] out@[a]).subtitle_index
                <= (#[trigger] v@[b]).subtitle_index by {
                assert(v@[b] == (if b < m { old_v[b] } else { old_v[b + 1] }));
                if a < out@.len() - 1 {
                    assert(out@[a] == old_out[a]);
                }
            }
        }
    }
    proof {
        broadcast use vstd::seq_lib::group_to_multiset_ensures;
        broadcast use vstd::multiset::group_multiset_axioms;

        assert(v@.to_multiset() =~= Multiset::<DubbingTtsItem>::empty());
        assert(out@.to_multiset() =~= input@.to_multiset());
    }
    out
}

/// The fresh `pending` row a bulk insert creates for an item.
pub open spec fn spec_fresh_tts_row(it: DubbingTtsItem) -> DubbingTtsItem {
    DubbingTtsItem {
        job_id: it.job_id,
        subtitle_index: it.subtitle_index,
        preprocessed_text: it.preprocessed_text,
        start_ms: it.start_ms,
        end_ms: it.end_ms,
        reference_audio_path: None,
        tts_audio_path: None,
        tts_duration_ms: None,
        status: it.status,
        retry_count: 0,
        error: None,
        completed_at: None,
    }
}

proof fn lemma_fresh_row_wf(it: DubbingTtsItem)
    requires
        it.end_ms >= it.start_ms,
        it.status@ == "pending"@,
    ensures
        spec_tts_item_wf(spec_fresh_tts_row(it)),
{
    reveal_strlit("pending");
    reveal_strlit("completed");
    assert("pending"@.len() == 7 && "completed"@.len() == 9);
}

fn tts_exists_in_prefix(v: &Vec<DubbingTtsItem>, limit: usize, it: &DubbingTtsItem) -> (r: bool)
    requires
        limit <= v@.len(),
    ensures
        r == (spec_find_tts(v@.take(limit as int), it.job_id@, it.subtitle_index) is Some),
{
    let ghost pfx = v@.take(limit as int);
    proof {
        assert(pfx.skip(0) =~= pfx);
    }
    let mut i: usize = 0;
    while i < limit
        invariant
            i <= limit <= v@.len(),
            pfx == v@.take(limit as int),
            (spec_find_tts(pfx, it.job_id@, it.subtitle_index) is None <==> spec_find_tts(
                pfx.skip(i as int),
                it.job_id@,
                it.subtitle_index,
            ) is None),
        decreases limit - i,
    {
        proof {
            assert(pfx.skip(i as int)[0] == pfx[i as int]);
            assert(pfx[i as int] == v@[i as int]);
            assert(pfx.skip(i as int).drop_first() =~= pfx.skip(i + 1));
        }
        let row = &v[i];
        if row.subtitle_index == it.subtitle_index && str_eq_opt(
            row.job_id.as_str(),
            it.job_id.as_str(),
        ) {
            return true;
        }
        i += 1;
    }
    assert(pfx.skip(limit as int) =~= Seq::<DubbingTtsItem>::empty());
    false
}

fn clone_tts_row(row: &DubbingTtsItem) -> (r: DubbingTtsItem)
    ensures
        r == *row,
{
    DubbingTtsItem {
        job_id: row.job_id.clone(),
        subtitle_index: row.subtitle_index,
        preprocessed_text: row.preprocessed_text.clone(),
        start_ms: row.start_ms,
        end_ms: row.end_ms,
        reference_audio_path: clone_opt_string(&row.reference_audio_path),
        tts_audio_path: clone_opt_string(&row.tts_audio_path),
        tts_duration_ms: row.tts_duration_ms,
        status: row.status.clone(),
        retry_count: row.retry_count,
        error: clone_opt_string(&row.error),
        completed_at: clone_opt_string(&row.completed_at),
    }
}

fn clone_progress_row(row: &TranslationRow) -> (r: TranslationRow)
    ensures
        r == *row,
{
    TranslationRow {
        project_dir: row.project_dir.clone(),
        subtitle_index: row.subtitle_index,
        phase: row.phase.clone(),
        result_text: row.result_text.clone(),
    }
}

/// Character equality of two string slices of any length.
pub fn str_eq_opt(a: &str, b: &str) -> (r: bool)
    ensures
        r == (a@ == b@),
{
    if a.unicode_len() != b.unicode_len() {
        return false;
    }
    crate::pool::str_eq(a, b)
}

fn clone_opt_string(o: &Option<String>) -> (r: Option<String>)
    ensures
        r == *o,
{
    match o {
        Some(s) => Some(s.clone()),
        None => None,
    }
}

fn clone_stage_row(row: &DubbingStageState) -> (r: DubbingStageState)
    ensures
        r == *row,
{
    DubbingStageState {
        job_id: row.job_id.clone(),
        stage: row.stage.clone(),
        status: row.status.clone(),
        progress: row.progress,
        output_path: clone_opt_string(&row.output_path),
        error: clone_opt_string(&row.error),
        completed_at: clone_opt_string(&row.completed_at),
    }
}

} // verus!
