//! The state store: stage transitions, TTS rows, checkpoints, cascade
//! deletion, and the per-item resume protocol.

use dubverse::store::{
    stage_to_dto, transition_allowed, DubbingStageState, DubbingTtsItem, JobStore, Stage,
    StageStatus,
};
use dubverse::ttsexec::{tts_output_path, TtsExecutor};

fn item(job: &str, idx: i32, text: &str, start: i64, end: i64) -> DubbingTtsItem {
    DubbingTtsItem {
        job_id: job.to_string(),
        subtitle_index: idx,
        preprocessed_text: text.to_string(),
        start_ms: start,
        end_ms: end,
        reference_audio_path: None,
        tts_audio_path: None,
        tts_duration_ms: None,
        status: "pending".to_string(),
        retry_count: 0,
        error: None,
        completed_at: None,
    }
}

#[test]
fn stage_transitions_follow_the_poset() {
    let (pending, running, completed, failed) =
        (StageStatus::Pending, StageStatus::Running, StageStatus::Completed, StageStatus::Failed);
    let allowed = [(pending, running), (running, completed), (running, failed), (failed, running)];
    for from in [pending, running, completed, failed] {
        for to in [pending, running, completed, failed] {
            let expect = allowed.contains(&(from, to));
            assert_eq!(transition_allowed(from, to), expect, "{from:?} -> {to:?}");
        }
    }
    // nothing ever leaves completed
    for to in [pending, running, completed, failed] {
        assert!(!transition_allowed(completed, to));
    }
}

#[test]
fn stage_rows_carry_progress_100_exactly_when_completed() {
    let mut store = JobStore::new();
    store
        .set_stage_status("job", Stage::Preprocess, StageStatus::Running, None, None, "t0")
        .expect("pending -> running");
    let rows = store.get_dubbing_stages("job");
    assert_eq!(rows.len(), 1);
    assert_eq!(rows[0].status, "running");
    assert_eq!(rows[0].progress, 0);
    assert!(rows[0].completed_at.is_none());

    store
        .set_stage_status("job", Stage::Preprocess, StageStatus::Completed, None, None, "t1")
        .expect("running -> completed");
    let rows = store.get_dubbing_stages("job");
    assert_eq!(rows[0].status, "completed");
    assert_eq!(rows[0].progress, 100);
    assert_eq!(rows[0].completed_at.as_deref(), Some("t1"));

    // completed cannot be re-entered; the refusal is a storage error
    match store.set_stage_status("job", Stage::Preprocess, StageStatus::Running, None, None, "t2") {
        Err(dubverse::errors::DubError::Storage { .. }) => {}
        other => panic!("expected a storage refusal, got {other:?}"),
    }
    // but a failed stage can
    store
        .set_stage_status("job", Stage::Media, StageStatus::Running, None, None, "t3")
        .expect("pending -> running");
    store
        .set_stage_status("job", Stage::Media, StageStatus::Failed, None, Some("boom".to_string()), "t4")
        .expect("running -> failed");
    store
        .set_stage_status("job", Stage::Media, StageStatus::Running, None, None, "t5")
        .expect("failed -> running again");
}

#[test]
fn translation_progress_round_trips_per_key() {
    let mut store = JobStore::new();
    store.save_translation_progress("proj", 3, "translation", "第一版");
    store.save_translation_progress("proj", 4, "translation", "第二行");
    store.save_translation_progress("proj", 3, "correction", "校正行");
    // idempotent replace on the same key
    store.save_translation_progress("proj", 3, "translation", "最终版");
    let rows = store.get_translation_progress("proj", "translation");
    assert_eq!(rows, vec![(3, "最终版".to_string()), (4, "第二行".to_string())]);
    let corr = store.get_translation_progress("proj", "correction");
    assert_eq!(corr, vec![(3, "校正行".to_string())]);

    store.clear_translation_progress("proj");
    assert!(store.get_translation_progress("proj", "translation").is_empty());
    assert!(store.get_translation_progress("proj", "correction").is_empty());
}

#[test]
fn completed_items_always_carry_audio_and_duration() {
    let mut store = JobStore::new();
    store.bulk_upsert_tts_items(&vec![item("j", 0, "a", 0, 500), item("j", 1, "b", 500, 900)]);
    store.update_tts_item_completed("j", 0, "/work/tts/tts_0000.mp3", 420, "t0");
    let all = store.get_all_tts_items("j");
    for it in &all {
        if it.status == "completed" {
            assert!(it.tts_audio_path.is_some());
            assert!(it.tts_duration_ms.unwrap() >= 0);
        }
    }
    assert_eq!(all[0].tts_audio_path.as_deref(), Some("/work/tts/tts_0000.mp3"));
    assert_eq!(all[0].tts_duration_ms, Some(420));
    assert_eq!(all[1].status, "pending");
}

#[test]
fn bulk_upsert_never_disturbs_existing_rows() {
    let mut store = JobStore::new();
    store.bulk_upsert_tts_items(&vec![item("j", 0, "a", 0, 500)]);
    store.update_tts_item_completed("j", 0, "/audio.mp3", 100, "t0");
    // re-init with the same subtitle plus a new one
    store.bulk_upsert_tts_items(&vec![item("j", 0, "a", 0, 500), item("j", 1, "b", 500, 900)]);
    let all = store.get_all_tts_items("j");
    assert_eq!(all.len(), 2);
    assert_eq!(all[0].status, "completed", "re-init clobbered a completed row");
    assert_eq!(all[0].tts_audio_path.as_deref(), Some("/audio.mp3"));
    assert_eq!(all[1].status, "pending");
}

#[test]
fn scenario_dubbing_resume_touches_only_unfinished_items() {
    // Ten subtitles; a crash left items 1-4 and 6 completed, item 5
    // failed, items 7-10 untouched. The restart synthesizes exactly
    // {5, 7, 8, 9, 10} in order and leaves finished files alone.
    let mut store = JobStore::new();
    let items: Vec<DubbingTtsItem> =
        (1..=10).map(|i| item("job", i, &format!("line {i}"), (i as i64) * 1000, (i as i64) * 1000 + 800)).collect();
    store.bulk_upsert_tts_items(&items);
    for i in [1, 2, 3, 4, 6] {
        store.update_tts_item_completed("job", i, &format!("/tts/tts_{i:04}.mp3"), 700, "t0");
    }
    store.update_tts_item_failed("job", 5, "provider choked");

    let pending = store.get_pending_tts_items("job");
    let pending_idx: Vec<i32> = pending.iter().map(|p| p.subtitle_index).collect();
    assert_eq!(pending_idx, vec![5, 7, 8, 9, 10]);

    let mut exec = TtsExecutor::new(pending);
    let mut synthesized: Vec<i32> = Vec::new();
    while let Some(it) = exec.current_item() {
        let idx = it.subtitle_index;
        synthesized.push(idx);
        let path = tts_output_path("/work", idx);
        if idx == 9 {
            // one flaky item: two failures, then success
            assert!(!exec.on_failure(&mut store, "timeout"));
            assert!(!exec.on_failure(&mut store, "timeout"));
        }
        exec.on_success(&mut store, &path, 650, "t1");
    }
    assert!(exec.is_done());
    assert_eq!(synthesized, vec![5, 7, 8, 9, 10]);

    let all = store.get_all_tts_items("job");
    for it in &all {
        assert_eq!(it.status, "completed", "item {} not completed", it.subtitle_index);
    }
    // untouched items keep their original files
    assert_eq!(all[0].tts_audio_path.as_deref(), Some("/tts/tts_0001.mp3"));
    assert_eq!(all[5].tts_audio_path.as_deref(), Some("/tts/tts_0006.mp3"));
    // resumed items carry the new files
    assert_eq!(all[4].tts_audio_path.as_deref(), Some("/work/tts/tts_0005.mp3"));
}

#[test]
fn executor_marks_an_item_failed_after_three_attempts_and_continues() {
    let mut store = JobStore::new();
    store.bulk_upsert_tts_items(&vec![item("j", 0, "a", 0, 500), item("j", 1, "b", 500, 900)]);
    let pending = store.get_pending_tts_items("j");
    let mut exec = TtsExecutor::new(pending);
    assert_eq!(exec.backoff_secs(), 0);
    assert!(!exec.on_failure(&mut store, "e1"));
    assert_eq!(exec.backoff_secs(), 2);
    assert!(!exec.on_failure(&mut store, "e2"));
    assert_eq!(exec.backoff_secs(), 4);
    assert!(exec.on_failure(&mut store, "e3"), "the third failure must give the item up");
    // the run continues with the next item
    let next = exec.current_item().expect("second item");
    assert_eq!(next.subtitle_index, 1);
    exec.on_success(&mut store, "/b.mp3", 300, "t");
    assert!(exec.is_done());

    let all = store.get_all_tts_items("j");
    assert_eq!(all[0].status, "failed");
    assert_eq!(all[0].error.as_deref(), Some("e3"));
    assert_eq!(all[0].retry_count, 1);
    assert_eq!(all[1].status, "completed");
}

#[test]
fn tts_getters_return_rows_in_ascending_index_order() {
    let mut store = JobStore::new();
    // rows arrive out of index order
    store.bulk_upsert_tts_items(&vec![
        item("j", 3, "c", 2000, 2900),
        item("j", 1, "a", 0, 900),
        item("j", 2, "b", 1000, 1900),
    ]);
    let all: Vec<i32> = store.get_all_tts_items("j").iter().map(|r| r.subtitle_index).collect();
    assert_eq!(all, vec![1, 2, 3]);
    store.update_tts_item_completed("j", 2, "/a.mp3", 100, "t");
    let pending: Vec<i32> =
        store.get_pending_tts_items("j").iter().map(|r| r.subtitle_index).collect();
    assert_eq!(pending, vec![1, 3]);
}

#[test]
fn cancellation_check_aborts_exactly_when_flagged() {
    assert!(dubverse::errors::cancel_check(false).is_ok());
    match dubverse::errors::cancel_check(true) {
        Err(dubverse::errors::DubError::Cancelled) => {}
        other => panic!("expected a cancellation, got {other:?}"),
    }
}

#[test]
fn job_init_is_get_or_create_and_delete_cascades() {
    let mut store = JobStore::new();
    let info = store.init_dubbing_job("/proj", "/v.mp4", 10, "clone", None, None, "job-1", "t0");
    assert_eq!(info.id, "job-1");
    assert_eq!(info.status, "pending");
    assert!(info.stages.is_empty());

    // the same directory resumes the same job whatever the new id
    let again = store.init_dubbing_job("/proj", "/v.mp4", 10, "clone", None, None, "job-2", "t1");
    assert_eq!(again.id, "job-1");

    store
        .set_stage_status("job-1", Stage::Tts, StageStatus::Running, None, None, "t2")
        .expect("transition");
    store.bulk_upsert_tts_items(&vec![item("job-1", 0, "a", 0, 100)]);
    let full = store.init_dubbing_job("/proj", "/v.mp4", 10, "clone", None, None, "job-3", "t3");
    assert_eq!(full.stages.len(), 1);
    assert_eq!(full.stages[0].stage, "tts");

    store.delete_dubbing_job("job-1");
    assert!(store.get_dubbing_job_by_dir("/proj").is_none());
    assert!(store.get_dubbing_stages("job-1").is_empty());
    assert!(store.get_all_tts_items("job-1").is_empty());
}

#[test]
fn job_status_update_stamps_the_instant() {
    let mut store = JobStore::new();
    store.init_dubbing_job("/p", "/v.mp4", 1, "none", None, None, "id", "t0");
    store.update_dubbing_job_status("id", "completed", None, None, "t9");
    let job = store.get_dubbing_job_by_dir("/p").expect("job");
    assert_eq!(job.status, "completed");
    assert_eq!(job.updated_at, "t9");
    assert_eq!(job.created_at, "t0");
}

#[test]
fn stage_dto_mirrors_the_row() {
    let row = DubbingStageState {
        job_id: "j".to_string(),
        stage: "media".to_string(),
        status: "completed".to_string(),
        progress: 100,
        output_path: Some("/vocals.wav".to_string()),
        error: None,
        completed_at: Some("t".to_string()),
    };
    let dto = stage_to_dto(row.clone());
    assert_eq!(dto.job_id, row.job_id);
    assert_eq!(dto.stage, row.stage);
    assert_eq!(dto.status, row.status);
    assert_eq!(dto.progress, 100);
    assert_eq!(dto.output_path, row.output_path);
}
