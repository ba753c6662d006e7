//! The translation engine: prompts, validation, the retry-and-split
//! protocol, resume planning and the script guard.

use dubverse::protocol::{BatchItem, RetryProtocol};
use dubverse::store::JobStore;
use dubverse::subtitle::{assemble_result, SubtitleItem};
use dubverse::translate::{
    build_chat_body, build_chat_url, build_user_content, chunk_ranges, detect_script,
    dominant_script, keep_optimized, phase_temperature_tenths, plan_todo, Phase, TranslateOpts,
};
use dubverse::validate::{parse_and_validate, validate_content};

fn items(texts: &[(u64, &str)]) -> Vec<BatchItem> {
    texts.iter().map(|(i, t)| BatchItem { index: *i, text: t.to_string() }).collect()
}

fn opts() -> TranslateOpts {
    TranslateOpts {
        target_language: "zh".to_string(),
        correction: false,
        optimization: false,
        prompt_type: "reflective".to_string(),
        batch_size: 2,
        world_building: String::new(),
        writing_style: String::new(),
        glossary: String::new(),
        forbidden: String::new(),
        examples: String::new(),
        custom_prompt: String::new(),
        prompt_correction: String::new(),
        prompt_standard: String::new(),
        prompt_reflective: String::new(),
        prompt_optimize: String::new(),
    }
}

#[test]
fn validator_rejects_merge_annotations() {
    for marker in ["已合并", "已并入", "同上", "（见第", "(见第", "合并至"] {
        let pairs = vec![("1".to_string(), format!("内容{marker}内容"))];
        assert!(!validate_content(&pairs), "marker {marker} was accepted");
    }
    let ok = vec![("1".to_string(), "正常文本".to_string())];
    assert!(validate_content(&ok));
    let blank = vec![("1".to_string(), "  \t ".to_string())];
    assert!(!validate_content(&blank), "a whitespace value was accepted");
}

#[test]
fn parse_and_validate_accepts_exact_keys_in_order() {
    let r = parse_and_validate("{\"2\": \"b\", \"1\": \"a\"}", &vec![1, 2]).expect("valid");
    assert_eq!(r, vec!["a".to_string(), "b".to_string()]);
}

#[test]
fn parse_and_validate_rejects_count_mismatch() {
    assert!(parse_and_validate("{\"1\": \"a\"}", &vec![1, 2]).is_none());
    assert!(parse_and_validate("{\"1\": \"a\", \"2\": \"b\", \"3\": \"c\"}", &vec![1, 2]).is_none());
    assert!(parse_and_validate("{\"1\": \"a\", \"3\": \"c\"}", &vec![1, 2]).is_none());
}

#[test]
fn parse_and_validate_repairs_smart_quotes_and_commas() {
    // smart quotes and a trailing comma, then prose around the object
    let smart = "{\u{201C}1\u{201D}: \u{201C}hello\u{201D},}";
    let r = parse_and_validate(smart, &vec![1]).expect("repaired");
    assert_eq!(r, vec!["hello".to_string()]);
    let noisy = "Sure! Here is the JSON: {\"1\": \"ok\"} Hope this helps.";
    let r2 = parse_and_validate(noisy, &vec![1]).expect("sliced");
    assert_eq!(r2, vec!["ok".to_string()]);
}

#[test]
fn scenario_reflective_five_lines_three_batches() {
    // Five subtitles, batch size two: three batches reach the model; each
    // success persists its rows; the final list keeps ids and times.
    let subs: Vec<SubtitleItem> = vec![
        (1, "Hello"),
        (2, "World"),
        (3, "How are you?"),
        (4, "Fine, thanks"),
        (5, "Bye"),
    ]
    .into_iter()
    .map(|(id, t)| SubtitleItem { id, start_ms: (id as u64) * 1000, end_ms: (id as u64) * 1000 + 900, text: t.to_string() })
    .collect();
    let texts: Vec<(u64, String)> = subs.iter().enumerate().map(|(i, s)| (i as u64, s.text.clone())).collect();
    let mut store = JobStore::new();
    let existing = store.get_translation_progress("proj", "translation");
    let todo = plan_todo(&texts, &existing);
    assert_eq!(todo.len(), 5);
    let ranges = chunk_ranges(todo.len(), 2);
    assert_eq!(ranges, vec![(0, 2), (2, 4), (4, 5)]);

    let replies = ["{\"0\":\"你好\",\"1\":\"世界\"}", "{\"2\":\"你好吗？\",\"3\":\"很好，谢谢\"}", "{\"4\":\"再见\"}"];
    let mut calls = 0;
    let mut produced: Vec<(u64, String)> = Vec::new();
    for (bi, (lo, hi)) in ranges.iter().enumerate() {
        let batch: Vec<BatchItem> = todo[*lo..*hi]
            .iter()
            .map(|(i, t)| BatchItem { index: *i, text: t.clone() })
            .collect();
        let mut proto = RetryProtocol::new(batch);
        while !proto.is_done() {
            let req = proto.current_request().expect("request while not done");
            assert!(!req.is_empty());
            calls += 1;
            proto.on_reply(replies[bi]);
        }
        for (idx, text) in proto.result() {
            store.save_translation_progress("proj", idx, "translation", &text);
            produced.push((idx, text));
        }
    }
    assert_eq!(calls, 3, "expected one model call per batch");
    let rows = store.get_translation_progress("proj", "translation");
    assert_eq!(rows.len(), 5);

    let texts_only: Vec<String> = produced.into_iter().map(|(_, t)| t).collect();
    let final_subs = assemble_result(&subs, &texts_only);
    assert_eq!(final_subs[0].id, 1);
    assert_eq!(final_subs[0].start_ms, 1000);
    assert_eq!(final_subs[0].end_ms, 1900);
    assert_eq!(final_subs[0].text, "你好");
    assert_eq!(final_subs[4].text, "再见");

    // A second run over the same store plans nothing, so no call happens.
    let todo2 = plan_todo(&texts, &rows);
    assert!(todo2.is_empty(), "a finished phase still planned work");
}

#[test]
fn scenario_count_mismatch_then_success_takes_two_calls() {
    let batch = items(&[(0, "a"), (1, "b"), (2, "c"), (3, "d")]);
    let mut proto = RetryProtocol::new(batch);
    let mut calls = 0;
    // First reply holds three keys for a four-key batch: rejected.
    calls += 1;
    proto.on_reply("{\"0\":\"x\",\"1\":\"y\",\"2\":\"z\"}");
    assert!(!proto.is_done());
    calls += 1;
    proto.on_reply("{\"0\":\"w\",\"1\":\"x\",\"2\":\"y\",\"3\":\"z\"}");
    assert!(proto.is_done());
    assert_eq!(calls, 2);
    let r = proto.result();
    assert_eq!(r[0], (0, "w".to_string()));
    assert_eq!(r[3], (3, "z".to_string()));
}

#[test]
fn scenario_total_failure_falls_back_to_source_text() {
    // Two items; every reply is garbage. Three full attempts, three per
    // half, then two per item: the result keeps both source texts and the
    // protocol never errors.
    let batch = items(&[(7, "seven"), (8, "eight")]);
    let mut proto = RetryProtocol::new(batch);
    let mut sizes: Vec<usize> = Vec::new();
    while !proto.is_done() {
        let req = proto.current_request().expect("request");
        sizes.push(req.len());
        proto.on_reply("not json at all");
    }
    assert_eq!(sizes, vec![2, 2, 2, 1, 1, 1, 1, 1, 1, 1, 1, 1, 1]);
    let r = proto.result();
    assert_eq!(r, vec![(7, "seven".to_string()), (8, "eight".to_string())]);
}

#[test]
fn split_protocol_recovers_per_half() {
    // Four items; full batches always fail, but each half of two answers.
    let batch = items(&[(0, "a"), (1, "b"), (2, "c"), (3, "d")]);
    let mut proto = RetryProtocol::new(batch);
    let mut calls = 0;
    while !proto.is_done() {
        let req = proto.current_request().expect("request");
        calls += 1;
        if req.len() == 4 {
            proto.on_reply("nope");
        } else if req.len() == 2 && req[0].0 == 0 {
            proto.on_reply("{\"0\":\"A\",\"1\":\"B\"}");
        } else {
            proto.on_reply("{\"2\":\"C\",\"3\":\"D\"}");
        }
    }
    assert_eq!(calls, 5, "three full attempts and one per half");
    let r = proto.result();
    assert_eq!(
        r,
        vec![
            (0, "A".to_string()),
            (1, "B".to_string()),
            (2, "C".to_string()),
            (3, "D".to_string())
        ]
    );
}

#[test]
fn backoff_doubles_within_a_request() {
    let batch = items(&[(0, "a"), (1, "b")]);
    let mut proto = RetryProtocol::new(batch);
    assert_eq!(proto.backoff_secs(), 0);
    proto.on_failure();
    assert_eq!(proto.backoff_secs(), 1);
    proto.on_failure();
    assert_eq!(proto.backoff_secs(), 2);
}

#[test]
fn script_detection_matches_block_ratios() {
    assert_eq!(detect_script("你好世界"), "cjk");
    assert_eq!(detect_script("hello there"), "latin");
    assert_eq!(detect_script("привет мир"), "cyrillic");
    assert_eq!(detect_script("مرحبا"), "arabic");
    assert_eq!(detect_script("12345 !!!"), "unknown");
    // ties go in listed order: one CJK and one Latin letter is CJK
    assert_eq!(detect_script("你a"), "cjk");
}

#[test]
fn scenario_script_guard_discards_drifted_optimization() {
    let translated: Vec<String> = vec!["你好".to_string(), "世界".to_string()];
    let drifted: Vec<String> = vec!["hello".to_string(), "world".to_string()];
    let consistent: Vec<String> = vec!["再见".to_string(), "朋友".to_string()];
    assert!(!keep_optimized(&translated, &drifted), "a drifted optimization was kept");
    assert!(keep_optimized(&translated, &consistent));
    // an unknown sample on either side keeps the optimization
    let unknown: Vec<String> = vec!["123".to_string()];
    assert!(keep_optimized(&unknown, &drifted));
    assert!(keep_optimized(&translated, &unknown));
    assert_eq!(dominant_script(&translated), "cjk");
}

#[test]
fn user_content_is_the_index_keyed_object() {
    let batch: Vec<(u64, String)> = vec![(0, "Hello".to_string()), (1, "a \"quoted\" line".to_string())];
    let body = build_user_content(&batch);
    assert_eq!(body, "{\"0\":\"Hello\",\"1\":\"a \\\"quoted\\\" line\"}");
    // the payload parses back with the library's own reply parser
    let parsed = parse_and_validate(&body, &vec![0, 1]).expect("round trip");
    assert_eq!(parsed, vec!["Hello".to_string(), "a \"quoted\" line".to_string()]);
}

#[test]
fn chat_request_shapes() {
    assert_eq!(build_chat_url("https://api.example.com/v1///"), "https://api.example.com/v1/chat/completions");
    assert_eq!(build_chat_url("https://api.example.com/v1"), "https://api.example.com/v1/chat/completions");
    let body = build_chat_body("gpt-x", "sys", "user says \"hi\"", 3);
    assert_eq!(
        body,
        "{\"model\":\"gpt-x\",\"messages\":[{\"role\":\"system\",\"content\":\"sys\"},{\"role\":\"user\",\"content\":\"user says \\\"hi\\\"\"}],\"temperature\":0.3}"
    );
    let v: serde_json::Value = serde_json::from_str(&body).expect("the chat body is valid JSON");
    assert_eq!(v["model"], "gpt-x");
    assert_eq!(v["messages"][1]["content"], "user says \"hi\"");
    assert_eq!(v["temperature"], 0.3);
}

#[test]
fn phase_prompts_compose_prefix_core_section_rules() {
    let mut o = opts();
    o.world_building = "A space station.".to_string();
    o.glossary = "crew=乘员".to_string();
    let p = dubverse::translate::build_phase_prompt(Phase::Reflective, &o);
    assert!(p.starts_with("Translate the following subtitles to zh.\n\n"));
    assert!(p.contains("[Background / World Building]\nA space station."));
    assert!(p.contains("[Glossary - Use these exact translations]\ncrew=乘员"));
    assert!(p.contains("- Output ONLY the JSON object, no extra text or explanation"));
    // block order and blank-line joining
    let w = p.find("[Background").unwrap();
    let g = p.find("[Glossary").unwrap();
    assert!(w < g);

    let empty = dubverse::translate::build_configurable_section(&opts());
    assert_eq!(empty, "");

    assert_eq!(phase_temperature_tenths(Phase::Correction), 1);
    assert_eq!(phase_temperature_tenths(Phase::Standard), 3);
    assert_eq!(phase_temperature_tenths(Phase::Optimize), 5);
}

#[test]
fn plan_todo_skips_checkpointed_indices() {
    let texts: Vec<(u64, String)> = (0..4).map(|i| (i, format!("t{i}"))).collect();
    let existing: Vec<(u64, String)> = vec![(1, "done".to_string()), (3, "done".to_string())];
    let todo = plan_todo(&texts, &existing);
    assert_eq!(todo, vec![(0, "t0".to_string()), (2, "t2".to_string())]);
}

#[test]
fn preprocess_batch_keeps_sources_after_three_failures() {
    let mut b = dubverse::preprocess::PreprocessBatch::new(vec![(0, "甲".to_string()), (1, "乙".to_string())]);
    let mut calls = 0;
    while !b.is_done() {
        calls += 1;
        b.on_reply("garbage");
    }
    assert_eq!(calls, 3);
    let r = b.result();
    assert_eq!(r, vec![(0, "甲".to_string()), (1, "乙".to_string())]);

    let mut ok = dubverse::preprocess::PreprocessBatch::new(vec![(0, "1024".to_string())]);
    ok.on_reply("{\"0\":\"一千零二十四\"}");
    assert!(ok.is_done());
    assert_eq!(ok.result(), vec![(0, "一千零二十四".to_string())]);
}
