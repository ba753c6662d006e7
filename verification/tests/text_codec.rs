//! Text codecs, trusted-wrapper cross-checks, provider request building,
//! and configuration records.

use base64::Engine as _;
use dubverse::chars::{join_with, sanitize_stem};
use dubverse::errors::DubError;
use dubverse::jsontext::{encode_json_object, repair_json};
use dubverse::media::{
    build_project_dirs, compose_video_args, concat_line, estimate_duration_ms_from_size,
    indexed_path, secs3, separate_audio_args, silence_args,
};
use dubverse::registry::{
    build_provider, create_ai_config, find_default_config, from_dto, set_default_ai_config,
    to_dto, TtsPluginDto,
};
use dubverse::store::{AiConfig, TtsPlugin};
use dubverse::media::{parse_reference_mode, plan_reference_clips, ReferenceMode};
use dubverse::registry::task_name_from_video;
use dubverse::subtitle::SubtitleItem;
use dubverse::tts::{
    build_auth_headers, decode_gradio_audio, file_ext_or_wav, gradio_data_url, gradio_predict_url,
    hash_e, md5_hex, ncn_tts_body, ncn_tts_url, truncate_tts_text, GradioAudioValue, NcnProvider,
    TtsProviderImpl, NCN_UA,
};
use dubverse::ttsexec::tts_output_path;

#[test]
fn error_kinds_have_stable_tags() {
    assert_eq!(DubError::Cancelled.kind_tag(), "cancelled");
    assert_eq!(DubError::ConcurrencyTimeout.kind_tag(), "concurrency_timeout");
    assert_eq!(
        DubError::ProviderHttp { status: 500, body_head: "oops".to_string() }.kind_tag(),
        "provider_http"
    );
    assert_eq!(
        DubError::ProviderTransport { detail: "dns".to_string() }.kind_tag(),
        "provider_transport"
    );
    assert_eq!(DubError::Validation { detail: String::new() }.kind_tag(), "validation");
    assert_eq!(DubError::MediaTool { detail: String::new() }.kind_tag(), "media_tool");
    assert_eq!(DubError::NoAudio.kind_tag(), "no_audio");
    assert_eq!(DubError::ConfigMissing { detail: String::new() }.kind_tag(), "config_missing");
    assert_eq!(DubError::Storage { detail: String::new() }.kind_tag(), "storage");
}

#[test]
fn repair_fixes_quotes_and_trailing_commas() {
    assert_eq!(repair_json("{\u{201C}a\u{201D}: 1,}"), "{\"a\": 1}");
    assert_eq!(repair_json("[1, 2, 3, ]"), "[1, 2, 3 ]");
    assert_eq!(repair_json("{\u{2018}x\u{2019}}"), "{'x'}");
    assert_eq!(repair_json("untouched"), "untouched");
}

#[test]
fn json_object_encoding_matches_serde() {
    let pairs = vec![
        ("0".to_string(), "plain".to_string()),
        ("1".to_string(), "with \"quotes\" and \\slash".to_string()),
        ("2".to_string(), "line\nbreak\ttab".to_string()),
        ("3".to_string(), "control\u{1}char".to_string()),
    ];
    let encoded = encode_json_object(&pairs);
    let parsed: std::collections::BTreeMap<String, String> =
        serde_json::from_str(&encoded).expect("the encoder must emit valid JSON");
    for (k, v) in &pairs {
        assert_eq!(parsed.get(k), Some(v));
    }
}

#[test]
fn md5_wrapper_matches_the_crate() {
    let expected = format!("{:x}", md5::compute("abc".as_bytes()));
    assert_eq!(md5_hex("abc"), expected);
    assert_eq!(md5_hex("abc").len(), 32);
    assert_ne!(md5_hex("abc"), md5_hex("abd"));
}

#[test]
fn auth_headers_sign_with_the_documented_recipe() {
    let headers = build_auth_headers("2024-01-01T00:00:00+08:00", "token123");
    assert_eq!(headers.len(), 7);
    let zm_ua = format!("{:x}", md5::compute(NCN_UA.as_bytes()));
    assert_eq!(headers[5], ("zm-ua".to_string(), zm_ua.clone()));
    let signed = format!("Web2024-01-01T00:00:00+08:001.2token123{zm_ua}");
    let zm_token = format!("{:x}", md5::compute(signed.as_bytes()));
    assert_eq!(headers[3], ("zm-token".to_string(), zm_token));
    assert_eq!(headers[0], ("device-platform".to_string(), "Web".to_string()));
    assert_eq!(headers[1].1, "2024-01-01T00:00:00+08:00");
    assert_eq!(headers[2].1, "token123");
}

#[test]
fn rolling_hash_is_deterministic_and_bounded() {
    let h = hash_e("https://bot.n.cn");
    assert_eq!(h, hash_e("https://bot.n.cn"));
    assert!(h < 0x10000000);
    assert_ne!(hash_e("a"), hash_e("b"));
    assert_eq!(hash_e(""), 0);
}

#[test]
fn ncn_request_shapes() {
    assert_eq!(ncn_tts_url("voice-7"), "https://bot.n.cn/api/tts/v1?roleid=voice-7");
    // percent-encoding through the urlencoding wrapper
    assert_eq!(ncn_tts_body("你好 a&b"), format!("&text={}&audio_type=mp3&format=stream", urlencoding::encode("你好 a&b")));
    assert!(ncn_tts_body("a b").contains("&text=a%20b&"));
    let long: String = "х".repeat(6000);
    let cut = truncate_tts_text(&long);
    assert_eq!(cut.chars().count(), 5000);
    assert_eq!(truncate_tts_text("short"), "short");
}

#[test]
fn gradio_data_url_and_audio_decoding() {
    let bytes = vec![1u8, 2, 3, 250];
    let b64 = base64::engine::general_purpose::STANDARD.encode(&bytes);
    assert_eq!(gradio_data_url("wav", &bytes), format!("data:audio/wav;base64,{b64}"));
    assert_eq!(gradio_predict_url("http://host:7860///"), "http://host:7860/run/predict");

    // all three accepted reply shapes decode to the same bytes
    let as_data_url = GradioAudioValue::Text(format!("data:audio/wav;base64,{b64}"));
    let as_bare = GradioAudioValue::Text(b64.clone());
    let as_obj = GradioAudioValue::DataObj(b64.clone());
    assert_eq!(decode_gradio_audio(&as_data_url).expect("data url"), bytes);
    assert_eq!(decode_gradio_audio(&as_bare).expect("bare base64"), bytes);
    assert_eq!(decode_gradio_audio(&as_obj).expect("object"), bytes);

    // an unknown shape is a validation failure, not garbled audio
    assert!(matches!(
        decode_gradio_audio(&GradioAudioValue::Unsupported),
        Err(DubError::Validation { .. })
    ));
    assert!(matches!(
        decode_gradio_audio(&GradioAudioValue::Text("not//valid??".to_string())),
        Err(DubError::Validation { .. })
    ));
}

#[test]
fn provider_dispatch_and_capabilities() {
    let ncn = TtsProviderImpl::Ncn(NcnProvider::new("v1".to_string()));
    assert_eq!(ncn.plugin_type(), "ncn");
    assert!(!ncn.requires_reference_audio());

    let plugin = TtsPlugin {
        id: "p1".to_string(),
        name: "clone".to_string(),
        plugin_type: "gradio".to_string(),
        config_json: "{\"endpoint\": \"http://host:7860\"}".to_string(),
        requires_ref: true,
        is_enabled: true,
        sort_order: 0,
        created_at: "t".to_string(),
    };
    let provider = build_provider(&plugin).expect("gradio provider");
    assert_eq!(provider.plugin_type(), "gradio");
    assert!(provider.requires_reference_audio());

    let broken = TtsPlugin { config_json: "{}".to_string(), ..plugin.clone() };
    assert!(matches!(build_provider(&broken), Err(DubError::ConfigMissing { .. })));

    let rest = TtsPlugin {
        plugin_type: "http_rest".to_string(),
        config_json: "{\"url\": \"http://tts\", \"textKey\": \"input\", \"responseType\": \"binary\", \"headers\": {\"x-key\": \"SECRET-REDACTED\"}}"
            .to_string(),
        requires_ref: false,
        ..plugin.clone()
    };
    match build_provider(&rest).expect("rest provider") {
        TtsProviderImpl::HttpRest(p) => {
            assert_eq!(p.url, "http://tts");
            assert_eq!(p.text_key, "input");
            assert_eq!(p.method, "POST");
            assert_eq!(p.response_type, "binary");
            assert_eq!(p.headers, vec![("x-key".to_string(), "SECRET-REDACTED".to_string())]);
        }
        _ => panic!("wrong provider variant"),
    }

    let unknown = TtsPlugin { plugin_type: "carrier-pigeon".to_string(), ..plugin };
    assert!(matches!(build_provider(&unknown), Err(DubError::ConfigMissing { .. })));
}

#[test]
fn unparsable_rest_config_is_a_validation_error() {
    let plugin = TtsPlugin {
        id: "p".to_string(),
        name: "rest".to_string(),
        plugin_type: "http_rest".to_string(),
        config_json: "{not json".to_string(),
        requires_ref: false,
        is_enabled: true,
        sort_order: 0,
        created_at: "t".to_string(),
    };
    assert!(matches!(build_provider(&plugin), Err(DubError::Validation { .. })));
    assert!(matches!(
        dubverse::tts::HttpRestProvider::from_json("][", true),
        Err(DubError::Validation { .. })
    ));
    let ok = dubverse::tts::HttpRestProvider::from_json("{}", true).expect("all defaults");
    assert_eq!(ok.method, "POST");
    assert_eq!(ok.text_key, "text");
    assert_eq!(ok.response_type, "json_base64");
    assert!(ok.requires_ref);
}

#[test]
fn reference_modes_and_clip_planning() {
    assert_eq!(parse_reference_mode("clone"), ReferenceMode::Clone);
    assert_eq!(parse_reference_mode("custom"), ReferenceMode::Custom);
    assert_eq!(parse_reference_mode("none"), ReferenceMode::NoReference);
    assert_eq!(parse_reference_mode("other"), ReferenceMode::NoReference);

    let subs = vec![
        SubtitleItem { id: 1, start_ms: 0, end_ms: 900, text: "a".to_string() },
        SubtitleItem { id: 2, start_ms: 1000, end_ms: 1000, text: "empty span".to_string() },
        SubtitleItem { id: 3, start_ms: 2000, end_ms: 2500, text: "b".to_string() },
    ];
    let clips = plan_reference_clips(&subs, "/work");
    assert_eq!(clips.len(), 2, "the zero-span subtitle must be skipped");
    assert_eq!(clips[0].subtitle_id, 1);
    assert_eq!(clips[0].start_ms, 0);
    assert_eq!(clips[0].dur_ms, 900);
    assert_eq!(clips[0].output_path, "/work/reference/ref_0001.wav");
    assert_eq!(clips[1].output_path, "/work/reference/ref_0003.wav");
    assert_eq!(clips[1].dur_ms, 500);
}

#[test]
fn plugin_dto_round_trip() {
    let dto = TtsPluginDto {
        id: "x".to_string(),
        name: "n".to_string(),
        plugin_type: "ncn".to_string(),
        config_json: "{}".to_string(),
        requires_ref: false,
        is_enabled: true,
        sort_order: 3,
        created_at: "t".to_string(),
    };
    let record = from_dto(&dto);
    let back = to_dto(record);
    assert_eq!(back, dto);
}

#[test]
fn first_ai_config_becomes_default_and_default_lookup_errors_without_one() {
    let mut configs: Vec<AiConfig> = Vec::new();
    assert!(matches!(find_default_config(&configs), Err(DubError::ConfigMissing { .. })));
    let c = AiConfig {
        id: "c1".to_string(),
        title: "first".to_string(),
        base_url: "http://llm".to_string(),
        api_key: "SECRET-REDACTED".to_string(),
        model: "m".to_string(),
        sort_order: 0,
        is_default: false,
        concurrent_limit: 2,
        request_timeout: 30,
        rate_limit: 60,
    };
    create_ai_config(&mut configs, &c);
    assert!(configs[0].is_default, "the very first configuration must become the default");
    let mut c2 = c.clone();
    c2.id = "c2".to_string();
    create_ai_config(&mut configs, &c2);
    assert!(!configs[1].is_default);
    set_default_ai_config(&mut configs, "c2");
    assert!(!configs[0].is_default);
    assert!(configs[1].is_default);
    assert_eq!(find_default_config(&configs).expect("default").id, "c2");
}

#[test]
fn file_extensions_and_task_names() {
    assert_eq!(file_ext_or_wav("/a/b/clip.mp3"), "mp3");
    assert_eq!(file_ext_or_wav("clip.flac"), "flac");
    assert_eq!(file_ext_or_wav("/a.b/clip"), "wav");
    assert_eq!(file_ext_or_wav("noext"), "wav");
    assert_eq!(file_ext_or_wav("/x/trailingdot."), "wav");
    assert_eq!(task_name_from_video("movie.final.mp4"), "movie.final");
    assert_eq!(task_name_from_video("plain"), "plain");
}

#[test]
fn sanitize_and_paths() {
    assert_eq!(sanitize_stem("My Movie (2024)!"), "My_Movie__2024__");
    assert_eq!(sanitize_stem("ok-name_7"), "ok-name_7");
    let dirs = build_project_dirs("/data", "My Movie", 1700000000123);
    assert_eq!(dirs.project_dir, "/data/projects/My_Movie_1700000000123");
    assert_eq!(dirs.cache_dir, "/data/cache/My_Movie_1700000000123");
    assert_eq!(tts_output_path("/work", 7), "/work/tts/tts_0007.mp3");
    assert_eq!(indexed_path("/work/reference", "ref_", 12, ".wav"), "/work/reference/ref_0012.wav");
    assert_eq!(join_with(&vec!["a".to_string(), "b".to_string()], ", "), "a, b");
}

#[test]
fn media_commands_and_duration_fallback() {
    assert_eq!(secs3(1234), "1.234");
    assert_eq!(secs3(45000), "45.000");
    let s = silence_args(2990, "/out.wav");
    assert_eq!(
        s,
        vec!["-y", "-f", "lavfi", "-i", "anullsrc=r=44100:cl=mono:d=2.990", "-acodec", "pcm_s16le", "/out.wav"]
    );
    let a = separate_audio_args("/v.mp4", "/vocals.wav");
    assert_eq!(a.first().map(String::as_str), Some("-y"));
    assert_eq!(a.last().map(String::as_str), Some("/vocals.wav"));
    assert!(a.contains(&"pcm_s16le".to_string()));
    let c = compose_video_args("/silent.mp4", "/dub.wav", "/final.mp4");
    assert!(c.contains(&"-shortest".to_string()));
    assert!(c.contains(&"192k".to_string()));
    assert_eq!(concat_line("C:\\work\\a.wav"), "file 'C:/work/a.wav'");
    // 128 kbps: one second of audio is 16384 bytes
    assert_eq!(estimate_duration_ms_from_size(16384), 1000);
    assert_eq!(estimate_duration_ms_from_size(0), 0);
}
