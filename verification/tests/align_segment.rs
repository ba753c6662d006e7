//! The alignment planner and the word segmenter.

use dubverse::aligner::{align_plan, AlignStep, AlignedSegment};
use dubverse::errors::DubError;
use dubverse::segment::{is_cjk_char, join_words_smart, segment_words, utterances_to_subtitles, Word};
use dubverse::subtitle::{build_srt, decode_srt_entry, srt_time, SubtitleItem};

fn seg(idx: i32, start: i64, dur: i64) -> AlignedSegment {
    AlignedSegment {
        subtitle_index: idx,
        start_ms: start,
        tts_audio_path: format!("/tts/tts_{idx:04}.mp3"),
        tts_duration_ms: dur,
    }
}

fn word(start: u64, end: u64, text: &str) -> Word {
    Word { start_ms: start, end_ms: end, text: text.to_string() }
}

#[test]
fn empty_alignment_fails_with_no_audio() {
    let r = align_plan(&Vec::new(), 1000);
    assert!(matches!(r, Err(DubError::NoAudio)));
}

#[test]
fn scenario_aligner_fills_gaps_to_the_total() {
    // segments [(start 0, dur 1000), (start 3000, dur 500)], total 5000:
    // clip 0 padded to 3000, no inter-clip silence, clip 1 padded to
    // 2000, no tail — lengths 3000 + 2000 = 5000.
    let segs = vec![seg(0, 0, 1000), seg(1, 3000, 500)];
    let steps = align_plan(&segs, 5000).expect("plan");
    assert_eq!(
        steps,
        vec![AlignStep::PadClip { seg: 0, pad_ms: 2000 }, AlignStep::PadClip { seg: 1, pad_ms: 1500 }]
    );
    let total: i64 = steps
        .iter()
        .map(|s| match s {
            AlignStep::Silence { duration_ms } => *duration_ms,
            AlignStep::PadClip { seg, pad_ms } => segs[*seg].tts_duration_ms + pad_ms,
            AlignStep::CopyClip { seg } => segs[*seg].tts_duration_ms,
            AlignStep::TrimClip { keep_ms, .. } => *keep_ms,
        })
        .sum();
    assert_eq!(total, 5000);
}

#[test]
fn single_short_clip_pads_with_lead_and_tail_silence() {
    // One clip shorter than its slot: leading silence to its start, then
    // the clip padded by total - start - duration.
    let segs = vec![seg(0, 2000, 800)];
    let steps = align_plan(&segs, 6000).expect("plan");
    assert_eq!(
        steps,
        vec![
            AlignStep::Silence { duration_ms: 2000 },
            AlignStep::PadClip { seg: 0, pad_ms: 6000 - 2000 - 800 }
        ]
    );
}

#[test]
fn tiny_lead_gap_is_not_filled() {
    let segs = vec![seg(0, 8, 992)];
    let steps = align_plan(&segs, 1000).expect("plan");
    assert_eq!(steps, vec![AlignStep::CopyClip { seg: 0 }]);
}

#[test]
fn overlong_clip_is_trimmed_to_the_slot_bound() {
    // The clip exceeds its available slot: it is trimmed to
    // min(slot * 1.3, available), which the slot-sized policy makes the
    // available span itself. A clip that exactly fills the slot passes
    // through verbatim.
    let segs = vec![seg(0, 0, 3000), seg(1, 2000, 2000)];
    let steps = align_plan(&segs, 4000).expect("plan");
    assert_eq!(
        steps,
        vec![AlignStep::TrimClip { seg: 0, keep_ms: 2000 }, AlignStep::CopyClip { seg: 1 }]
    );
}

#[test]
fn cjk_join_inserts_no_space_between_ideographs() {
    let words = vec![word(0, 1, "你"), word(1, 2, "好"), word(2, 3, "world"), word(3, 4, "，"), word(4, 5, "再见")];
    assert_eq!(join_words_smart(&words), "你好 world， 再见");
    let latin = vec![word(0, 1, "hello"), word(1, 2, "world")];
    assert_eq!(join_words_smart(&latin), "hello world");
    assert!(is_cjk_char('你'));
    assert!(is_cjk_char('ア'));
    assert!(is_cjk_char('한'));
    assert!(!is_cjk_char('a'));
}

#[test]
fn a_long_silence_gap_always_splits() {
    // 1.5 s gap between the words: two subtitles.
    let words = vec![word(0, 500, "one"), word(2000, 2500, "two")];
    let subs = segment_words(&words);
    assert_eq!(subs.len(), 2);
    assert_eq!(subs[0].text, "one");
    assert_eq!(subs[1].text, "two");
    assert_eq!(subs[0].id, 1);
    assert_eq!(subs[1].id, 2);
    assert_eq!(subs[1].start_ms, 2000);
}

#[test]
fn a_short_gap_never_splits_by_the_silence_rule() {
    // 0.5 s gap: one subtitle.
    let words = vec![word(0, 500, "one"), word(1000, 1500, "two")];
    let subs = segment_words(&words);
    assert_eq!(subs.len(), 1);
    assert_eq!(subs[0].text, "one two");
    assert_eq!(subs[0].start_ms, 0);
    assert_eq!(subs[0].end_ms, 1500);
}

#[test]
fn the_char_ceiling_splits_exactly_where_it_first_fires() {
    // Twelve five-letter words, one space between each: the line reaches
    // 5, 11, 17, 23, 29, 35, 41, 47 characters; adding the ninth word
    // would make 53 > 50, so the split falls exactly before it.
    let words: Vec<Word> =
        (0..12).map(|i| word(i * 600, i * 600 + 500, "abcde")).collect();
    let subs = segment_words(&words);
    assert_eq!(subs.len(), 2);
    assert_eq!(subs[0].text.chars().count(), 47);
    assert_eq!(subs[0].text, "abcde abcde abcde abcde abcde abcde abcde abcde");
    assert_eq!(subs[1].text, "abcde abcde abcde abcde");
}

#[test]
fn sentence_final_punctuation_splits_and_pause_needs_length() {
    let words = vec![word(0, 1, "好。"), word(1, 2, "继续")];
    let subs = segment_words(&words);
    assert_eq!(subs.len(), 2, "sentence-final punctuation did not split");

    // a pause before the soft ceiling does not split
    let words2 = vec![word(0, 1, "短，"), word(1, 2, "后面")];
    let subs2 = segment_words(&words2);
    assert_eq!(subs2.len(), 1);

    // a pause at 33 or more characters does
    let long33 = "a".repeat(32) + ",";
    let words3 = vec![word(0, 1, &long33), word(1, 2, "tail")];
    let subs3 = segment_words(&words3);
    assert_eq!(subs3.len(), 2);
}

#[test]
fn empty_word_tokens_are_skipped() {
    let words = vec![word(0, 1, "a"), word(1, 2, ""), word(2, 3, "b")];
    let subs = segment_words(&words);
    assert_eq!(subs.len(), 1);
    assert_eq!(subs[0].text, "a b");
}

#[test]
fn utterances_drop_empty_texts_and_number_from_one() {
    let utts = vec![
        (0u64, 900u64, "第一句".to_string()),
        (1000, 1900, "".to_string()),
        (2000, 2900, "第二句".to_string()),
    ];
    let subs = utterances_to_subtitles(&utts);
    assert_eq!(subs.len(), 2);
    assert_eq!(subs[0].id, 1);
    assert_eq!(subs[0].start_ms, 0);
    assert_eq!(subs[1].id, 2);
    assert_eq!(subs[1].start_ms, 2000);
    assert_eq!(subs[1].text, "第二句");
}

#[test]
fn srt_time_formats_ms_accurately() {
    assert_eq!(srt_time(0), "00:00:00,000");
    assert_eq!(srt_time(1234), "00:00:01,234");
    assert_eq!(srt_time(61_000), "00:01:01,000");
    assert_eq!(srt_time(3_600_000 + 23 * 60_000 + 45_000 + 678), "01:23:45,678");
    assert_eq!(srt_time(100 * 3_600_000), "100:00:00,000");
}

#[test]
fn srt_entry_round_trips_through_the_decoder() {
    let subs = vec![
        SubtitleItem { id: 1, start_ms: 0, end_ms: 1500, text: "Hello world".to_string() },
        SubtitleItem { id: 42, start_ms: 3_725_678, end_ms: 7_200_001, text: "你好，世界".to_string() },
        SubtitleItem { id: 7, start_ms: 999, end_ms: 1000, text: "a --> b, not a time".to_string() },
        SubtitleItem { id: 9, start_ms: 10, end_ms: 20, text: "line one\nline two".to_string() },
    ];
    for sub in subs {
        let encoded = build_srt(&vec![sub.clone()]);
        let (id, start, end, text) = decode_srt_entry(&encoded).expect("decode the encoded entry");
        assert_eq!(id, sub.id);
        assert_eq!(start, sub.start_ms);
        assert_eq!(end, sub.end_ms);
        assert_eq!(text, sub.text);
    }
}

#[test]
fn srt_decoder_rejects_malformed_entries() {
    assert!(decode_srt_entry("").is_none());
    assert!(decode_srt_entry("not an entry").is_none());
    assert!(decode_srt_entry("1\n00:00:00,000 --> 00:00:01,500\nHello\n").is_none());
    assert!(decode_srt_entry("x\n00:00:00,000 --> 00:00:01,500\nHello\n\n").is_none());
    let ok = decode_srt_entry("3\n00:01:02,345 --> 00:01:03,000\nline\n\n").expect("well-formed");
    assert_eq!(ok, (3, 62_345, 63_000, "line".to_string()));
    // a claimed entry holding an interior blank line was mis-framed
    assert!(decode_srt_entry("3\n00:01:02,345 --> 00:01:03,000\na\n\nb\n\n").is_none());
}

#[test]
fn srt_document_has_the_exact_layout() {
    let subs = vec![
        SubtitleItem { id: 1, start_ms: 0, end_ms: 1500, text: "Hello".to_string() },
        SubtitleItem { id: 2, start_ms: 1600, end_ms: 2900, text: "你好".to_string() },
    ];
    let srt = build_srt(&subs);
    assert_eq!(
        srt,
        "1\n00:00:00,000 --> 00:00:01,500\nHello\n\n2\n00:00:01,600 --> 00:00:02,900\n你好\n\n"
    );
}
