//! The translation engine's pure logic: phase prompts, batch planning with
//! checkpoint resume, the model-call payloads, and the script-consistency
//! guard over phase outputs.

use vstd::multiset::Multiset;
use vstd::prelude::*;
use vstd::string::*;
use crate::chars::{join_with, push_str_chars, spec_join_with, spec_views_of, string_from_chars};
use crate::jsontext::{
    encode_json_object, push_json_escaped, spec_json_escape, spec_json_object, spec_pairs_view,
};
use crate::num::{dec_chars, push_dec, spec_dec, spec_digit_char};
use crate::protocol::spec_chunks_chain;

verus! {

/// Fixed tail of every phase prompt: the JSON round-trip rules.
pub const JSON_RULES: &'static str = "\n## Rules\n- Input/output format: JSON object {\"index\": \"text\", ...}\n- Output count MUST exactly match input count\n- Never merge, split, or omit any entry\n- Output ONLY the JSON object, no extra text or explanation";

/// Default core instruction of the correction phase.
pub const DEFAULT_CORRECTION_CORE: &'static str = "You are a subtitle correction assistant. Fix ASR transcription errors including:\n- Misrecognized words and homophones\n- Missing or incorrect punctuation\n- Obvious spelling mistakes\nKeep the ORIGINAL language — do NOT translate.";

/// Default core instruction of the standard translation phase.
pub const DEFAULT_STANDARD_CORE: &'static str = "You are a professional subtitle translator.\n- Preserve the original meaning, tone, and style\n- Use natural expressions appropriate for the target language\n- Keep proper nouns unless they have well-known translations";

/// Default core instruction of the reflective translation phase.
pub const DEFAULT_REFLECTIVE_CORE: &'static str = "You are an expert subtitle translator. For each subtitle, internally perform these 4 steps (do NOT output intermediate steps):\n1. Literal translation\n2. Free/idiomatic translation\n3. Compare both, revise for accuracy and naturalness\n4. Produce the final polished translation\n\nOutput ONLY the final result.";

/// Default core instruction of the optimization phase.
pub const DEFAULT_OPTIMIZE_CORE: &'static str = "You are a subtitle polishing assistant. Improve the already-translated subtitles:\n- Enhance fluency and naturalness\n- Fix awkward phrasing\n- Ensure consistency in terminology and style\n- Do NOT change the meaning";

/// Options of one translation run.
#[derive(Debug)]
pub struct TranslateOpts {
    pub target_language: String,
    pub correction: bool,
    pub optimization: bool,
    pub prompt_type: String,
    pub batch_size: usize,
    pub world_building: String,
    pub writing_style: String,
    pub glossary: String,
    pub forbidden: String,
    pub examples: String,
    pub custom_prompt: String,
    pub prompt_correction: String,
    pub prompt_standard: String,
    pub prompt_reflective: String,
    pub prompt_optimize: String,
}

/// One prompt flavor of the pipeline.
#[derive(Debug, Clone, Copy, PartialEq, Eq)]
pub enum Phase {
    Correction,
    Standard,
    Reflective,
    Optimize,
}

// ── Prompt building ─────────────────────────────────────────────────────────

/// The labeled blocks contributed by the non-empty prose knobs, in fixed
/// order.
pub open spec fn spec_section_parts(o: TranslateOpts) -> Seq<Seq<char>> {
    let p0: Seq<Seq<char>> = Seq::empty();
    let p1 = if o.world_building@.len() > 0 {
        p0.push("[Background / World Building]\n"@ + o.world_building@)
    } else {
        p0
    };
    let p2 = if o.writing_style@.len() > 0 {
        p1.push("[Writing Style]\n"@ + o.writing_style@)
    } else {
        p1
    };
    let p3 = if o.glossary@.len() > 0 {
        p2.push("[Glossary - Use these exact translations]\n"@ + o.glossary@)
    } else {
        p2
    };
    let p4 = if o.forbidden@.len() > 0 {
        p3.push("[Forbidden - Never use these words/translations]\n"@ + o.forbidden@)
    } else {
        p3
    };
    let p5 = if o.examples@.len() > 0 {
        p4.push("[Examples - Follow this translation style]\n"@ + o.examples@)
    } else {
        p4
    };
    if o.custom_prompt@.len() > 0 {
        p5.push("[Additional Instructions]\n"@ + o.custom_prompt@)
    } else {
        p5
    }
}

/// The configurable section: the blocks joined by blank lines, preceded by
/// a newline; empty when every knob is empty.
pub open spec fn spec_configurable_section(o: TranslateOpts) -> Seq<char> {
    let parts = spec_section_parts(o);
    if parts.len() == 0 {
        Seq::empty()
    } else {
        "\n"@ + spec_join_with(parts, "\n\n"@)
    }
}

fn labeled_block(label: &str, body: &String) -> (r: String)
    ensures
        r@ == label@ + body@,
{
    let mut s = String::from_str(label);
    s.append(body.as_str());
    s
}

/// Assemble the configurable section from the user's prose knobs: each
/// non-empty knob becomes a labeled block; the blocks are joined by blank
/// lines and preceded by one newline.
pub fn build_configurable_section(opts: &TranslateOpts) -> (r: String)
    ensures
        r@ == spec_configurable_section(*opts),
{
    let mut parts: Vec<String> = Vec::new();
    if !opts.world_building.as_str().is_empty() {
        parts.push(labeled_block("[Background / World Building]\n", &opts.world_building));
    }
    if !opts.writing_style.as_str().is_empty() {
        parts.push(labeled_block("[Writing Style]\n", &opts.writing_style));
    }
    if !opts.glossary.as_str().is_empty() {
        parts.push(labeled_block("[Glossary - Use these exact translations]\n", &opts.glossary));
    }
    if !opts.forbidden.as_str().is_empty() {
        parts.push(
            labeled_block("[Forbidden - Never use these words/translations]\n", &opts.forbidden),
        );
    }
    if !opts.examples.as_str().is_empty() {
        parts.push(labeled_block("[Examples - Follow this translation style]\n", &opts.examples));
    }
    if !opts.custom_prompt.as_str().is_empty() {
        parts.push(labeled_block("[Additional Instructions]\n", &opts.custom_prompt));
    }
    proof {
        assert(spec_views_of(parts@) =~= spec_section_parts(*opts));
    }
    if parts.len() == 0 {
        String::new()
    } else {
        let joined = join_with(&parts, "\n\n");
        let mut out = String::from_str("\n");
        out.append(joined.as_str());
        out
    }
}

/// The core instruction of a phase: the user's override when set, else the
/// built-in default.
pub open spec fn spec_core(phase: Phase, o: TranslateOpts) -> Seq<char> {
    match phase {
        Phase::Correction => if o.prompt_correction@.len() == 0 {
            DEFAULT_CORRECTION_CORE@
        } else {
            o.prompt_correction@
        },
        Phase::Standard => if o.prompt_standard@.len() == 0 {
            DEFAULT_STANDARD_CORE@
        } else {
            o.prompt_standard@
        },
        Phase::Reflective => if o.prompt_reflective@.len() == 0 {
            DEFAULT_REFLECTIVE_CORE@
        } else {
            o.prompt_reflective@
        },
        Phase::Optimize => if o.prompt_optimize@.len() == 0 {
            DEFAULT_OPTIMIZE_CORE@
        } else {
            o.prompt_optimize@
        },
    }
}

/// The phase-specific prefix naming the target language.
pub open spec fn spec_prefix(phase: Phase, o: TranslateOpts) -> Seq<char> {
    match phase {
        Phase::Correction => Seq::empty(),
        Phase::Standard | Phase::Reflective => "Translate the following subtitles to "@
            + o.target_language@ + ".\n\n"@,
        Phase::Optimize => "Target language: "@ + o.target_language@ + "\n\n"@,
    }
}

/// A phase's full system prompt: prefix, core instruction, the
/// configurable section, and the fixed JSON rules.
pub open spec fn spec_phase_prompt(phase: Phase, o: TranslateOpts) -> Seq<char> {
    spec_prefix(phase, o) + spec_core(phase, o) + "\n"@ + spec_configurable_section(o)
        + JSON_RULES@
}

/// Build the system prompt of a phase.
pub fn build_phase_prompt(phase: Phase, opts: &TranslateOpts) -> (r: String)
    ensures
        r@ == spec_phase_prompt(phase, *opts),
{
    let section = build_configurable_section(opts);
    let mut out = String::new();
    match phase {
        Phase::Correction => {},
        Phase::Standard | Phase::Reflective => {
            out.append("Translate the following subtitles to ");
            out.append(opts.target_language.as_str());
            out.append(".\n\n");
        },
        Phase::Optimize => {
            out.append("Target language: ");
            out.append(opts.target_language.as_str());
            out.append("\n\n");
        },
    }
    match phase {
        Phase::Correction => {
            if opts.prompt_correction.as_str().is_empty() {
                out.append(DEFAULT_CORRECTION_CORE);
            } else {
                out.append(opts.prompt_correction.as_str());
            }
        },
        Phase::Standard => {
            if opts.prompt_standard.as_str().is_empty() {
                out.append(DEFAULT_STANDARD_CORE);
            } else {
                out.append(opts.prompt_standard.as_str());
            }
        },
        Phase::Reflective => {
            if opts.prompt_reflective.as_str().is_empty() {
                out.append(DEFAULT_REFLECTIVE_CORE);
            } else {
                out.append(opts.prompt_reflective.as_str());
            }
        },
        Phase::Optimize => {
            if opts.prompt_optimize.as_str().is_empty() {
                out.append(DEFAULT_OPTIMIZE_CORE);
            } else {
                out.append(opts.prompt_optimize.as_str());
            }
        },
    }
    out.append("\n");
    out.append(section.as_str());
    out.append(JSON_RULES);
    out
}

/// The temperature of each phase, in tenths: conservative for correction,
/// standard for translation, creative for optimization.
pub fn phase_temperature_tenths(phase: Phase) -> (r: u8)
    ensures
        phase is Correction ==> r == 1,
        (phase is Standard || phase is Reflective) ==> r == 3,
        phase is Optimize ==> r == 5,
{
    match phase {
        Phase::Correction => 1,
        Phase::Standard | Phase::Reflective => 3,
        Phase::Optimize => 5,
    }
}

// ── Chat request payloads ───────────────────────────────────────────────────

/// `s` without its trailing slashes.
pub open spec fn spec_trim_trailing_slash(s: Seq<char>) -> Seq<char>
    decreases s.len(),
{
    if s.len() > 0 && s.last() == '/' {
        spec_trim_trailing_slash(s.drop_last())
    } else {
        s
    }
}

proof fn lemma_trim_take(s: Seq<char>, k: int)
    requires
        0 <= k <= s.len(),
        forall|j: int| k <= j < s.len() ==> s[j] == '/',
        k > 0 ==> s[k - 1] != '/',
    ensures
        spec_trim_trailing_slash(s) == s.take(k),
    decreases s.len() - k,
{
    if s.len() == k {
        assert(s.take(k) =~= s);
    } else {
        assert(s.last() == '/');
        assert(s.drop_last() =~= s.take(s.len() - 1));
        lemma_trim_take(s.take(s.len() - 1), k);
        assert(s.take(s.len() - 1).take(k) =~= s.take(k));
    }
}

/// The chat-completions endpoint under a base URL, with trailing slashes
/// of the base trimmed.
pub open spec fn spec_chat_url(base: Seq<char>) -> Seq<char> {
    spec_trim_trailing_slash(base) + "/chat/completions"@
}

/// Strip the trailing slashes of a base URL.
pub fn trim_trailing_slashes(base_url: &str) -> (r: String)
    ensures
        r@ == spec_trim_trailing_slash(base_url@),
{
    let n = base_url.unicode_len();
    let mut k: usize = n;
    while k > 0 && base_url.get_char(k - 1) == '/'
        invariant
            k <= n,
            n == base_url@.len(),
            forall|j: int| k <= j < n ==> base_url@[j] == '/',
        decreases k,
    {
        k -= 1;
    }
    proof {
        lemma_trim_take(base_url@, k as int);
    }
    let mut out: Vec<char> = Vec::new();
    let mut i: usize = 0;
    while i < k
        invariant
            i <= k <= base_url@.len(),
            n == base_url@.len(),
            out@ == base_url@.take(i as int),
        decreases k - i,
    {
        out.push(base_url.get_char(i));
        assert(out@ =~= base_url@.take(i + 1));
        i += 1;
    }
    proof {
        assert(out@ =~= base_url@.take(k as int));
    }
    string_from_chars(&out)
}

/// Build the chat-completions URL for a base URL.
pub fn build_chat_url(base_url: &str) -> (r: String)
    ensures
        r@ == spec_chat_url(base_url@),
{
    let mut s = trim_trailing_slashes(base_url);
    s.append("/chat/completions");
    s
}

/// The JSON body of a chat-completions request: the model, a system and a
/// user message, and the temperature written in tenths.
pub open spec fn spec_chat_body(
    model: Seq<char>,
    system_prompt: Seq<char>,
    user_content: Seq<char>,
    temperature_tenths: nat,
) -> Seq<char> {
    "{\"model\":\""@ + spec_json_escape(model) + "\",\"messages\":[{\"role\":\"system\",\"content\":\""@
        + spec_json_escape(system_prompt) + "\"},{\"role\":\"user\",\"content\":\""@
        + spec_json_escape(user_content) + "\"}],\"temperature\":0."@ + seq![
        spec_digit_char(temperature_tenths),
    ] + "}"@
}

/// Build the chat-completions request body.
pub fn build_chat_body(
    model: &str,
    system_prompt: &str,
    user_content: &str,
    temperature_tenths: u8,
) -> (r: String)
    requires
        temperature_tenths < 10,
    ensures
        r@ == spec_chat_body(model@, system_prompt@, user_content@, temperature_tenths as nat),
{
    let mut out: Vec<char> = Vec::new();
    push_str_chars(&mut out, "{\"model\":\"");
    let m = crate::chars::chars_of_str(model);
    push_json_escaped(&mut out, &m);
    push_str_chars(&mut out, "\",\"messages\":[{\"role\":\"system\",\"content\":\"");
    let sp = crate::chars::chars_of_str(system_prompt);
    push_json_escaped(&mut out, &sp);
    push_str_chars(&mut out, "\"},{\"role\":\"user\",\"content\":\"");
    let uc = crate::chars::chars_of_str(user_content);
    push_json_escaped(&mut out, &uc);
    push_str_chars(&mut out, "\"}],\"temperature\":0.");
    push_dec(temperature_tenths as u64, &mut out);
    push_str_chars(&mut out, "}");
    proof {
        assert(spec_dec(temperature_tenths as nat) =~= seq![
            spec_digit_char(temperature_tenths as nat),
        ]);
        assert(out@ =~= spec_chat_body(
            model@,
            system_prompt@,
            user_content@,
            temperature_tenths as nat,
        ));
    }
    string_from_chars(&out)
}

/// The user message of a batch call: the indices as decimal keys.
pub open spec fn spec_user_pairs(items: Seq<(u64, String)>) -> Seq<(Seq<char>, Seq<char>)> {
    items.map_values(|p: (u64, String)| (spec_dec(p.0 as nat), p.1@))
}

/// Encode a batch as the JSON object `{"<index>": "<text>", ...}`.
pub fn build_user_content(items: &Vec<(u64, String)>) -> (r: String)
    ensures
        r@ == spec_json_object(spec_user_pairs(items@)),
{
    let mut pairs: Vec<(String, String)> = Vec::new();
    let mut i: usize = 0;
    while i < items.len()
        invariant
            i <= items@.len(),
            pairs@.len() == i,
            forall|j: int|
                0 <= j < i ==> (#[trigger] pairs@[j]).0@ == spec_dec(items@[j].0 as nat)
                    && pairs@[j].1 == items@[j].1,
        decreases items.len() - i,
    {
        let key = string_from_chars(&dec_chars(items[i].0));
        let val = items[i].1.clone();
        let ghost kview = key@;
        proof {
            assert(kview == spec_dec(items@[i as int].0 as nat));
            assert(val == items@[i as int].1);
        }
        pairs.push((key, val));
        i += 1;
    }
    proof {
        assert(spec_pairs_view(pairs@) =~= spec_user_pairs(items@));
    }
    encode_json_object(&pairs)
}

// ── Batch planning ──────────────────────────────────────────────────────────

/// An index is already checkpointed when `existing` holds a row for it.
pub open spec fn spec_has_index(existing: Seq<(u64, String)>, idx: u64) -> bool {
    exists|i: int| 0 <= i < existing.len() && (#[trigger] existing[i]).0 == idx
}

fn has_index(existing: &Vec<(u64, String)>, idx: u64) -> (r: bool)
    ensures
        r == spec_has_index(existing@, idx),
{
    let mut i: usize = 0;
    while i < existing.len()
        invariant
            i <= existing@.len(),
            forall|k: int| 0 <= k < i ==> (#[trigger] existing@[k]).0 != idx,
        decreases existing.len() - i,
    {
        if existing[i].0 == idx {
            return true;
        }
        i += 1;
    }
    false
}

/// Pairs in ascending index order.
pub open spec fn spec_pairs_sorted(s: Seq<(u64, String)>) -> bool {
    forall|i: int, j: int| 0 <= i <= j < s.len() ==> (#[trigger] s[i]).0 <= (#[trigger] s[j]).0
}

/// Order pairs by ascending index, keeping exactly the given pairs.
fn sort_pairs_by_index(input: Vec<(u64, String)>) -> (r: Vec<(u64, String)>)
    ensures
        spec_pairs_sorted(r@),
        r@.to_multiset() == input@.to_multiset(),
        r@.len() == input@.len(),
{
    let mut v = input;
    let mut out: Vec<(u64, String)> = Vec::new();
    proof {
        broadcast use vstd::seq_lib::group_to_multiset_ensures;
        broadcast use vstd::multiset::group_multiset_axioms;

        assert(out@.to_multiset().add(v@.to_multiset()) =~= input@.to_multiset());
    }
    while v.len() > 0
        invariant
            spec_pairs_sorted(out@),
            out@.to_multiset().add(v@.to_multiset()) == input@.to_multiset(),
            out@.len() + v@.len() == input@.len(),
            forall|a: int, b: int|
                0 <= a < out@.len() && 0 <= b < v@.len() ==> (#[trigger] out@[a]).0
                    <= (#[trigger] v@[b]).0,
        decreases v.len(),
    {
        let mut m: usize = 0;
        let mut k: usize = 1;
        while k < v.len()
            invariant
                m < k <= v@.len() || (k <= v@.len() && m == 0),
                m < v@.len(),
                v@.len() > 0,
                forall|j: int| 0 <= j < k ==> v@[m as int].0 <= (#[trigger] v@[j]).0,
            decreases v.len() - k,
        {
            if v[k].0 < v[m].0 {
                m = k;
            }
            k += 1;
        }
        let ghost old_v = v@;
        let ghost old_out = out@;
        let x = v.remove(m);
        out.push(x);
        proof {
            broadcast use vstd::seq_lib::group_to_multiset_ensures;
            broadcast use vstd::multiset::group_multiset_axioms;

            assert(v@ == old_v.remove(m as int));
            assert(old_v.remove(m as int).to_multiset() =~= old_v.to_multiset().remove(
                old_v[m as int],
            ));
            assert(out@ == old_out.push(old_v[m as int]));
            assert(old_out.push(old_v[m as int]).to_multiset() =~= old_out.to_multiset().insert(
                old_v[m as int],
            ));
            assert(old_v.contains(old_v[m as int]));
            assert(old_v.to_multiset().count(old_v[m as int]) > 0);
            assert(out@.to_multiset().add(v@.to_multiset()) =~= input@.to_multiset());
            assert forall|a: int, b: int|
                0 <= a < out@.len() && 0 <= b < v@.len() implies (#[trigger] out@[a]).0
                <= (#[trigger] v@[b]).0 by {
                assert(v@[b] == (if b < m {
                    old_v[b]
                } else {
                    old_v[b + 1]
                }));
                if a < out@.len() - 1 {
                    assert(out@[a] == old_out[a]);
                }
            }
        }
    }
    proof {
        broadcast use vstd::seq_lib::group_to_multiset_ensures;
        broadcast use vstd::multiset::group_multiset_axioms;

        assert(v@.to_multiset() =~= Multiset::<(u64, String)>::empty());
        assert(out@.to_multiset() =~= input@.to_multiset());
    }
    out
}

/// Every pair of a sequence with the filter's multiset satisfies the
/// filter's predicate.
proof fn lemma_sorted_pair_members(
    src: Seq<(u64, String)>,
    pred: spec_fn((u64, String)) -> bool,
    sorted: Seq<(u64, String)>,
)
    requires
        sorted.to_multiset() == src.filter(pred).to_multiset(),
    ensures
        forall|k: int| 0 <= k < sorted.len() ==> pred(#[trigger] sorted[k]),
{
    broadcast use vstd::seq_lib::group_to_multiset_ensures;
    broadcast use vstd::multiset::group_multiset_axioms;

    let flt = src.filter(pred);
    assert forall|k: int| 0 <= k < sorted.len() implies pred(#[trigger] sorted[k]) by {
        assert(sorted.contains(sorted[k]));
        assert(sorted.to_multiset().count(sorted[k]) > 0);
        assert(flt.to_multiset().count(sorted[k]) > 0);
        assert(flt.contains(sorted[k]));
        let w = choose|w: int| 0 <= w < flt.len() && flt[w] == sorted[k];
        src.lemma_filter_pred(pred, w);
    }
}

/// The work left for a phase: the input entries whose index has no
/// checkpoint row yet, in ascending index order. When every index is
/// checkpointed the plan is empty, so a finished phase issues no model
/// call at all.
pub fn plan_todo(texts: &Vec<(u64, String)>, existing: &Vec<(u64, String)>) -> (r: Vec<
    (u64, String),
>)
    ensures
        spec_pairs_sorted(r@),
        r@.to_multiset() == texts@.filter(
            |p: (u64, String)| !spec_has_index(existing@, p.0),
        ).to_multiset(),
        r@.len() == texts@.filter(|p: (u64, String)| !spec_has_index(existing@, p.0)).len(),
        forall|k: int| 0 <= k < r@.len() ==> !spec_has_index(existing@, (#[trigger] r@[k]).0),
        (forall|k: int|
            0 <= k < texts@.len() ==> spec_has_index(existing@, (#[trigger] texts@[k]).0))
            ==> r@.len() == 0,
{
    let ghost pred = |p: (u64, String)| !spec_has_index(existing@, p.0);
    let mut out: Vec<(u64, String)> = Vec::new();
    let mut i: usize = 0;
    proof {
        assert(Seq::<(u64, String)>::empty().filter(pred) =~= Seq::<(u64, String)>::empty()) by {
            reveal(Seq::filter);
        }
        assert(texts@.take(0) =~= Seq::<(u64, String)>::empty());
    }
    while i < texts.len()
        invariant
            i <= texts@.len(),
            pred == (|p: (u64, String)| !spec_has_index(existing@, p.0)),
            out@ == texts@.take(i as int).filter(pred),
            (forall|k: int|
                0 <= k < i ==> spec_has_index(existing@, (#[trigger] texts@[k]).0)) ==> out@.len()
                == 0,
        decreases texts.len() - i,
    {
        let idx = texts[i].0;
        proof {
            texts@.take(i as int).lemma_filter_push(texts@[i as int], pred);
            assert(texts@.take(i + 1) =~= texts@.take(i as int).push(texts@[i as int]));
        }
        if !has_index(existing, idx) {
            let text = texts[i].1.clone();
            proof {
                assert((idx, text) == texts@[i as int]);
            }
            out.push((idx, text));
            proof {
                assert(out@ =~= texts@.take(i + 1).filter(pred));
            }
        }
        i += 1;
    }
    proof {
        assert(texts@.take(texts@.len() as int) =~= texts@);
    }
    let sorted = sort_pairs_by_index(out);
    proof {
        lemma_sorted_pair_members(texts@, pred, sorted@);
    }
    sorted
}

/// Contiguous batch ranges of `batch_size` over `n` positions (the last
/// may be shorter).
pub fn chunk_ranges(n: usize, batch_size: usize) -> (r: Vec<(usize, usize)>)
    requires
        batch_size > 0,
    ensures
        spec_chunks_chain(r@, 0, n as int),
        forall|k: int|
            0 <= k < r@.len() ==> (#[trigger] r@[k]).1 - r@[k].0 <= batch_size,
        forall|k: int|
            0 <= k < r@.len() - 1 ==> (#[trigger] r@[k]).1 - r@[k].0 == batch_size,
        n == 0 ==> r@.len() == 0,
        n > 0 ==> r@.len() > 0,
{
    let mut out: Vec<(usize, usize)> = Vec::new();
    let mut i: usize = 0;
    while i < n
        invariant
            i <= n,
            batch_size > 0,
            spec_chunks_chain(out@, 0, i as int),
            forall|k: int|
                0 <= k < out@.len() ==> (#[trigger] out@[k]).1 - out@[k].0 <= batch_size,
            forall|k: int|
                0 <= k < out@.len() ==> ((#[trigger] out@[k]).1 - out@[k].0 == batch_size
                    || out@[k].1 == n),
            i == 0 ==> out@.len() == 0,
            i > 0 ==> out@.len() > 0,
        decreases n - i,
    {
        let end = if n - i > batch_size {
            i + batch_size
        } else {
            n
        };
        proof {
            lemma_chain_extend(out@, 0, i as int, end as int);
        }
        out.push((i, end));
        i = end;
    }
    proof {
        crate::protocol::lemma_chain_bounds(out@, 0, n as int);
        assert forall|k: int|
            0 <= k < out@.len() - 1 implies (#[trigger] out@[k]).1 - out@[k].0 == batch_size by {
            assert(out@[k].1 == out@[k + 1].0);
            assert(out@[k + 1].0 < out@[k + 1].1 <= n);
        }
    }
    out
}

/// Appending an adjacent range keeps the chain.
proof fn lemma_chain_extend(chunks: Seq<(usize, usize)>, s: int, m: int, e: int)
    requires
        spec_chunks_chain(chunks, s, m),
        m < e,
        e <= usize::MAX,
        0 <= s,
        0 <= m,
    ensures
        spec_chunks_chain(chunks.push(((m as usize), (e as usize))), s, e),
    decreases chunks.len(),
{
    if chunks.len() == 0 {
        assert(chunks.push(((m as usize), (e as usize))) =~= seq![((m as usize), (e as usize))]);
        assert(seq![((m as usize), (e as usize))].drop_first() =~= Seq::<(usize, usize)>::empty());
        assert(spec_chunks_chain(Seq::<(usize, usize)>::empty(), e, e));
    } else {
        lemma_chain_extend(chunks.drop_first(), chunks[0].1 as int, m, e);
        assert(chunks.push(((m as usize), (e as usize)))[0] == chunks[0]);
        assert(chunks.push(((m as usize), (e as usize))).drop_first() =~= chunks.drop_first().push(
            ((m as usize), (e as usize)),
        ));
    }
}

// ── Script detection ────────────────────────────────────────────────────────

/// A rough Unicode script family.
#[derive(Debug, Clone, Copy, PartialEq, Eq)]
pub enum Script {
    Cjk,
    Latin,
    Arabic,
    Cyrillic,
    Unknown,
}

/// CJK code points: unified ideographs, kana, hangul.
pub open spec fn spec_is_cjk(c: char) -> bool {
    (0x4E00 <= c as u32 <= 0x9FFF) || (0x3040 <= c as u32 <= 0x30FF) || (0xAC00 <= c as u32
        <= 0xD7AF)
}

/// Basic Latin letters: the ASCII span from `A` to `z`, its punctuation
/// gap included.
pub open spec fn spec_is_latin(c: char) -> bool {
    0x0041 <= c as u32 <= 0x007A
}

/// Arabic block.
pub open spec fn spec_is_arabic(c: char) -> bool {
    0x0600 <= c as u32 <= 0x06FF
}

/// Cyrillic block.
pub open spec fn spec_is_cyrillic(c: char) -> bool {
    0x0400 <= c as u32 <= 0x04FF
}

/// Count of characters satisfying `f`.
pub open spec fn spec_count(s: Seq<char>, f: spec_fn(char) -> bool) -> nat
    decreases s.len(),
{
    if s.len() == 0 {
        0
    } else {
        spec_count(s.drop_last(), f) + if f(s.last()) {
            1nat
        } else {
            0nat
        }
    }
}

/// The dominant script of a text: the largest of the four counts wins,
/// ties in the listed order; all-zero means unknown.
pub open spec fn spec_script_of(s: Seq<char>) -> Script {
    let cjk = spec_count(s, |c: char| spec_is_cjk(c));
    let latin = spec_count(s, |c: char| spec_is_latin(c));
    let arabic = spec_count(s, |c: char| spec_is_arabic(c));
    let cyrillic = spec_count(s, |c: char| spec_is_cyrillic(c));
    if cjk == 0 && latin == 0 && arabic == 0 && cyrillic == 0 {
        Script::Unknown
    } else if cjk >= latin && cjk >= arabic && cjk >= cyrillic {
        Script::Cjk
    } else if latin >= arabic && latin >= cyrillic {
        Script::Latin
    } else if arabic >= cyrillic {
        Script::Arabic
    } else {
        Script::Cyrillic
    }
}

/// Classify the dominant script of `text`.
pub fn script_of(text: &str) -> (r: Script)
    ensures
        r == spec_script_of(text@),
{
    let ghost fc = |c: char| spec_is_cjk(c);
    let ghost fl = |c: char| spec_is_latin(c);
    let ghost fa = |c: char| spec_is_arabic(c);
    let ghost fy = |c: char| spec_is_cyrillic(c);
    let n = text.unicode_len();
    let mut cjk: usize = 0;
    let mut latin: usize = 0;
    let mut arabic: usize = 0;
    let mut cyrillic: usize = 0;
    let mut i: usize = 0;
    proof {
        assert(text@.take(0) =~= Seq::<char>::empty());
    }
    while i < n
        invariant
            i <= n,
            n == text@.len(),
            cjk == spec_count(text@.take(i as int), fc),
            latin == spec_count(text@.take(i as int), fl),
            arabic == spec_count(text@.take(i as int), fa),
            cyrillic == spec_count(text@.take(i as int), fy),
            cjk <= i && latin <= i && arabic <= i && cyrillic <= i,
            fc == (|c: char| spec_is_cjk(c)),
            fl == (|c: char| spec_is_latin(c)),
            fa == (|c: char| spec_is_arabic(c)),
            fy == (|c: char| spec_is_cyrillic(c)),
        decreases n - i,
    {
        let c = text.get_char(i);
        let cp = c as u32;
        proof {
            assert(text@.take(i + 1).drop_last() =~= text@.take(i as int));
            assert(text@.take(i + 1).last() == text@[i as int]);
        }
        if (0x4E00 <= cp && cp <= 0x9FFF) || (0x3040 <= cp && cp <= 0x30FF) || (0xAC00 <= cp && cp
            <= 0xD7AF) {
            cjk += 1;
        } else if 0x0041 <= cp && cp <= 0x007A {
            latin += 1;
        } else if 0x0600 <= cp && cp <= 0x06FF {
            arabic += 1;
        } else if 0x0400 <= cp && cp <= 0x04FF {
            cyrillic += 1;
        }
        i += 1;
    }
    proof {
        assert(text@.take(n as int) =~= text@);
    }
    if cjk == 0 && latin == 0 && arabic == 0 && cyrillic == 0 {
        Script::Unknown
    } else if cjk >= latin && cjk >= arabic && cjk >= cyrillic {
        Script::Cjk
    } else if latin >= arabic && latin >= cyrillic {
        Script::Latin
    } else if arabic >= cyrillic {
        Script::Arabic
    } else {
        Script::Cyrillic
    }
}

/// The name of a script family.
pub open spec fn spec_script_name(s: Script) -> Seq<char> {
    match s {
        Script::Cjk => "cjk"@,
        Script::Latin => "latin"@,
        Script::Arabic => "arabic"@,
        Script::Cyrillic => "cyrillic"@,
        Script::Unknown => "unknown"@,
    }
}

/// Detect the dominant script of a text, as its family name.
pub fn detect_script(text: &str) -> (r: &'static str)
    ensures
        r@ == spec_script_name(spec_script_of(text@)),
{
    match script_of(text) {
        Script::Cjk => "cjk",
        Script::Latin => "latin",
        Script::Arabic => "arabic",
        Script::Cyrillic => "cyrillic",
        Script::Unknown => "unknown",
    }
}

/// The script sample of a phase output: its first ten values joined by
/// spaces.
pub open spec fn spec_sample(values: Seq<Seq<char>>) -> Seq<char> {
    let taken = if values.len() <= 10 {
        values
    } else {
        values.take(10)
    };
    spec_join_with(taken, " "@)
}

/// The dominant script over a sample of up to ten values.
pub fn dominant_script_class(values: &Vec<String>) -> (r: Script)
    ensures
        r == spec_script_of(spec_sample(spec_views_of(values@))),
{
    let mut sample: Vec<String> = Vec::new();
    let count = if values.len() <= 10 {
        values.len()
    } else {
        10
    };
    let mut i: usize = 0;
    while i < count
        invariant
            i <= count <= values@.len(),
            sample@.len() == i,
            forall|k: int| 0 <= k < i ==> (#[trigger] sample@[k])@ == values@[k]@,
        decreases count - i,
    {
        sample.push(values[i].clone());
        i += 1;
    }
    proof {
        if values@.len() <= 10 {
            assert(spec_views_of(sample@) =~= spec_views_of(values@));
        } else {
            assert(spec_views_of(sample@) =~= spec_views_of(values@).take(10));
        }
    }
    let joined = join_with(&sample, " ");
    script_of(joined.as_str())
}

/// The dominant script over a sample of up to ten values, as its name.
pub fn dominant_script(values: &Vec<String>) -> (r: &'static str)
    ensures
        r@ == spec_script_name(spec_script_of(spec_sample(spec_views_of(values@)))),
{
    match dominant_script_class(values) {
        Script::Cjk => "cjk",
        Script::Latin => "latin",
        Script::Arabic => "arabic",
        Script::Cyrillic => "cyrillic",
        Script::Unknown => "unknown",
    }
}

/// The script-consistency guard: an optimization output is kept unless its
/// dominant script is known, the translation output's is known, and the
/// two differ.
pub open spec fn spec_keep_optimized(trans: Script, opt: Script) -> bool {
    !(!(opt is Unknown) && !(trans is Unknown) && opt != trans)
}

/// Decide whether to keep the optimization output over the translation
/// output.
pub fn keep_optimized(translated: &Vec<String>, optimized: &Vec<String>) -> (r: bool)
    ensures
        r == spec_keep_optimized(
            spec_script_of(spec_sample(spec_views_of(translated@))),
            spec_script_of(spec_sample(spec_views_of(optimized@))),
        ),
{
    let t = dominant_script_class(translated);
    let o = dominant_script_class(optimized);
    let differ = match (t, o) {
        (Script::Unknown, _) => false,
        (_, Script::Unknown) => false,
        (a, b) => !script_eq(a, b),
    };
    !differ
}

fn script_eq(a: Script, b: Script) -> (r: bool)
    ensures
        r == (a == b),
{
    match (a, b) {
        (Script::Cjk, Script::Cjk) => true,
        (Script::Latin, Script::Latin) => true,
        (Script::Arabic, Script::Arabic) => true,
        (Script::Cyrillic, Script::Cyrillic) => true,
        (Script::Unknown, Script::Unknown) => true,
        _ => false,
    }
}

} // verus!
