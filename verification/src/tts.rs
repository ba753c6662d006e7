//! TTS providers: the shared request/response types, the provider
//! variants with their verified request-building and reply-decoding
//! logic, and the authentication token derivation of the built-in
//! provider. The HTTP calls themselves happen outside and exchange plain
//! values with the functions here.

use base64::Engine as _;
use vstd::prelude::*;
use vstd::string::*;
use crate::chars::{chars_of_str, push_str_chars, rfind_char, string_from_chars};
use crate::errors::DubError;
use crate::jsontext::{encode_json_object, spec_json_object, spec_pairs_view};
use crate::num::{push_dec, spec_dec};

verus! {

/// One selectable voice of a provider.
#[derive(Debug, Clone, PartialEq, Eq)]
pub struct TtsVoice {
    pub id: String,
    pub name: String,
    pub description: Option<String>,
}

/// A synthesis request: the text, an optional voice, an optional
/// reference clip, and where to write the audio.
#[derive(Debug)]
pub struct TtsSynthRequest {
    pub text: String,
    pub voice_id: Option<String>,
    pub reference_audio_path: Option<String>,
    pub output_path: String,
}

/// A synthesis result: where the audio landed and how long it plays.
#[derive(Debug, Clone, PartialEq, Eq)]
pub struct TtsSynthResponse {
    pub audio_path: String,
    pub duration_ms: u64,
}

/// The built-in provider's configuration: a default voice.
#[derive(Debug, Clone, PartialEq, Eq)]
pub struct NcnProvider {
    pub voice_id: String,
}

impl NcnProvider {
    /// A provider bound to a default voice id.
    pub fn new(voice_id: String) -> (r: NcnProvider)
        ensures
            r.voice_id == voice_id,
    {
        NcnProvider { voice_id }
    }
}

/// A Gradio voice-cloning endpoint.
#[derive(Debug, Clone, PartialEq, Eq)]
pub struct GradioProvider {
    pub endpoint: String,
}

impl GradioProvider {
    /// A provider bound to a Gradio endpoint.
    pub fn new(endpoint: String) -> (r: GradioProvider)
        ensures
            r.endpoint == endpoint,
    {
        GradioProvider { endpoint }
    }

    /// Gradio voice cloning exposes no discrete voice list.
    pub fn list_voices(&self) -> (r: Vec<TtsVoice>)
        ensures
            r@.len() == 0,
    {
        Vec::new()
    }
}

/// A generic HTTP-REST provider configuration.
#[derive(Debug)]
pub struct HttpRestProvider {
    pub url: String,
    pub method: String,
    pub text_key: String,
    pub reference_audio_key: Option<String>,
    pub voice_key: Option<String>,
    pub voice_id: Option<String>,
    pub response_type: String,
    pub response_key: Option<String>,
    pub headers: Vec<(String, String)>,
    pub requires_ref: bool,
}

/// A field's value, or a conventional default when it is absent.
pub open spec fn spec_field_or(s: Seq<char>, key: Seq<char>, default: Seq<char>) -> Seq<char> {
    match crate::registry::json_str_field_of(s, key) {
        Some(v) => v,
        None => default,
    }
}

/// An optional field mirrors the JSON lookup exactly.
pub open spec fn spec_opt_field_matches(o: Option<String>, f: Option<Seq<char>>) -> bool {
    match (o, f) {
        (Some(a), Some(b)) => a@ == b,
        (None, None) => true,
        _ => false,
    }
}

/// A REST provider carries exactly the configured keys: `url`, `method`,
/// `textKey` and `responseType` with their conventional defaults, the
/// optional keys as given, the string-valued `headers` entries, and the
/// record's reference-audio flag.
pub open spec fn spec_rest_config_matches(
    p: HttpRestProvider,
    s: Seq<char>,
    requires_ref: bool,
) -> bool {
    &&& p.url@ == spec_field_or(s, "url"@, ""@)
    &&& p.method@ == spec_field_or(s, "method"@, "POST"@)
    &&& p.text_key@ == spec_field_or(s, "textKey"@, "text"@)
    &&& p.response_type@ == spec_field_or(s, "responseType"@, "json_base64"@)
    &&& spec_opt_field_matches(
        p.reference_audio_key,
        crate::registry::json_str_field_of(s, "referenceAudioKey"@),
    )
    &&& spec_opt_field_matches(p.voice_key, crate::registry::json_str_field_of(s, "voiceKey"@))
    &&& spec_opt_field_matches(p.voice_id, crate::registry::json_str_field_of(s, "voiceId"@))
    &&& spec_opt_field_matches(
        p.response_key,
        crate::registry::json_str_field_of(s, "responseKey"@),
    )
    &&& p.headers@.len() == crate::registry::json_str_map_field_of(s, "headers"@).len()
    &&& (forall|i: int|
        0 <= i < p.headers@.len() ==> (#[trigger] p.headers@[i]).0@
            == crate::registry::json_str_map_field_of(s, "headers"@)[i].0 && p.headers@[i].1@
            == crate::registry::json_str_map_field_of(s, "headers"@)[i].1)
    &&& p.requires_ref == requires_ref
}

impl HttpRestProvider {
    /// A REST provider exposes no discrete voice list.
    pub fn list_voices(&self) -> (r: Vec<TtsVoice>)
        ensures
            r@.len() == 0,
    {
        Vec::new()
    }

    /// Build a REST provider from its configuration record: a validation
    /// error exactly when the configuration is not valid JSON; otherwise
    /// every field is read from the configuration, with the conventional
    /// defaults for the four mandatory keys.
    pub fn from_json(config_json: &str, requires_ref: bool) -> (r: Result<
        HttpRestProvider,
        DubError,
    >)
        ensures
            (r is Err) <==> !crate::registry::json_valid_of(config_json@),
            r matches Err(e) ==> e is Validation,
            r matches Ok(p) ==> spec_rest_config_matches(p, config_json@, requires_ref),
    {
        if !crate::registry::json_is_valid(config_json) {
            return Err(
                DubError::Validation {
                    detail: String::from_str("the plugin configuration is not valid JSON"),
                },
            );
        }
        let url = str_or(crate::registry::json_str_field(config_json, "url"), "");
        let method = str_or(crate::registry::json_str_field(config_json, "method"), "POST");
        let text_key = str_or(crate::registry::json_str_field(config_json, "textKey"), "text");
        let response_type = str_or(
            crate::registry::json_str_field(config_json, "responseType"),
            "json_base64",
        );
        Ok(
            HttpRestProvider {
                url,
                method,
                text_key,
                reference_audio_key: crate::registry::json_str_field(
                    config_json,
                    "referenceAudioKey",
                ),
                voice_key: crate::registry::json_str_field(config_json, "voiceKey"),
                voice_id: crate::registry::json_str_field(config_json, "voiceId"),
                response_type,
                response_key: crate::registry::json_str_field(config_json, "responseKey"),
                headers: crate::registry::json_str_map_field(config_json, "headers"),
                requires_ref,
            },
        )
    }
}

fn str_or(v: Option<String>, default: &str) -> (r: String)
    ensures
        match v {
            Some(s) => r == s,
            None => r@ == default@,
        },
{
    match v {
        Some(s) => s,
        None => String::from_str(default),
    }
}

/// The provider variants, dispatched by value.
pub enum TtsProviderImpl {
    Ncn(NcnProvider),
    Gradio(GradioProvider),
    HttpRest(HttpRestProvider),
}

impl TtsProviderImpl {
    /// The stored name of the variant.
    pub fn plugin_type(&self) -> (r: &'static str)
        ensures
            self is Ncn ==> r@ == "ncn"@,
            self is Gradio ==> r@ == "gradio"@,
            self is HttpRest ==> r@ == "http_rest"@,
    {
        match self {
            TtsProviderImpl::Ncn(_) => "ncn",
            TtsProviderImpl::Gradio(_) => "gradio",
            TtsProviderImpl::HttpRest(_) => "http_rest",
        }
    }

    /// Whether synthesis needs a reference clip: always for Gradio, as
    /// configured for REST, never for the built-in provider.
    pub fn requires_reference_audio(&self) -> (r: bool)
        ensures
            self is Ncn ==> !r,
            self is Gradio ==> r,
            self matches TtsProviderImpl::HttpRest(p) ==> r == p.requires_ref,
    {
        match self {
            TtsProviderImpl::Ncn(_) => false,
            TtsProviderImpl::Gradio(_) => true,
            TtsProviderImpl::HttpRest(p) => p.requires_ref,
        }
    }
}

// ── Trusted wrappers around outside computations ────────────────────────────

/// The lowercase hex MD5 digest of a text.
pub uninterp spec fn md5_hex_of(s: Seq<char>) -> Seq<char>;

/// Relies on `md5::compute` and its `LowerHex` rendering: a 32-character
/// lowercase hex digest, a function of the input text alone.
#[verifier::external_body]
pub fn md5_hex(s: &str) -> (r: String)
    ensures
        r@ == md5_hex_of(s@),
        r@.len() == 32,
{
    let digest = md5::compute(s.as_bytes());
    format!("{:x}", digest)
}

/// The percent-encoding of a text.
pub uninterp spec fn urlenc_of(s: Seq<char>) -> Seq<char>;

/// Relies on `urlencoding::encode`: percent-encodes URL-unsafe bytes, a
/// function of the input text alone; an empty input stays empty.
#[verifier::external_body]
pub fn url_encode(s: &str) -> (r: String)
    ensures
        r@ == urlenc_of(s@),
        s@.len() == 0 ==> r@.len() == 0,
{
    urlencoding::encode(s).into_owned()
}

/// The standard base64 encoding of bytes.
pub uninterp spec fn b64_of(b: Seq<u8>) -> Seq<char>;

/// Relies on base64's `STANDARD` engine `encode`: the padded standard
/// alphabet, a function of the input bytes alone.
#[verifier::external_body]
pub fn b64_encode(bytes: &Vec<u8>) -> (r: String)
    ensures
        r@ == b64_of(bytes@),
{
    base64::engine::general_purpose::STANDARD.encode(bytes)
}

/// What decoding a text as standard base64 yields, when it is valid.
pub uninterp spec fn b64_decode_of(s: Seq<char>) -> Option<Seq<u8>>;

/// Relies on base64's `STANDARD` engine `decode`: accepts exactly valid
/// padded standard-alphabet input, a function of the input text alone.
#[verifier::external_body]
pub fn b64_decode(s: &str) -> (r: Option<Vec<u8>>)
    ensures
        r is Some <==> b64_decode_of(s@) is Some,
        r matches Some(v) ==> b64_decode_of(s@) == Some(v@),
{
    match base64::engine::general_purpose::STANDARD.decode(s) {
        Ok(v) => Some(v),
        Err(_) => None,
    }
}

/// Relies on `rand::random_range`: a uniformly random number below the
/// bound; nothing else can be promised of it.
#[verifier::external_body]
pub fn rand_u64_below(bound: u64) -> (r: u64)
    requires
        bound > 0,
    ensures
        r < bound,
{
    rand::random_range(0..bound)
}

/// Relies on `chrono::Local::now` and its formatter: the current local
/// instant as `%Y-%m-%dT%H:%M:%S+08:00`; time-dependent, so nothing is
/// promised of the value.
#[verifier::external_body]
pub fn timestamp_string() -> (r: String)
{
    chrono::Local::now().format("%Y-%m-%dT%H:%M:%S+08:00").to_string()
}

/// Relies on `std::time::SystemTime` and `rand::random`: the current
/// epoch milliseconds with a random fractional tail, printed in decimal;
/// time- and randomness-dependent, so nothing is promised of the value.
#[verifier::external_body]
pub fn entropy_decimal_string() -> (r: String)
{
    let now_ms = std::time::SystemTime::now()
        .duration_since(std::time::UNIX_EPOCH)
        .map(|d| d.as_millis())
        .unwrap_or(0);
    let frac: u32 = rand::random();
    format!("{}.{}", now_ms, frac)
}

// ── The built-in provider's token derivation ────────────────────────────────

/// Browser fingerprint the signing scheme expects.
pub const NCN_UA: &'static str = "Mozilla/5.0 (Windows NT 10.0; Win64; x64) AppleWebKit/537.36 (KHTML, like Gecko) Chrome/117.0.0.0 Safari/537.36";

/// The signed origin.
pub const NCN_DOMAIN: &'static str = "https://bot.n.cn";

/// One step of the rolling hash: shift-and-add mixing reduced to the
/// 28-bit accumulator, with the top seven accumulator bits folded back
/// in.
pub open spec fn spec_hash_e_step(at: u64, c: char) -> u64 {
    let st = (c as u64) % 0x200000;
    let mixed = (((at % 0x10000000) * 64 + st + st * 16384) % 0x10000000) as u64;
    let fold = ((mixed / 0x200000) % 0x80) as u64;
    if fold != 0 {
        mixed ^ fold
    } else {
        mixed
    }
}

/// The rolling hash folded from the last character to position `i`.
pub open spec fn spec_hash_e_from(s: Seq<char>, i: int) -> u64
    decreases s.len() - i,
{
    if i < 0 || i >= s.len() {
        0
    } else {
        spec_hash_e_step(spec_hash_e_from(s, i + 1), s[i])
    }
}

/// The rolling hash of a whole text.
pub open spec fn spec_hash_e(s: Seq<char>) -> u64 {
    spec_hash_e_from(s, 0)
}

/// The rolling fingerprint hash of the signing scheme: folds the
/// characters from last to first through shift-and-mask mixing.
pub fn hash_e(input: &str) -> (r: u64)
    ensures
        r == spec_hash_e(input@),
{
    let chars = chars_of_str(input);
    let n = chars.len();
    let mut at: u64 = 0;
    let mut i: usize = n;
    proof {
        assert(spec_hash_e_from(chars@, n as int) == 0);
    }
    while i > 0
        invariant
            i <= n,
            n == chars@.len(),
            chars@ == input@,
            at == spec_hash_e_from(chars@, i as int),
            at < 0x10000000,
        decreases i,
    {
        i -= 1;
        let st = (chars[i] as u64) % 0x200000;
        let mixed = ((at % 0x10000000) * 64 + st + st * 16384) % 0x10000000;
        let fold = (mixed / 0x200000) % 0x80;
        if fold != 0 {
            at = mixed ^ fold;
        } else {
            at = mixed;
        }
        proof {
            assert(mixed < 0x10000000 && fold < 0x80);
            assert(mixed ^ fold < 0x10000000) by (bit_vector)
                requires
                    mixed < 0x10000000u64,
                    fold < 0x80u64,
            ;
            assert(at == spec_hash_e_step(spec_hash_e_from(chars@, i + 1), chars@[i as int]));
        }
    }
    at
}

/// The authentication headers of the built-in provider, derived from a
/// timestamp and an access token: the `zm-token` signature is the MD5 of
/// device, timestamp, version, token and the MD5 of the user agent, in
/// that order.
pub fn build_auth_headers(timestamp: &str, access_token: &str) -> (r: Vec<(String, String)>)
    ensures
        r@.len() == 7,
        r@[0].0@ == "device-platform"@ && r@[0].1@ == "Web"@,
        r@[1].0@ == "timestamp"@ && r@[1].1@ == timestamp@,
        r@[2].0@ == "access-token"@ && r@[2].1@ == access_token@,
        r@[3].0@ == "zm-token"@ && r@[3].1@ == md5_hex_of(
            "Web"@ + timestamp@ + "1.2"@ + access_token@ + md5_hex_of(NCN_UA@),
        ),
        r@[4].0@ == "zm-ver"@ && r@[4].1@ == "1.2"@,
        r@[5].0@ == "zm-ua"@ && r@[5].1@ == md5_hex_of(NCN_UA@),
        r@[6].0@ == "User-Agent"@ && r@[6].1@ == NCN_UA@,
{
    let zm_ua = md5_hex(NCN_UA);
    let mut signed: Vec<char> = Vec::new();
    push_str_chars(&mut signed, "Web");
    push_str_chars(&mut signed, timestamp);
    push_str_chars(&mut signed, "1.2");
    push_str_chars(&mut signed, access_token);
    push_str_chars(&mut signed, zm_ua.as_str());
    let signed_str = string_from_chars(&signed);
    proof {
        assert(signed_str@ =~= "Web"@ + timestamp@ + "1.2"@ + access_token@ + md5_hex_of(
            NCN_UA@,
        ));
    }
    let zm_token = md5_hex(signed_str.as_str());
    let mut out: Vec<(String, String)> = Vec::new();
    out.push((String::from_str("device-platform"), String::from_str("Web")));
    out.push((String::from_str("timestamp"), String::from_str(timestamp)));
    out.push((String::from_str("access-token"), String::from_str(access_token)));
    out.push((String::from_str("zm-token"), zm_token));
    out.push((String::from_str("zm-ver"), String::from_str("1.2")));
    out.push((String::from_str("zm-ua"), zm_ua));
    out.push((String::from_str("User-Agent"), String::from_str(NCN_UA)));
    out
}

/// A pseudo-random session token: a random number mixed with the
/// fingerprint hash of the environment string, widened by a fixed factor.
/// Its value is random; nothing further can be said of it.
pub fn generate_unique_hash() -> (r: u64) {
    let mut nt: Vec<char> = Vec::new();
    push_str_chars(&mut nt, "chrome");
    push_str_chars(&mut nt, "1");
    push_str_chars(&mut nt, "zh-CN");
    push_str_chars(&mut nt, "Win32");
    push_str_chars(&mut nt, NCN_UA);
    push_str_chars(&mut nt, "1920x1080");
    push_str_chars(&mut nt, "24");
    push_str_chars(&mut nt, "https://bot.n.cn/chat");
    let at = nt.len();
    push_dec((1usize ^ at) as u64, &mut nt);
    let nt_str = string_from_chars(&nt);
    let random_val = rand_u64_below(2147483647);
    let mixed = random_val ^ hash_e(nt_str.as_str());
    #[verifier::truncate]
    let widened = (((mixed as u128) * 2147483647u128) as u64);
    widened
}

/// Replace every `.` with `e`.
pub open spec fn spec_dot_to_e(s: Seq<char>) -> Seq<char> {
    s.map_values(
        |c: char|
            if c == '.' {
                'e'
            } else {
                c
            },
    )
}

/// A pseudo-random message id: origin hash, session hash and a
/// timestamp-entropy string, `.` written as `e`, cut to 32 characters.
/// Randomness-dependent; what holds of every outcome: at most 32
/// characters, none of them a dot.
pub fn generate_mid() -> (r: String)
    ensures
        r@.len() <= 32,
        forall|i: int| 0 <= i < r@.len() ==> r@[i] != '.',
{
    let domain_hash = hash_e(NCN_DOMAIN);
    let unique_hash = generate_unique_hash();
    let entropy = entropy_decimal_string();
    let mut rt: Vec<char> = Vec::new();
    push_dec(domain_hash, &mut rt);
    push_dec(unique_hash, &mut rt);
    push_str_chars(&mut rt, entropy.as_str());
    let mut out: Vec<char> = Vec::new();
    let mut i: usize = 0;
    while i < rt.len() && i < 32
        invariant
            i <= rt@.len(),
            i <= 32,
            out@.len() == i,
            forall|k: int| 0 <= k < out@.len() ==> (#[trigger] out@[k]) != '.',
        decreases rt.len() - i,
    {
        let c = rt[i];
        if c == '.' {
            out.push('e');
        } else {
            out.push(c);
        }
        i += 1;
    }
    string_from_chars(&out)
}

/// The text as sent to the built-in provider: cut to 5000 characters.
pub open spec fn spec_truncate_5000(s: Seq<char>) -> Seq<char> {
    if s.len() > 5000 {
        s.take(5000)
    } else {
        s
    }
}

/// Cut a text to the provider's 5000-character limit.
pub fn truncate_tts_text(text: &str) -> (r: String)
    ensures
        r@ == spec_truncate_5000(text@),
{
    let chars = chars_of_str(text);
    if chars.len() > 5000 {
        let mut out: Vec<char> = Vec::new();
        crate::chars::push_range(&mut out, &chars, 0, 5000);
        proof {
            assert(out@ =~= text@.take(5000));
        }
        string_from_chars(&out)
    } else {
        String::from_str(text)
    }
}

/// The built-in provider's synthesis URL for a voice.
pub open spec fn spec_ncn_tts_url(voice: Seq<char>) -> Seq<char> {
    "https://bot.n.cn/api/tts/v1?roleid="@ + voice
}

/// Build the synthesis URL.
pub fn ncn_tts_url(voice: &str) -> (r: String)
    ensures
        r@ == spec_ncn_tts_url(voice@),
{
    let mut out: Vec<char> = Vec::new();
    push_str_chars(&mut out, "https://bot.n.cn/api/tts/v1?roleid=");
    push_str_chars(&mut out, voice);
    string_from_chars(&out)
}

/// The form body of a synthesis call: the percent-encoded text and the
/// fixed streaming mp3 options.
pub open spec fn spec_ncn_tts_body(text: Seq<char>) -> Seq<char> {
    "&text="@ + urlenc_of(text) + "&audio_type=mp3&format=stream"@
}

/// Build the synthesis form body.
pub fn ncn_tts_body(text: &str) -> (r: String)
    ensures
        r@ == spec_ncn_tts_body(text@),
{
    let encoded = url_encode(text);
    let mut out: Vec<char> = Vec::new();
    push_str_chars(&mut out, "&text=");
    push_str_chars(&mut out, encoded.as_str());
    push_str_chars(&mut out, "&audio_type=mp3&format=stream");
    proof {
        assert(out@ =~= spec_ncn_tts_body(text@));
    }
    string_from_chars(&out)
}

/// Pick the voice of a synthesis call: the request's voice when given,
/// else the provider's default; an empty choice is a configuration error.
pub fn choose_ncn_voice(req_voice: &Option<String>, default_voice: &String) -> (r: Result<
    String,
    DubError,
>)
    ensures
        match r {
            Ok(v) => v@.len() > 0 && (match req_voice {
                Some(rv) => v@ == rv@,
                None => v@ == default_voice@,
            }),
            Err(e) => e is ConfigMissing && (match req_voice {
                Some(rv) => rv@.len() == 0,
                None => default_voice@.len() == 0,
            }),
        },
{
    let chosen = match req_voice {
        Some(v) => v.clone(),
        None => default_voice.clone(),
    };
    if chosen.as_str().unicode_len() == 0 {
        Err(DubError::ConfigMissing { detail: String::from_str("no voice id configured") })
    } else {
        Ok(chosen)
    }
}

// ── Gradio reply handling ───────────────────────────────────────────────────

/// The audio field of a Gradio reply, reduced to plain shapes: a string
/// (a data URL or bare base64), the `data` member of an object, or an
/// unsupported shape.
#[derive(Debug)]
pub enum GradioAudioValue {
    Text(String),
    DataObj(String),
    Unsupported,
}

/// The reference clip as a data URL: its media type from the file
/// extension, its bytes in base64.
pub open spec fn spec_data_url(ext: Seq<char>, bytes: Seq<u8>) -> Seq<char> {
    "data:audio/"@ + ext + ";base64,"@ + b64_of(bytes)
}

/// Build the reference data URL.
pub fn gradio_data_url(ext: &str, bytes: &Vec<u8>) -> (r: String)
    ensures
        r@ == spec_data_url(ext@, bytes@),
{
    let b64 = b64_encode(bytes);
    let mut out: Vec<char> = Vec::new();
    push_str_chars(&mut out, "data:audio/");
    push_str_chars(&mut out, ext);
    push_str_chars(&mut out, ";base64,");
    push_str_chars(&mut out, b64.as_str());
    proof {
        assert(out@ =~= spec_data_url(ext@, bytes@));
    }
    string_from_chars(&out)
}

/// The Gradio predict endpoint under a base endpoint (trailing slashes
/// trimmed).
pub open spec fn spec_gradio_predict_url(endpoint: Seq<char>) -> Seq<char> {
    crate::translate::spec_trim_trailing_slash(endpoint) + "/run/predict"@
}

/// Build the predict URL.
pub fn gradio_predict_url(endpoint: &str) -> (r: String)
    ensures
        r@ == spec_gradio_predict_url(endpoint@),
{
    let mut s = crate::translate::trim_trailing_slashes(endpoint);
    s.append("/run/predict");
    s
}

/// The base64 payload of a textual Gradio audio value: for a data URL,
/// everything after the first comma (the value itself when it has no
/// comma); otherwise the text as it stands.
pub open spec fn spec_gradio_b64_text(s: Seq<char>) -> Seq<char> {
    if spec_starts_with(s, "data:"@) {
        if (exists|i: int| 0 <= i < s.len() && s[i] == ',') {
            s.subrange(spec_first_comma(s) + 1, s.len() as int)
        } else {
            s
        }
    } else {
        s
    }
}

/// First comma position (unspecified without one).
pub open spec fn spec_first_comma(s: Seq<char>) -> int {
    choose|i: int| 0 <= i < s.len() && s[i] == ',' && (forall|k: int| 0 <= k < i ==> s[k] != ',')
}

/// `s` starts with `prefix`.
pub open spec fn spec_starts_with(s: Seq<char>, prefix: Seq<char>) -> bool {
    s.len() >= prefix.len() && s.take(prefix.len() as int) == prefix
}

fn starts_with_chars(v: &Vec<char>, prefix: &str) -> (r: bool)
    ensures
        r == spec_starts_with(v@, prefix@),
{
    let n = prefix.unicode_len();
    if v.len() < n {
        return false;
    }
    let mut i: usize = 0;
    while i < n
        invariant
            i <= n,
            n == prefix@.len(),
            n <= v@.len(),
            v@.take(i as int) == prefix@.take(i as int),
        decreases n - i,
    {
        if v[i] != prefix.get_char(i) {
            assert(v@[i as int] != prefix@[i as int]);
            return false;
        }
        assert(v@.take(i + 1) =~= v@.take(i as int).push(v@[i as int]));
        assert(prefix@.take(i + 1) =~= prefix@.take(i as int).push(prefix@[i as int]));
        i += 1;
    }
    assert(prefix@.take(n as int) =~= prefix@);
    true
}

/// Decode the audio bytes out of a Gradio reply value: a textual value is
/// base64 (stripped of its data-URL head when present); an object's
/// `data` member is bare base64; anything else — or invalid base64 — is a
/// validation failure.
pub fn decode_gradio_audio(value: &GradioAudioValue) -> (r: Result<Vec<u8>, DubError>)
    ensures
        match value {
            GradioAudioValue::Text(s) => (match r {
                Ok(bytes) => b64_decode_of(spec_gradio_b64_text(s@)) == Some(bytes@),
                Err(e) => e is Validation && b64_decode_of(spec_gradio_b64_text(s@)) is None,
            }),
            GradioAudioValue::DataObj(d) => (match r {
                Ok(bytes) => b64_decode_of(d@) == Some(bytes@),
                Err(e) => e is Validation && b64_decode_of(d@) is None,
            }),
            GradioAudioValue::Unsupported => (r matches Err(e) && e is Validation),
        },
{
    match value {
        GradioAudioValue::Text(s) => {
            let chars = chars_of_str(s.as_str());
            let payload: String = if starts_with_chars(&chars, "data:") {
                match find_comma(&chars) {
                    Some(idx) => {
                        let n = chars.len();
                        assert(idx < n);
                        let mut tail: Vec<char> = Vec::new();
                        crate::chars::push_range(&mut tail, &chars, idx + 1, n);
                        proof {
                            assert(tail@ =~= spec_gradio_b64_text(s@));
                        }
                        string_from_chars(&tail)
                    },
                    None => s.clone(),
                }
            } else {
                s.clone()
            };
            match b64_decode(payload.as_str()) {
                Some(bytes) => Ok(bytes),
                None => Err(
                    DubError::Validation {
                        detail: String::from_str("reply audio is not valid base64"),
                    },
                ),
            }
        },
        GradioAudioValue::DataObj(d) => {
            match b64_decode(d.as_str()) {
                Some(bytes) => Ok(bytes),
                None => Err(
                    DubError::Validation {
                        detail: String::from_str("reply audio is not valid base64"),
                    },
                ),
            }
        },
        GradioAudioValue::Unsupported => Err(
            DubError::Validation { detail: String::from_str("unsupported reply shape") },
        ),
    }
}

fn find_comma(v: &Vec<char>) -> (r: Option<usize>)
    ensures
        match r {
            Some(i) => i < v@.len() && v@[i as int] == ',' && (forall|k: int|
                0 <= k < i ==> v@[k] != ',') && spec_first_comma(v@) == i as int && (exists|j: int|
                0 <= j < v@.len() && v@[j] == ','),
            None => forall|k: int| 0 <= k < v@.len() ==> v@[k] != ',',
        },
{
    match crate::chars::find_char(v, ',') {
        Some(i) => {
            proof {
                assert(spec_first_comma(v@) == i as int) by {
                    let w = spec_first_comma(v@);
                    assert(0 <= w < v@.len() && v@[w] == ',' && (forall|k: int|
                        0 <= k < w ==> v@[k] != ','));
                    if w < i {
                        assert(v@[w] != ',');
                    }
                    if i < w {
                        assert(v@[i as int] != ',');
                    }
                }
            }
            Some(i)
        },
        None => None,
    }
}

/// `d` is the extension dot of a path: a `.` in the last component, not
/// the final character, with nothing but the extension after it.
pub open spec fn spec_is_ext_dot(s: Seq<char>, d: int) -> bool {
    &&& 0 <= d < s.len() - 1
    &&& s[d] == '.'
    &&& forall|k: int| d < k < s.len() ==> s[k] != '.' && s[k] != '/'
}

/// The path carries a file extension.
pub open spec fn spec_has_file_ext(s: Seq<char>) -> bool {
    exists|d: int| spec_is_ext_dot(s, d)
}

/// The extension dot's position (unspecified without one).
pub open spec fn spec_ext_dot(s: Seq<char>) -> int {
    choose|d: int| spec_is_ext_dot(s, d)
}

proof fn lemma_ext_dot_unique(s: Seq<char>, d: int)
    requires
        spec_is_ext_dot(s, d),
    ensures
        spec_ext_dot(s) == d,
{
    let w = spec_ext_dot(s);
    assert(spec_is_ext_dot(s, w));
    if w < d {
        assert(s[d] != '.');
    }
    if d < w {
        assert(s[w] != '.');
    }
}

/// The file extension of a path — the part after the last `.` of its
/// last component — or `wav` when it has none.
pub fn file_ext_or_wav(path: &str) -> (r: String)
    ensures
        spec_has_file_ext(path@) ==> r@ == path@.subrange(
            spec_ext_dot(path@) + 1,
            path@.len() as int,
        ),
        !spec_has_file_ext(path@) ==> r@ == "wav"@,
{
    let chars = chars_of_str(path);
    let slash = rfind_char(&chars, '/');
    let dot = rfind_char(&chars, '.');
    let n = chars.len();
    match (dot, slash) {
        (Some(d), Some(sl)) => {
            assert(d < n);
            if d > sl && d + 1 < n {
                proof {
                    assert(spec_is_ext_dot(path@, d as int)) by {
                        assert forall|k: int|
                            d < k < path@.len() implies path@[k] != '.' && path@[k] != '/' by {
                            assert(path@[k] != '.');
                            assert(path@[k] != '/');
                        }
                    }
                    lemma_ext_dot_unique(path@, d as int);
                }
                let mut out: Vec<char> = Vec::new();
                crate::chars::push_range(&mut out, &chars, d + 1, n);
                string_from_chars(&out)
            } else {
                proof {
                    assert(!spec_has_file_ext(path@)) by {
                        if spec_has_file_ext(path@) {
                            let w = spec_ext_dot(path@);
                            assert(spec_is_ext_dot(path@, w));
                            if w < d {
                                assert(path@[d as int] != '.');
                            }
                            if d < w {
                                assert(path@[w] != '.');
                            }
                            assert(w == d);
                            if d <= sl {
                                assert(path@[sl as int] != '/');
                            }
                        }
                    }
                }
                String::from_str("wav")
            }
        },
        (Some(d), None) => {
            assert(d < n);
            if d + 1 < n {
                proof {
                    assert(spec_is_ext_dot(path@, d as int)) by {
                        assert forall|k: int|
                            d < k < path@.len() implies path@[k] != '.' && path@[k] != '/' by {
                            assert(path@[k] != '.');
                            assert(path@[k] != '/');
                        }
                    }
                    lemma_ext_dot_unique(path@, d as int);
                }
                let mut out: Vec<char> = Vec::new();
                crate::chars::push_range(&mut out, &chars, d + 1, n);
                string_from_chars(&out)
            } else {
                proof {
                    assert(!spec_has_file_ext(path@)) by {
                        if spec_has_file_ext(path@) {
                            let w = spec_ext_dot(path@);
                            assert(spec_is_ext_dot(path@, w));
                            if w < d {
                                assert(path@[d as int] != '.');
                            }
                        }
                    }
                }
                String::from_str("wav")
            }
        },
        _ => {
            proof {
                assert(!spec_has_file_ext(path@)) by {
                    if spec_has_file_ext(path@) {
                        let w = spec_ext_dot(path@);
                        assert(spec_is_ext_dot(path@, w));
                        assert(path@[w] == '.');
                    }
                }
            }
            String::from_str("wav")
        },
    }
}

// ── REST provider request building ──────────────────────────────────────────

/// The reply shapes a REST provider can be configured with.
#[derive(Debug, Clone, Copy, PartialEq, Eq)]
pub enum RestResponseKind {
    Binary,
    JsonBase64,
    FileUrl,
    Unsupported,
}

/// Classify a configured response type.
pub fn rest_response_kind(response_type: &str) -> (r: RestResponseKind)
    ensures
        response_type@ == "binary"@ ==> r is Binary,
        response_type@ == "json_base64"@ ==> r is JsonBase64,
        response_type@ == "file_url"@ ==> r is FileUrl,
        (response_type@ != "binary"@ && response_type@ != "json_base64"@ && response_type@
            != "file_url"@) ==> r is Unsupported,
{
    proof {
        reveal_strlit("binary");
        reveal_strlit("json_base64");
        reveal_strlit("file_url");
        assert("binary"@.len() == 6 && "json_base64"@.len() == 11 && "file_url"@.len() == 8);
    }
    if crate::store::str_eq_opt(response_type, "binary") {
        RestResponseKind::Binary
    } else if crate::store::str_eq_opt(response_type, "json_base64") {
        RestResponseKind::JsonBase64
    } else if crate::store::str_eq_opt(response_type, "file_url") {
        RestResponseKind::FileUrl
    } else {
        RestResponseKind::Unsupported
    }
}

/// The voice a REST call carries: the configured id when set, else the
/// request's.
pub open spec fn spec_rest_voice(configured: Option<String>, requested: Option<String>) -> Option<
    Seq<char>,
> {
    match configured {
        Some(c) => Some(c@),
        None => match requested {
            Some(q) => Some(q@),
            None => None,
        },
    }
}

/// The key-value pairs of a REST synthesis body.
pub open spec fn spec_rest_body_pairs(
    p: HttpRestProvider,
    text: Seq<char>,
    req_voice: Option<String>,
    ref_bytes: Option<Seq<u8>>,
) -> Seq<(Seq<char>, Seq<char>)> {
    let base = seq![(p.text_key@, text)];
    let with_voice = match (p.voice_key, spec_rest_voice(p.voice_id, req_voice)) {
        (Some(vk), Some(v)) => base.push((vk@, v)),
        _ => base,
    };
    match (p.reference_audio_key, ref_bytes) {
        (Some(rak), Some(b)) => with_voice.push((rak@, b64_of(b))),
        _ => with_voice,
    }
}

/// The view of optional bytes.
pub open spec fn spec_opt_bytes_view(o: Option<Vec<u8>>) -> Option<Seq<u8>> {
    match o {
        Some(v) => Some(v@),
        None => None,
    }
}

/// The JSON body of a REST synthesis call: the text under the configured
/// key; the voice under its key when both are configured; the reference
/// clip, base64-encoded, under its key when configured and supplied.
pub fn build_rest_body(
    p: &HttpRestProvider,
    text: &String,
    req_voice: &Option<String>,
    reference_bytes: &Option<Vec<u8>>,
) -> (r: String)
    ensures
        r@ == spec_json_object(spec_rest_body_pairs(
            *p,
            text@,
            *req_voice,
            spec_opt_bytes_view(*reference_bytes),
        )),
{
    let mut pairs: Vec<(String, String)> = Vec::new();
    pairs.push((p.text_key.clone(), text.clone()));
    match (&p.voice_key, pick_voice(&p.voice_id, req_voice)) {
        (Some(vk), Some(vid)) => {
            pairs.push((vk.clone(), vid));
        },
        _ => {},
    }
    match (&p.reference_audio_key, reference_bytes) {
        (Some(rak), Some(bytes)) => {
            let b64 = b64_encode(bytes);
            pairs.push((rak.clone(), b64));
        },
        _ => {},
    }
    proof {
        assert(spec_pairs_view(pairs@) =~= spec_rest_body_pairs(
            *p,
            text@,
            *req_voice,
            spec_opt_bytes_view(*reference_bytes),
        ));
    }
    encode_json_object(&pairs)
}

fn pick_voice(configured: &Option<String>, requested: &Option<String>) -> (r: Option<String>)
    ensures
        match (configured, requested) {
            (Some(c), _) => (r matches Some(v) && v@ == c@),
            (None, Some(q)) => (r matches Some(v) && v@ == q@),
            (None, None) => r is None,
        },
{
    match configured {
        Some(c) => Some(c.clone()),
        None => match requested {
            Some(q) => Some(q.clone()),
            None => None,
        },
    }
}

} // verus!
