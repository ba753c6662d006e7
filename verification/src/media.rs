//! Media-tool command construction and the paths of a run's artifacts.
//! The tool itself runs outside; what it must be asked to do is built and
//! specified here.

use vstd::prelude::*;
use vstd::string::*;
use crate::chars::{push_str_chars, spec_sanitize_char, string_from_chars};
use crate::num::{push_dec, push_dec_pad, spec_dec, spec_dec_pad};
use crate::subtitle::SubtitleItem;

verus! {

/// What media separation produces: the vocal track and the silent video.
#[derive(Debug, Clone, PartialEq, Eq)]
pub struct MediaSeparationResult {
    pub vocal_audio_path: String,
    pub silent_video_path: String,
}

/// The two directories of a transcription run.
#[derive(Debug, Clone, PartialEq, Eq)]
pub struct ProjectDirs {
    pub project_dir: String,
    pub cache_dir: String,
}

/// Relies on `std::time::SystemTime`: the current epoch milliseconds;
/// time-dependent, so nothing is promised of the value.
#[verifier::external_body]
pub fn now_unix_ms() -> (r: u64)
{
    std::time::SystemTime::now()
        .duration_since(std::time::UNIX_EPOCH)
        .map(|d| d.as_millis() as u64)
        .unwrap_or(0)
}

/// Relies on `uuid::Uuid::new_v4` and its display form: a random
/// hyphenated UUID of 36 characters; random, so nothing further is
/// promised.
#[verifier::external_body]
pub fn uuid_v4_string() -> (r: String)
    ensures
        r@.len() == 36,
{
    uuid::Uuid::new_v4().to_string()
}

/// Milliseconds as seconds with three decimals, as the media tool wants
/// durations.
pub open spec fn spec_secs3(ms: nat) -> Seq<char> {
    spec_dec(ms / 1000) + "."@ + spec_dec_pad(ms % 1000, 3)
}

/// Format milliseconds as `S.mmm` seconds.
pub fn secs3(ms: u64) -> (r: String)
    ensures
        r@ == spec_secs3(ms as nat),
{
    let mut out: Vec<char> = Vec::new();
    push_dec(ms / 1000, &mut out);
    push_str_chars(&mut out, ".");
    push_dec_pad(ms % 1000, 3, &mut out);
    proof {
        assert(out@ =~= spec_secs3(ms as nat));
    }
    string_from_chars(&out)
}

fn push_arg(args: &mut Vec<String>, a: &str)
    ensures
        spec_args_view(final(args)@) == spec_args_view(old(args)@).push(a@),
{
    args.push(String::from_str(a));
    proof {
        assert(spec_args_view(final(args)@) =~= spec_args_view(old(args)@).push(a@));
    }
}

/// The argument views of a command.
pub open spec fn spec_args_view(args: Seq<String>) -> Seq<Seq<char>> {
    args.map_values(|s: String| s@)
}

/// Extract the vocal track: mono 44.1 kHz PCM WAV out of the video.
pub fn separate_audio_args(video_path: &str, vocal_path: &str) -> (r: Vec<String>)
    ensures
        spec_args_view(r@) =~= seq![
            "-y"@, "-i"@, video_path@, "-vn"@, "-acodec"@, "pcm_s16le"@, "-ar"@, "44100"@,
            "-ac"@, "1"@, vocal_path@,
        ],
{
    let mut args: Vec<String> = Vec::new();
    push_arg(&mut args, "-y");
    push_arg(&mut args, "-i");
    push_arg(&mut args, video_path);
    push_arg(&mut args, "-vn");
    push_arg(&mut args, "-acodec");
    push_arg(&mut args, "pcm_s16le");
    push_arg(&mut args, "-ar");
    push_arg(&mut args, "44100");
    push_arg(&mut args, "-ac");
    push_arg(&mut args, "1");
    push_arg(&mut args, vocal_path);
    args
}

/// Copy the video stream without audio.
pub fn separate_video_args(video_path: &str, silent_path: &str) -> (r: Vec<String>)
    ensures
        spec_args_view(r@) =~= seq![
            "-y"@, "-i"@, video_path@, "-an"@, "-vcodec"@, "copy"@, silent_path@,
        ],
{
    let mut args: Vec<String> = Vec::new();
    push_arg(&mut args, "-y");
    push_arg(&mut args, "-i");
    push_arg(&mut args, video_path);
    push_arg(&mut args, "-an");
    push_arg(&mut args, "-vcodec");
    push_arg(&mut args, "copy");
    push_arg(&mut args, silent_path);
    args
}

/// Mux the silent video with the dubbed audio: video copied, audio AAC at
/// 192 kbps, cut to the shorter stream.
pub fn compose_video_args(silent_video: &str, dubbed_audio: &str, output: &str) -> (r: Vec<
    String,
>)
    ensures
        spec_args_view(r@) =~= seq![
            "-y"@, "-i"@, silent_video@, "-i"@, dubbed_audio@, "-map"@, "0:v:0"@, "-map"@,
            "1:a:0"@, "-c:v"@, "copy"@, "-c:a"@, "aac"@, "-b:a"@, "192k"@, "-shortest"@, output@,
        ],
{
    let mut args: Vec<String> = Vec::new();
    push_arg(&mut args, "-y");
    push_arg(&mut args, "-i");
    push_arg(&mut args, silent_video);
    push_arg(&mut args, "-i");
    push_arg(&mut args, dubbed_audio);
    push_arg(&mut args, "-map");
    push_arg(&mut args, "0:v:0");
    push_arg(&mut args, "-map");
    push_arg(&mut args, "1:a:0");
    push_arg(&mut args, "-c:v");
    push_arg(&mut args, "copy");
    push_arg(&mut args, "-c:a");
    push_arg(&mut args, "aac");
    push_arg(&mut args, "-b:a");
    push_arg(&mut args, "192k");
    push_arg(&mut args, "-shortest");
    push_arg(&mut args, output);
    args
}

/// Generate silence of this length: mono 44.1 kHz PCM.
pub fn silence_args(duration_ms: u64, output: &str) -> (r: Vec<String>)
    ensures
        spec_args_view(r@) =~= seq![
            "-y"@, "-f"@, "lavfi"@, "-i"@, ("anullsrc=r=44100:cl=mono:d="@ + spec_secs3(
                duration_ms as nat,
            )), "-acodec"@, "pcm_s16le"@, output@,
        ],
{
    let secs = secs3(duration_ms);
    let mut filter = String::from_str("anullsrc=r=44100:cl=mono:d=");
    filter.append(secs.as_str());
    let mut args: Vec<String> = Vec::new();
    push_arg(&mut args, "-y");
    push_arg(&mut args, "-f");
    push_arg(&mut args, "lavfi");
    push_arg(&mut args, "-i");
    push_arg(&mut args, filter.as_str());
    push_arg(&mut args, "-acodec");
    push_arg(&mut args, "pcm_s16le");
    push_arg(&mut args, output);
    args
}

/// Pad a clip with trailing silence of this length.
pub fn pad_args(audio_path: &str, pad_ms: u64, output: &str) -> (r: Vec<String>)
    ensures
        spec_args_view(r@) =~= seq![
            "-y"@, "-i"@, audio_path@, "-af"@, ("apad=pad_dur="@ + spec_secs3(pad_ms as nat)),
            "-acodec"@, "pcm_s16le"@, output@,
        ],
{
    let secs = secs3(pad_ms);
    let mut filter = String::from_str("apad=pad_dur=");
    filter.append(secs.as_str());
    let mut args: Vec<String> = Vec::new();
    push_arg(&mut args, "-y");
    push_arg(&mut args, "-i");
    push_arg(&mut args, audio_path);
    push_arg(&mut args, "-af");
    push_arg(&mut args, filter.as_str());
    push_arg(&mut args, "-acodec");
    push_arg(&mut args, "pcm_s16le");
    push_arg(&mut args, output);
    args
}

/// Cut a clip to its first `keep_ms` milliseconds.
pub fn trim_args(audio_path: &str, keep_ms: u64, output: &str) -> (r: Vec<String>)
    ensures
        spec_args_view(r@) =~= seq![
            "-y"@, "-i"@, audio_path@, "-t"@, spec_secs3(keep_ms as nat), "-acodec"@,
            "pcm_s16le"@, output@,
        ],
{
    let secs = secs3(keep_ms);
    let mut args: Vec<String> = Vec::new();
    push_arg(&mut args, "-y");
    push_arg(&mut args, "-i");
    push_arg(&mut args, audio_path);
    push_arg(&mut args, "-t");
    push_arg(&mut args, secs.as_str());
    push_arg(&mut args, "-acodec");
    push_arg(&mut args, "pcm_s16le");
    push_arg(&mut args, output);
    args
}

/// Concatenate the listed pieces into one 44.1 kHz PCM WAV.
pub fn concat_args(list_path: &str, output: &str) -> (r: Vec<String>)
    ensures
        spec_args_view(r@) =~= seq![
            "-y"@, "-f"@, "concat"@, "-safe"@, "0"@, "-i"@, list_path@, "-acodec"@,
            "pcm_s16le"@, "-ar"@, "44100"@, output@,
        ],
{
    let mut args: Vec<String> = Vec::new();
    push_arg(&mut args, "-y");
    push_arg(&mut args, "-f");
    push_arg(&mut args, "concat");
    push_arg(&mut args, "-safe");
    push_arg(&mut args, "0");
    push_arg(&mut args, "-i");
    push_arg(&mut args, list_path);
    push_arg(&mut args, "-acodec");
    push_arg(&mut args, "pcm_s16le");
    push_arg(&mut args, "-ar");
    push_arg(&mut args, "44100");
    push_arg(&mut args, output);
    args
}

/// Slice a reference clip `[start, start + dur)` out of the vocal track.
pub fn reference_clip_args(vocal_path: &str, start_ms: u64, dur_ms: u64, output: &str) -> (r:
    Vec<String>)
    ensures
        spec_args_view(r@) =~= seq![
            "-y"@, "-i"@, vocal_path@, "-ss"@, spec_secs3(start_ms as nat), "-t"@, spec_secs3(
                dur_ms as nat,
            ), "-acodec"@, "pcm_s16le"@, output@,
        ],
{
    let ss = secs3(start_ms);
    let t = secs3(dur_ms);
    let mut args: Vec<String> = Vec::new();
    push_arg(&mut args, "-y");
    push_arg(&mut args, "-i");
    push_arg(&mut args, vocal_path);
    push_arg(&mut args, "-ss");
    push_arg(&mut args, ss.as_str());
    push_arg(&mut args, "-t");
    push_arg(&mut args, t.as_str());
    push_arg(&mut args, "-acodec");
    push_arg(&mut args, "pcm_s16le");
    push_arg(&mut args, output);
    args
}

/// Extract audio for speech-to-text: 16 kHz mono MP3.
pub fn extract_audio_args(video_path: &str, output: &str) -> (r: Vec<String>)
    ensures
        spec_args_view(r@) =~= seq![
            "-y"@, "-i"@, video_path@, "-vn"@, "-acodec"@, "libmp3lame"@, "-ar"@, "16000"@,
            "-ac"@, "1"@, "-q:a"@, "4"@, output@,
        ],
{
    let mut args: Vec<String> = Vec::new();
    push_arg(&mut args, "-y");
    push_arg(&mut args, "-i");
    push_arg(&mut args, video_path);
    push_arg(&mut args, "-vn");
    push_arg(&mut args, "-acodec");
    push_arg(&mut args, "libmp3lame");
    push_arg(&mut args, "-ar");
    push_arg(&mut args, "16000");
    push_arg(&mut args, "-ac");
    push_arg(&mut args, "1");
    push_arg(&mut args, "-q:a");
    push_arg(&mut args, "4");
    push_arg(&mut args, output);
    args
}

/// Probe a file's container in JSON mode.
pub fn probe_args(audio_path: &str) -> (r: Vec<String>)
    ensures
        spec_args_view(r@) =~= seq![
            "-v"@, "quiet"@, "-print_format"@, "json"@, "-show_format"@, audio_path@,
        ],
{
    let mut args: Vec<String> = Vec::new();
    push_arg(&mut args, "-v");
    push_arg(&mut args, "quiet");
    push_arg(&mut args, "-print_format");
    push_arg(&mut args, "json");
    push_arg(&mut args, "-show_format");
    push_arg(&mut args, audio_path);
    args
}

/// The duration fallback when probing fails: estimate from the file size
/// at 128 kbps.
pub fn estimate_duration_ms_from_size(file_size_bytes: u64) -> (r: u64)
    ensures
        r == (file_size_bytes as int) * 8000 / 131072,
{
    let wide: u128 = (file_size_bytes as u128) * 8000 / 131072;
    proof {
        assert(wide <= u64::MAX as u128) by (nonlinear_arith)
            requires
                wide == (file_size_bytes as u128) * 8000 / 131072,
                file_size_bytes <= u64::MAX,
        ;
    }
    wide as u64
}

/// One line of a concat list: the file path, backslashes written as
/// forward slashes.
pub open spec fn spec_concat_line(path: Seq<char>) -> Seq<char> {
    "file '"@ + path.map_values(
        |c: char|
            if c == '\\' {
                '/'
            } else {
                c
            },
    ) + "'"@
}

/// Build one concat-list line for a file.
pub fn concat_line(path: &str) -> (r: String)
    ensures
        r@ == spec_concat_line(path@),
{
    let chars = crate::chars::chars_of_str(path);
    let mut out: Vec<char> = Vec::new();
    push_str_chars(&mut out, "file '");
    let mut i: usize = 0;
    while i < chars.len()
        invariant
            i <= chars@.len(),
            chars@ == path@,
            out@ == "file '"@ + path@.take(i as int).map_values(
                |c: char|
                    if c == '\\' {
                        '/'
                    } else {
                        c
                    },
            ),
        decreases chars.len() - i,
    {
        let c = chars[i];
        if c == '\\' {
            out.push('/');
        } else {
            out.push(c);
        }
        proof {
            assert(out@ =~= "file '"@ + path@.take(i + 1).map_values(
                |c: char|
                    if c == '\\' {
                        '/'
                    } else {
                        c
                    },
            ));
        }
        i += 1;
    }
    push_str_chars(&mut out, "'");
    proof {
        assert(path@.take(path@.len() as int) =~= path@);
        assert(out@ =~= spec_concat_line(path@));
    }
    string_from_chars(&out)
}

/// The run directory name: the sanitized stem, an underscore, the epoch
/// milliseconds.
pub open spec fn spec_run_dir_name(stem: Seq<char>, ts: nat) -> Seq<char> {
    stem.map_values(|c: char| spec_sanitize_char(c)) + "_"@ + spec_dec(ts)
}

/// Build the project and cache directories of a run under the data
/// directory.
pub fn build_project_dirs(data_dir: &str, video_stem: &str, ts: u64) -> (r: ProjectDirs)
    ensures
        r.project_dir@ == data_dir@ + "/projects/"@ + spec_run_dir_name(video_stem@, ts as nat),
        r.cache_dir@ == data_dir@ + "/cache/"@ + spec_run_dir_name(video_stem@, ts as nat),
{
    let stem = crate::chars::sanitize_stem(video_stem);
    let mut name: Vec<char> = Vec::new();
    push_str_chars(&mut name, stem.as_str());
    push_str_chars(&mut name, "_");
    push_dec(ts, &mut name);
    let name_str = string_from_chars(&name);
    proof {
        assert(name_str@ =~= spec_run_dir_name(video_stem@, ts as nat));
    }
    let mut p: Vec<char> = Vec::new();
    push_str_chars(&mut p, data_dir);
    push_str_chars(&mut p, "/projects/");
    push_str_chars(&mut p, name_str.as_str());
    let mut c: Vec<char> = Vec::new();
    push_str_chars(&mut c, data_dir);
    push_str_chars(&mut c, "/cache/");
    push_str_chars(&mut c, name_str.as_str());
    proof {
        assert(p@ =~= data_dir@ + "/projects/"@ + spec_run_dir_name(video_stem@, ts as nat));
        assert(c@ =~= data_dir@ + "/cache/"@ + spec_run_dir_name(video_stem@, ts as nat));
    }
    ProjectDirs { project_dir: string_from_chars(&p), cache_dir: string_from_chars(&c) }
}

/// The vocal track of a run.
pub fn vocal_audio_path(work_dir: &str) -> (r: String)
    ensures
        r@ == work_dir@ + "/vocals.wav"@,
{
    let mut p = String::from_str(work_dir);
    p.append("/vocals.wav");
    p
}

/// The stripped video of a run.
pub fn silent_video_path(work_dir: &str) -> (r: String)
    ensures
        r@ == work_dir@ + "/silent_video.mp4"@,
{
    let mut p = String::from_str(work_dir);
    p.append("/silent_video.mp4");
    p
}

/// The assembled dub track of a run.
pub fn dubbed_audio_path(work_dir: &str) -> (r: String)
    ensures
        r@ == work_dir@ + "/dubbed_audio.wav"@,
{
    let mut p = String::from_str(work_dir);
    p.append("/dubbed_audio.wav");
    p
}

/// The concat list of a run.
pub fn concat_list_path(work_dir: &str) -> (r: String)
    ensures
        r@ == work_dir@ + "/concat_list.txt"@,
{
    let mut p = String::from_str(work_dir);
    p.append("/concat_list.txt");
    p
}

/// How reference audio is obtained.
#[derive(Debug, Clone, Copy, PartialEq, Eq)]
pub enum ReferenceMode {
    Clone,
    Custom,
    NoReference,
}

/// Classify a stored reference mode; anything but `clone` and `custom`
/// means no reference.
pub fn parse_reference_mode(mode: &str) -> (r: ReferenceMode)
    ensures
        mode@ == "clone"@ ==> r is Clone,
        mode@ == "custom"@ ==> r is Custom,
        (mode@ != "clone"@ && mode@ != "custom"@) ==> r is NoReference,
{
    proof {
        reveal_strlit("clone");
        reveal_strlit("custom");
        assert("clone"@.len() == 5 && "custom"@.len() == 6);
    }
    if crate::store::str_eq_opt(mode, "clone") {
        ReferenceMode::Clone
    } else if crate::store::str_eq_opt(mode, "custom") {
        ReferenceMode::Custom
    } else {
        ReferenceMode::NoReference
    }
}

/// One reference slice to cut: the subtitle id, the slice start and
/// length, and the clip's output path.
#[derive(Debug, PartialEq, Eq)]
pub struct ReferenceClip {
    pub subtitle_id: u32,
    pub start_ms: u64,
    pub dur_ms: u64,
    pub output_path: String,
}

/// The clone-mode reference work: one slice per subtitle with a positive
/// time span — subtitles with none are skipped — each cut to
/// `{work_dir}/reference/ref_{id:04}.wav`.
pub fn plan_reference_clips(subtitles: &Vec<SubtitleItem>, work_dir: &str) -> (r: Vec<
    ReferenceClip,
>)
    ensures
        ({
            let kept = subtitles@.filter(|s: SubtitleItem| s.end_ms > s.start_ms);
            &&& r@.len() == kept.len()
            &&& forall|i: int|
                0 <= i < r@.len() ==> (#[trigger] r@[i]).subtitle_id == kept[i].id
                    && r@[i].start_ms == kept[i].start_ms && r@[i].dur_ms == kept[i].end_ms
                    - kept[i].start_ms && r@[i].output_path@ == work_dir@ + "/reference/"@
                    + "ref_"@ + spec_dec_pad(kept[i].id as nat, 4) + ".wav"@
        }),
{
    let ghost pred = |s: SubtitleItem| s.end_ms > s.start_ms;
    let mut ref_dir = String::from_str(work_dir);
    ref_dir.append("/reference");
    let mut out: Vec<ReferenceClip> = Vec::new();
    let mut i: usize = 0;
    proof {
        assert(subtitles@.take(0).filter(pred) =~= Seq::<SubtitleItem>::empty());
        reveal(Seq::filter);
    }
    while i < subtitles.len()
        invariant
            i <= subtitles@.len(),
            ref_dir@ == work_dir@ + "/reference"@,
            pred == (|s: SubtitleItem| s.end_ms > s.start_ms),
            out@.len() == subtitles@.take(i as int).filter(pred).len(),
            forall|k: int|
                0 <= k < out@.len() ==> ({
                    let kept = subtitles@.take(i as int).filter(pred);
                    (#[trigger] out@[k]).subtitle_id == kept[k].id && out@[k].start_ms
                        == kept[k].start_ms && out@[k].dur_ms == kept[k].end_ms
                        - kept[k].start_ms && out@[k].output_path@ == work_dir@ + "/reference/"@
                        + "ref_"@ + spec_dec_pad(kept[k].id as nat, 4) + ".wav"@
                }),
        decreases subtitles.len() - i,
    {
        proof {
            subtitles@.take(i as int).lemma_filter_push(subtitles@[i as int], pred);
            assert(subtitles@.take(i + 1) =~= subtitles@.take(i as int).push(
                subtitles@[i as int],
            ));
        }
        let sub = &subtitles[i];
        if sub.end_ms > sub.start_ms {
            let path = indexed_path(ref_dir.as_str(), "ref_", sub.id as u64, ".wav");
            proof {
                reveal_strlit("/reference");
                reveal_strlit("/reference/");
                reveal_strlit("/");
                assert("/reference"@.len() == 10 && "/reference/"@.len() == 11 && "/"@.len() == 1);
                assert("/reference"@ + "/"@ =~= "/reference/"@);
                assert(path@ =~= work_dir@ + "/reference/"@ + "ref_"@ + spec_dec_pad(
                    subtitles@[i as int].id as nat,
                    4,
                ) + ".wav"@);
            }
            out.push(
                ReferenceClip {
                    subtitle_id: sub.id,
                    start_ms: sub.start_ms,
                    dur_ms: sub.end_ms - sub.start_ms,
                    output_path: path,
                },
            );
        }
        i += 1;
    }
    proof {
        assert(subtitles@.take(subtitles@.len() as int) =~= subtitles@);
    }
    out
}

/// A work-directory artifact path: the directory, a slash, a name with a
/// zero-padded index, an extension.
pub fn indexed_path(dir: &str, prefix: &str, index: u64, ext: &str) -> (r: String)
    ensures
        r@ == dir@ + "/"@ + prefix@ + spec_dec_pad(index as nat, 4) + ext@,
{
    let mut out: Vec<char> = Vec::new();
    push_str_chars(&mut out, dir);
    push_str_chars(&mut out, "/");
    push_str_chars(&mut out, prefix);
    push_dec_pad(index, 4, &mut out);
    push_str_chars(&mut out, ext);
    proof {
        assert(out@ =~= dir@ + "/"@ + prefix@ + spec_dec_pad(index as nat, 4) + ext@);
    }
    string_from_chars(&out)
}

} // verus!
