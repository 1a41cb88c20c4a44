//! Downloading a YouTube video as MP3 (or MP4): checking the URL, planning the
//! yt-dlp run, and turning its outcome into a result. The run itself (checking
//! that the binaries exist, starting yt-dlp) is the caller's.
use vstd::prelude::*;
use vstd::utf8::{decode_utf8, valid_utf8};
use crate::binaries::{get_ffmpeg_path, get_yt_dlp_path};
use crate::error::DownloadError;
use crate::output::{audio_output, parse_audio_output, parse_video_output, video_output};
use crate::paths::{file_name, is_plain_name, join, join_path, lemma_file_name_of_join};
use crate::text::{
    chars_eq, chars_of, concat_str, find_exec, find_from, lemma_find_from, occurs_at, slice_of,
    str_eq,
};

verus! {

// ---------------------------------------------------------------------------
// URLs
// ---------------------------------------------------------------------------

/// The host part of a URL starts after the first `://`, or at the start of the text
/// when there is none.
pub open spec fn host_start(url: Seq<char>) -> int {
    match find_from(url, "://"@, 0) {
        Some(i) => i + "://"@.len(),
        None => 0,
    }
}

/// `c` ends the host part of a URL: `/`, `?`, `#` or `:` (a port).
pub open spec fn ends_host(c: char) -> bool {
    c == '/' || c == '?' || c == '#' || c == ':'
}

/// The index of the first character at or after `from` that ends the host, or the
/// length of `url`.
pub open spec fn host_end(url: Seq<char>, from: int) -> int
    decreases url.len() - from,
{
    if from < 0 || from >= url.len() {
        url.len() as int
    } else if ends_host(url[from]) {
        from
    } else {
        host_end(url, from + 1)
    }
}

/// The host of a URL: the text after `://` (or from the start) up to the next `/`,
/// `?`, `#` or `:`.
pub open spec fn url_host(url: Seq<char>) -> Seq<char> {
    url.subrange(host_start(url), host_end(url, host_start(url)))
}

/// `s` ends with `suffix`.
pub open spec fn ends_with(s: Seq<char>, suffix: Seq<char>) -> bool {
    suffix.len() <= s.len() && s.skip(s.len() - suffix.len()) == suffix
}

/// A YouTube host: `youtube.com`, a name ending in `.youtube.com`, or `youtu.be`.
pub open spec fn is_youtube_host(host: Seq<char>) -> bool {
    host == "youtube.com"@ || ends_with(host, ".youtube.com"@) || host == "youtu.be"@
}

/// `url` is a YouTube URL: its host is a YouTube host.
pub open spec fn is_youtube(url: Seq<char>) -> bool {
    is_youtube_host(url_host(url))
}

proof fn lemma_host_end_at(url: Seq<char>, from: int, k: int)
    requires
        0 <= from <= k <= url.len(),
        forall|j: int| from <= j < k ==> !ends_host(url[j]),
        k == url.len() || ends_host(url[k]),
    ensures
        host_end(url, from) == k,
    decreases k - from,
{
    if from < k {
        lemma_host_end_at(url, from + 1, k);
    }
}

/// The host of the URL `url`.
pub fn url_host_chars(url: &Vec<char>) -> (r: Vec<char>)
    ensures
        r@ == url_host(url@),
{
    let sep = chars_of("://");
    let n = url.len();
    let start = match find_exec(url, &sep, 0) {
        Some(i) => {
            proof {
                lemma_find_from(url@, sep@, 0);
                assert(occurs_at(url@, sep@, i as int));
            }
            assert(i + sep.len() <= n);
            i + sep.len()
        },
        None => 0,
    };
    let mut e: usize = start;
    while e < n && !(url[e] == '/' || url[e] == '?' || url[e] == '#' || url[e] == ':')
        invariant
            n == url.len(),
            start <= e <= n,
            forall|j: int| start <= j < e ==> !ends_host(url@[j]),
        decreases n - e,
    {
        e = e + 1;
    }
    proof {
        lemma_host_end_at(url@, start as int, e as int);
    }
    slice_of(url, start, e)
}

/// Whether `s` ends with `suffix`.
pub fn ends_with_chars(s: &Vec<char>, suffix: &Vec<char>) -> (r: bool)
    ensures
        r == ends_with(s@, suffix@),
{
    if suffix.len() > s.len() {
        return false;
    }
    let tail = slice_of(s, s.len() - suffix.len(), s.len());
    assert(tail@ =~= s@.skip(s@.len() - suffix@.len()));
    chars_eq(&tail, suffix)
}

/// Check if a URL is a valid YouTube URL: its host is `youtube.com`, ends in
/// `.youtube.com`, or is `youtu.be`.
pub fn is_youtube_url(url: &str) -> (r: bool)
    ensures
        r == is_youtube(url@),
{
    let u = chars_of(url);
    let host = url_host_chars(&u);
    chars_eq(&host, &chars_of("youtube.com")) || ends_with_chars(&host, &chars_of(".youtube.com"))
        || chars_eq(&host, &chars_of("youtu.be"))
}

// ---------------------------------------------------------------------------
// Plans
// ---------------------------------------------------------------------------

/// Result of a successful download.
#[derive(Debug, Clone)]
pub struct DownloadResult {
    /// The saved file.
    pub path: String,
    /// Its title: the file's name without extension.
    pub title: String,
}

/// What to fetch.
#[derive(Debug, Clone, Copy, PartialEq, Eq)]
pub enum MediaKind {
    /// The audio track, converted to MP3.
    Audio,
    /// The video with its audio, merged into MP4.
    Video,
}

/// Everything needed to run yt-dlp for one download.
#[derive(Debug, Clone)]
pub struct DownloadPlan {
    /// What is fetched.
    pub kind: MediaKind,
    /// The directory the file is saved in.
    pub output_dir: String,
    /// The yt-dlp binary, the program to run.
    pub yt_dlp_path: String,
    /// The ffmpeg binary yt-dlp is pointed to.
    pub ffmpeg_path: String,
    /// yt-dlp's output template.
    pub output_template: String,
    /// The arguments for yt-dlp.
    pub args: Vec<String>,
}

/// The texts of a sequence of strings.
pub open spec fn views(v: Seq<String>) -> Seq<Seq<char>> {
    v.map_values(|s: String| s@)
}

/// yt-dlp's output template in `output_dir`: `<output_dir>/%(title)s.%(ext)s`.
pub open spec fn output_template(output_dir: Seq<char>) -> Seq<char> {
    join(output_dir, "%(title)s.%(ext)s"@)
}

/// yt-dlp's arguments for an audio download: extract the audio as 320K MP3, use the
/// given ffmpeg and output template, no playlist, no progress.
pub open spec fn audio_args(ffmpeg: Seq<char>, template: Seq<char>, url: Seq<char>) -> Seq<
    Seq<char>,
> {
    seq![
        "-x"@,
        "--audio-format"@,
        "mp3"@,
        "--audio-quality"@,
        "320K"@,
        "--ffmpeg-location"@,
        ffmpeg,
        "-o"@,
        template,
        "--no-playlist"@,
        "--no-progress"@,
        url,
    ]
}

/// yt-dlp's arguments for a video download: best MP4 video with M4A audio, merged
/// into MP4, with the given ffmpeg and output template, no playlist, no progress.
pub open spec fn video_args(ffmpeg: Seq<char>, template: Seq<char>, url: Seq<char>) -> Seq<
    Seq<char>,
> {
    seq![
        "-f"@,
        "bestvideo[ext=mp4]+bestaudio[ext=m4a]/best[ext=mp4]/best"@,
        "--merge-output-format"@,
        "mp4"@,
        "--ffmpeg-location"@,
        ffmpeg,
        "-o"@,
        template,
        "--no-playlist"@,
        "--no-progress"@,
        url,
    ]
}

/// yt-dlp's arguments for `kind`.
pub open spec fn args_for(kind: MediaKind, ffmpeg: Seq<char>, template: Seq<char>, url: Seq<char>) -> Seq<Seq<char>> {
    match kind {
        MediaKind::Audio => audio_args(ffmpeg, template, url),
        MediaKind::Video => video_args(ffmpeg, template, url),
    }
}

/// The message of the error for a URL that is not a YouTube URL.
pub open spec fn invalid_url_message(url: Seq<char>) -> Seq<char> {
    "Not a valid YouTube URL: "@ + url
}

fn push_str(v: &mut Vec<String>, s: &str)
    ensures
        views(final(v)@) == views(old(v)@).push(s@),
{
    let ghost before = v@;
    v.push(s.to_owned());
    assert(views(v@) =~= views(before).push(s@));
}

fn build_args(kind: MediaKind, ffmpeg: &str, template: &str, url: &str) -> (r: Vec<String>)
    ensures
        views(r@) == args_for(kind, ffmpeg@, template@, url@),
{
    let mut v: Vec<String> = Vec::new();
    match kind {
        MediaKind::Audio => {
            push_str(&mut v, "-x");
            push_str(&mut v, "--audio-format");
            push_str(&mut v, "mp3");
            push_str(&mut v, "--audio-quality");
            push_str(&mut v, "320K");
        },
        MediaKind::Video => {
            push_str(&mut v, "-f");
            push_str(&mut v, "bestvideo[ext=mp4]+bestaudio[ext=m4a]/best[ext=mp4]/best");
            push_str(&mut v, "--merge-output-format");
            push_str(&mut v, "mp4");
        },
    }
    push_str(&mut v, "--ffmpeg-location");
    push_str(&mut v, ffmpeg);
    push_str(&mut v, "-o");
    push_str(&mut v, template);
    push_str(&mut v, "--no-playlist");
    push_str(&mut v, "--no-progress");
    push_str(&mut v, url);
    assert(views(v@) =~= args_for(kind, ffmpeg@, template@, url@));
    v
}

/// Plans a download of `url` into `output_dir` with the binaries in `libs_dir`;
/// refuses a URL that is not a YouTube URL.
pub fn plan_download(libs_dir: &str, output_dir: &str, url: &str, kind: MediaKind) -> (r: Result<
    DownloadPlan,
    DownloadError,
>)
    ensures
        r is Err <==> !is_youtube(url@),
        r matches Err(e) ==> e matches DownloadError::InvalidUrl(m) && m@ == invalid_url_message(
            url@,
        ),
        r matches Ok(p) ==> {
            &&& p.kind == kind
            &&& p.output_dir@ == output_dir@
            &&& p.yt_dlp_path@ == join(libs_dir@, "yt-dlp"@)
            &&& p.ffmpeg_path@ == join(libs_dir@, "ffmpeg"@)
            &&& p.output_template@ == output_template(output_dir@)
            &&& views(p.args@) == args_for(kind, p.ffmpeg_path@, p.output_template@, url@)
        },
{
    if !is_youtube_url(url) {
        return Err(DownloadError::InvalidUrl(concat_str("Not a valid YouTube URL: ", url)));
    }
    let yt_dlp_path = get_yt_dlp_path(libs_dir);
    let ffmpeg_path = get_ffmpeg_path(libs_dir);
    let output_template = join_path(output_dir, "%(title)s.%(ext)s");
    let args = build_args(kind, ffmpeg_path.as_str(), output_template.as_str(), url);
    Ok(
        DownloadPlan {
            kind,
            output_dir: output_dir.to_owned(),
            yt_dlp_path,
            ffmpeg_path,
            output_template,
            args,
        },
    )
}

/// Checks that both binaries are present, naming yt-dlp first when it is missing.
pub fn check_binaries(yt_dlp_exists: bool, ffmpeg_exists: bool) -> (r: Result<(), DownloadError>)
    ensures
        r is Ok <==> yt_dlp_exists && ffmpeg_exists,
        !yt_dlp_exists ==> (r matches Err(DownloadError::BinaryNotFound(m)) && m@ == "yt-dlp"@),
        yt_dlp_exists && !ffmpeg_exists ==> (r matches Err(DownloadError::BinaryNotFound(m))
            && m@ == "ffmpeg"@),
{
    if !yt_dlp_exists {
        return Err(DownloadError::BinaryNotFound("yt-dlp".to_owned()));
    }
    if !ffmpeg_exists {
        return Err(DownloadError::BinaryNotFound("ffmpeg".to_owned()));
    }
    Ok(())
}

/// The second step of the library's MP3 download, once `plan_download` has accepted
/// the URL: the plan may run if yt-dlp exists, then if ffmpeg exists (`yt_dlp_exists`
/// and `ffmpeg_exists` tell whether the files at the plan's `yt_dlp_path` and
/// `ffmpeg_path` exist). The binaries are only looked at for a plan, so for a refused
/// URL they never are.
pub fn approve_download(plan: DownloadPlan, yt_dlp_exists: bool, ffmpeg_exists: bool) -> (r: Result<
    DownloadPlan,
    DownloadError,
>)
    ensures
        r matches Ok(p) ==> p == plan,
        r is Ok <==> yt_dlp_exists && ffmpeg_exists,
        !yt_dlp_exists ==> (r matches Err(DownloadError::BinaryNotFound(m)) && m@ == "yt-dlp"@),
        yt_dlp_exists && !ffmpeg_exists ==> (r matches Err(DownloadError::BinaryNotFound(m))
            && m@ == "ffmpeg"@),
{
    check_binaries(yt_dlp_exists, ffmpeg_exists)?;
    Ok(plan)
}

// ---------------------------------------------------------------------------
// Outcomes
// ---------------------------------------------------------------------------

/// How a yt-dlp run ended.
#[derive(Debug, Clone)]
pub enum RunOutcome {
    /// yt-dlp could not be started; holds the reason.
    SpawnFailed(String),
    /// yt-dlp ran; `success` tells whether it exited successfully.
    Exited { success: bool, stdout: Vec<u8>, stderr: Vec<u8> },
}

/// The text of bytes decoded as UTF-8, each invalid sequence replaced by U+FFFD:
/// what `String::from_utf8_lossy` returns.
pub uninterp spec fn utf8_lossy(bytes: Seq<u8>) -> Seq<char>;

/// `String::from_utf8_lossy(bytes)`, owned.
/// Trusted: the result is named by `utf8_lossy`; std documents that valid UTF-8
/// is decoded as it is, which the second clause states with vstd's `decode_utf8`.
/// What it does on invalid input (the replacement of each maximal invalid
/// subsequence by U+FFFD) is left to the name.
#[verifier::external_body]
fn decode_lossy(bytes: &[u8]) -> (s: String)
    ensures
        s@ == utf8_lossy(bytes@),
        valid_utf8(bytes@) ==> s@ == decode_utf8(bytes@),
{
    String::from_utf8_lossy(bytes).into_owned()
}

/// The message of the `DownloadFailed` error an outcome gives, if it is a failure.
pub open spec fn failure_message(outcome: RunOutcome) -> Option<Seq<char>> {
    match outcome {
        RunOutcome::SpawnFailed(d) => Some("Failed to execute yt-dlp: "@ + d@),
        RunOutcome::Exited { success, stdout, stderr } => if success {
            None
        } else {
            Some("yt-dlp failed: "@ + utf8_lossy(stderr@))
        },
    }
}

/// The standard output of a run, decoded.
pub open spec fn stdout_text(outcome: RunOutcome) -> Seq<char> {
    match outcome {
        RunOutcome::SpawnFailed(_) => Seq::empty(),
        RunOutcome::Exited { success, stdout, stderr } => utf8_lossy(stdout@),
    }
}

fn failure_of(outcome: &RunOutcome) -> (r: Option<DownloadError>)
    ensures
        match failure_message(*outcome) {
            Some(m) => r matches Some(DownloadError::DownloadFailed(x)) && x@ == m,
            None => r is None,
        },
        *outcome matches RunOutcome::Exited { success: false, stdout: _, stderr } ==> (valid_utf8(
            stderr@,
        ) ==> (r matches Some(DownloadError::DownloadFailed(x)) && x@ == "yt-dlp failed: "@
            + decode_utf8(stderr@))),
{
    match outcome {
        RunOutcome::SpawnFailed(d) => Some(
            DownloadError::DownloadFailed(concat_str("Failed to execute yt-dlp: ", d.as_str())),
        ),
        RunOutcome::Exited { success, stdout: _, stderr } => {
            if *success {
                None
            } else {
                let err = decode_lossy(stderr.as_slice());
                Some(DownloadError::DownloadFailed(concat_str("yt-dlp failed: ", err.as_str())))
            }
        },
    }
}

/// The result of an audio download from how yt-dlp's run ended: a failure to start or
/// an unsuccessful exit is a `DownloadFailed` error; otherwise the saved file and
/// title are read from its output.
pub fn finish_audio_download(plan: &DownloadPlan, outcome: &RunOutcome) -> (r: Result<
    DownloadResult,
    DownloadError,
>)
    ensures
        match failure_message(*outcome) {
            Some(m) => r matches Err(DownloadError::DownloadFailed(x)) && x@ == m,
            None => r matches Ok(res) && (res.path@, res.title@) == audio_output(
                stdout_text(*outcome),
                plan.output_dir@,
            ),
        },
        *outcome matches RunOutcome::Exited { success: true, stdout, stderr: _ } ==> (valid_utf8(
            stdout@,
        ) ==> (r matches Ok(res) && (res.path@, res.title@) == audio_output(
            decode_utf8(stdout@),
            plan.output_dir@,
        ))),
        *outcome matches RunOutcome::Exited { success: false, stdout: _, stderr } ==> (valid_utf8(
            stderr@,
        ) ==> (r matches Err(DownloadError::DownloadFailed(x)) && x@ == "yt-dlp failed: "@
            + decode_utf8(stderr@))),
{
    if let Some(e) = failure_of(outcome) {
        return Err(e);
    }
    match outcome {
        RunOutcome::SpawnFailed(_) => {
            assert(false);
            Err(DownloadError::DownloadFailed(String::new()))
        },
        RunOutcome::Exited { success: _, stdout, stderr: _ } => {
            let text = decode_lossy(stdout.as_slice());
            let (path, title) = parse_audio_output(text.as_str(), plan.output_dir.as_str());
            Ok(DownloadResult { path, title })
        },
    }
}

/// The saved file of a video download from how yt-dlp's run ended: a failure to start
/// or an unsuccessful exit is a `DownloadFailed` error; otherwise the file is read
/// from its output.
pub fn finish_video_download(plan: &DownloadPlan, outcome: &RunOutcome) -> (r: Result<
    String,
    DownloadError,
>)
    ensures
        match failure_message(*outcome) {
            Some(m) => r matches Err(DownloadError::DownloadFailed(x)) && x@ == m,
            None => r matches Ok(p) && p@ == video_output(stdout_text(*outcome), plan.output_dir@),
        },
        *outcome matches RunOutcome::Exited { success: true, stdout, stderr: _ } ==> (valid_utf8(
            stdout@,
        ) ==> (r matches Ok(p) && p@ == video_output(decode_utf8(stdout@), plan.output_dir@))),
        *outcome matches RunOutcome::Exited { success: false, stdout: _, stderr } ==> (valid_utf8(
            stderr@,
        ) ==> (r matches Err(DownloadError::DownloadFailed(x)) && x@ == "yt-dlp failed: "@
            + decode_utf8(stderr@))),
{
    if let Some(e) = failure_of(outcome) {
        return Err(e);
    }
    match outcome {
        RunOutcome::SpawnFailed(_) => {
            assert(false);
            Err(DownloadError::DownloadFailed(String::new()))
        },
        RunOutcome::Exited { success: _, stdout, stderr: _ } => {
            let text = decode_lossy(stdout.as_slice());
            Ok(parse_video_output(text.as_str(), plan.output_dir.as_str()))
        },
    }
}

/// Why a run of the interactive downloader failed once its URL was accepted.
#[derive(Debug, Clone, PartialEq, Eq)]
pub enum RunFailure {
    /// yt-dlp could not be started. Holds the reason, which is the cause of the
    /// failure and not part of its message.
    NotStarted(String),
    /// yt-dlp exited unsuccessfully; holds the message.
    Failed(String),
}

impl RunFailure {
    /// The text that describes the failure to a user: `"Failed to execute yt-dlp"`
    /// when yt-dlp could not be started (its reason is only the cause), else the
    /// message held.
    pub open spec fn describe(self) -> Seq<char> {
        match self {
            RunFailure::NotStarted(_) => "Failed to execute yt-dlp"@,
            RunFailure::Failed(m) => m@,
        }
    }

    /// The text that describes the failure to a user.
    pub fn message(&self) -> (r: String)
        ensures
            r@ == self.describe(),
    {
        match self {
            RunFailure::NotStarted(_) => "Failed to execute yt-dlp".to_owned(),
            RunFailure::Failed(m) => m.clone(),
        }
    }
}

/// The saved file that yt-dlp's output names for a download of `kind`.
pub open spec fn saved_path(kind: MediaKind, stdout: Seq<char>, output_dir: Seq<char>) -> Seq<char> {
    match kind {
        MediaKind::Audio => audio_output(stdout, output_dir).0,
        MediaKind::Video => video_output(stdout, output_dir),
    }
}

/// The saved file of the interactive downloader's run, from how yt-dlp's run ended:
/// a failure to start is `NotStarted` with its reason, an unsuccessful exit is
/// `Failed("yt-dlp failed: <stderr>")`; otherwise the file is read from the output
/// as the plan's kind says.
pub fn finish_media_download(plan: &DownloadPlan, outcome: &RunOutcome) -> (r: Result<
    String,
    RunFailure,
>)
    ensures
        match *outcome {
            RunOutcome::SpawnFailed(d) => r matches Err(RunFailure::NotStarted(x)) && x@ == d@,
            RunOutcome::Exited { success, stdout, stderr } => if success {
                r matches Ok(p) && p@ == saved_path(plan.kind, utf8_lossy(stdout@), plan.output_dir@)
            } else {
                r matches Err(RunFailure::Failed(m)) && m@ == "yt-dlp failed: "@ + utf8_lossy(
                    stderr@,
                )
            },
        },
        *outcome matches RunOutcome::Exited { success: true, stdout, stderr: _ } ==> (valid_utf8(
            stdout@,
        ) ==> (r matches Ok(p) && p@ == saved_path(plan.kind, decode_utf8(stdout@), plan.output_dir@))),
        *outcome matches RunOutcome::Exited { success: false, stdout: _, stderr } ==> (valid_utf8(
            stderr@,
        ) ==> (r matches Err(RunFailure::Failed(m)) && m@ == "yt-dlp failed: "@ + decode_utf8(
            stderr@,
        ))),
{
    match outcome {
        RunOutcome::SpawnFailed(d) => Err(RunFailure::NotStarted(d.clone())),
        RunOutcome::Exited { success, stdout, stderr } => {
            if !*success {
                let err = decode_lossy(stderr.as_slice());
                return Err(RunFailure::Failed(concat_str("yt-dlp failed: ", err.as_str())));
            }
            let text = decode_lossy(stdout.as_slice());
            match plan.kind {
                MediaKind::Audio => {
                    let (path, _title) = parse_audio_output(
                        text.as_str(),
                        plan.output_dir.as_str(),
                    );
                    Ok(path)
                },
                MediaKind::Video => Ok(parse_video_output(text.as_str(), plan.output_dir.as_str())),
            }
        },
    }
}

// ---------------------------------------------------------------------------
// Output directories
// ---------------------------------------------------------------------------

/// `dirs::home_dir()`, the user's home directory, as text (bytes that are not UTF-8
/// are replaced by U+FFFD).
/// Trusted, and nothing is claimed of the result: it depends on the environment
/// (`$HOME`, or the password database).
#[verifier::external_body]
fn home_dir() -> Option<String> {
    match dirs::home_dir() {
        Some(p) => Some(p.to_string_lossy().into_owned()),
        None => None,
    }
}

/// `~/Desktop/soundboard` for the given home directory, or `"."` without one.
pub open spec fn default_output_dir_from(home: Option<Seq<char>>) -> Seq<char> {
    match home {
        Some(h) => join(join(h, "Desktop"@), "soundboard"@),
        None => "."@,
    }
}

/// The output directory for a download type: `~/Desktop/soundboard/sound-effects`
/// for `"audio"`, `~/Desktop/soundboard` for anything else, `"."` without a home.
pub open spec fn output_dir_for_type_from(home: Option<Seq<char>>, download_type: Seq<char>) -> Seq<
    char,
> {
    match home {
        Some(h) => if download_type == "audio"@ {
            join(join(join(h, "Desktop"@), "soundboard"@), "sound-effects"@)
        } else {
            join(join(h, "Desktop"@), "soundboard"@)
        },
        None => "."@,
    }
}

/// The default output directory for the given home directory.
pub fn default_output_dir_under(home: Option<&str>) -> (r: String)
    ensures
        r@ == default_output_dir_from(crate::binaries::opt_view(home)),
{
    match home {
        Some(h) => {
            let desktop = join_path(h, "Desktop");
            join_path(desktop.as_str(), "soundboard")
        },
        None => ".".to_owned(),
    }
}

/// The output directory for a download type, for the given home directory.
pub fn output_dir_for_type_under(home: Option<&str>, download_type: &str) -> (r: String)
    ensures
        r@ == output_dir_for_type_from(crate::binaries::opt_view(home), download_type@),
{
    match home {
        Some(h) => {
            let board = default_output_dir_under(Some(h));
            if str_eq(download_type, "audio") {
                join_path(board.as_str(), "sound-effects")
            } else {
                board
            }
        },
        None => ".".to_owned(),
    }
}

/// Get the default output directory (~/Desktop/soundboard). Paths are held as text:
/// bytes of the home directory that are not UTF-8 come out as U+FFFD.
pub fn get_default_output_dir() -> (r: String)
    ensures
        exists|h: Option<Seq<char>>| r@ == default_output_dir_from(h),
{
    let home = home_dir();
    let r = match &home {
        Some(h) => default_output_dir_under(Some(h.as_str())),
        None => default_output_dir_under(None),
    };
    proof {
        let w: Option<Seq<char>> = match home {
            Some(h) => Some(h@),
            None => None,
        };
        assert(r@ == default_output_dir_from(w));
    }
    r
}

/// The output directory for a download type ("audio" or "video").
pub fn get_output_dir_for_type(download_type: &str) -> (r: String)
    ensures
        exists|h: Option<Seq<char>>| r@ == output_dir_for_type_from(h, download_type@),
{
    let home = home_dir();
    let r = match &home {
        Some(h) => output_dir_for_type_under(Some(h.as_str()), download_type),
        None => output_dir_for_type_under(None, download_type),
    };
    proof {
        let w: Option<Seq<char>> = match home {
            Some(h) => Some(h@),
            None => None,
        };
        assert(r@ == output_dir_for_type_from(w, download_type@));
    }
    r
}

/// The default output directory is `"."` or a directory named `soundboard`.
pub proof fn lemma_default_output_dir_name(home: Option<Seq<char>>)
    ensures
        default_output_dir_from(home) == "."@ || file_name(default_output_dir_from(home)) == Some(
            "soundboard"@,
        ),
{
    reveal_strlit("soundboard");
    assert(is_plain_name("soundboard"@));
    if let Some(h) = home {
        lemma_file_name_of_join(join(h, "Desktop"@), "soundboard"@);
    }
}

/// Audio goes to a `sound-effects` directory, anything else to a `soundboard`
/// directory, unless there is no home directory (then `"."`).
pub proof fn lemma_output_dir_for_type_name(home: Option<Seq<char>>, download_type: Seq<char>)
    ensures
        home is None ==> output_dir_for_type_from(home, download_type) == "."@,
        home is Some && download_type == "audio"@ ==> file_name(
            output_dir_for_type_from(home, download_type),
        ) == Some("sound-effects"@),
        home is Some && download_type != "audio"@ ==> file_name(
            output_dir_for_type_from(home, download_type),
        ) == Some("soundboard"@),
{
    reveal_strlit("soundboard");
    reveal_strlit("sound-effects");
    assert(is_plain_name("soundboard"@));
    assert(is_plain_name("sound-effects"@));
    if let Some(h) = home {
        lemma_file_name_of_join(join(h, "Desktop"@), "soundboard"@);
        lemma_file_name_of_join(join(join(h, "Desktop"@), "soundboard"@), "sound-effects"@);
    }
}

/// With a home directory, audio goes into `sound-effects` inside the directory that
/// every other download type uses, and every other type uses one and the same
/// directory, the default output directory.
pub proof fn lemma_output_dirs_by_type(home: Option<Seq<char>>, other: Seq<char>, another: Seq<char>)
    requires
        home is Some,
        other != "audio"@,
        another != "audio"@,
    ensures
        output_dir_for_type_from(home, "audio"@) == join(
            output_dir_for_type_from(home, other),
            "sound-effects"@,
        ),
        output_dir_for_type_from(home, other) == output_dir_for_type_from(home, another),
        output_dir_for_type_from(home, other) == default_output_dir_from(home),
{
}

/// The host of `scheme://host rest` is `host`, when the scheme has no `':'`, the host
/// has none of `/ ? # :`, and the rest is empty or starts with one of them.
pub proof fn lemma_url_host_of_parts(scheme: Seq<char>, host: Seq<char>, rest: Seq<char>)
    requires
        forall|i: int| 0 <= i < scheme.len() ==> scheme[i] != ':',
        forall|i: int| 0 <= i < host.len() ==> !ends_host(host[i]),
        rest.len() == 0 || ends_host(rest[0]),
    ensures
        url_host(scheme + "://"@ + host + rest) == host,
{
    reveal_strlit("://");
    let sep = "://"@;
    let url = scheme + sep + host + rest;
    let sl = scheme.len() as int;
    assert(url.subrange(sl, sl + 3) =~= sep);
    assert(occurs_at(url, sep, sl));
    assert forall|j: int| 0 <= j < sl implies !occurs_at(url, sep, j) by {
        if occurs_at(url, sep, j) {
            assert(url.subrange(j, j + 3)[0] == url[j]);
            assert(url[j] == scheme[j]);
        }
    }
    crate::text::lemma_find_from_at(url, sep, 0, sl);
    let start = sl + 3;
    let end = start + host.len();
    assert forall|j: int| start <= j < end implies !ends_host(url[j]) by {
        assert(url[j] == host[j - start]);
    }
    if end < url.len() {
        assert(url[end] == rest[0]);
    }
    lemma_host_end_at(url, start, end);
    assert(url.subrange(start, end) =~= host);
}

/// A URL of the form `scheme://host...` is a YouTube URL exactly when its host is
/// `youtube.com`, any subdomain of `youtube.com` (a host ending in `.youtube.com`),
/// or `youtu.be`; nothing after the host matters.
pub proof fn lemma_youtube_url_by_host(scheme: Seq<char>, host: Seq<char>, rest: Seq<char>)
    requires
        forall|i: int| 0 <= i < scheme.len() ==> scheme[i] != ':',
        forall|i: int| 0 <= i < host.len() ==> !ends_host(host[i]),
        rest.len() == 0 || ends_host(rest[0]),
    ensures
        is_youtube(scheme + "://"@ + host + rest) <==> (host == "youtube.com"@ || (host.len()
            >= ".youtube.com"@.len() && host.skip(host.len() - ".youtube.com"@.len())
            == ".youtube.com"@) || host == "youtu.be"@),
{
    lemma_url_host_of_parts(scheme, host, rest);
}

/// Every URL whose host ends in `.youtube.com`, or is `youtube.com` or `youtu.be`, is
/// accepted.
pub proof fn lemma_youtube_hosts_accepted(url: Seq<char>)
    ensures
        url_host(url) == "youtube.com"@ ==> is_youtube(url),
        url_host(url) == "youtu.be"@ ==> is_youtube(url),
        (url_host(url).len() >= ".youtube.com"@.len() && url_host(url).skip(
            url_host(url).len() - ".youtube.com"@.len(),
        ) == ".youtube.com"@) ==> is_youtube(url),
{
}

/// yt-dlp is handed the URL exactly as given, as its last argument; the arguments
/// before it do not depend on the URL. The ffmpeg path follows `--ffmpeg-location`
/// and the output template follows `-o`.
pub proof fn lemma_args_pass_url_unchanged(
    kind: MediaKind,
    ffmpeg: Seq<char>,
    template: Seq<char>,
    url: Seq<char>,
    other_url: Seq<char>,
)
    ensures
        args_for(kind, ffmpeg, template, url).len() > 6,
        args_for(kind, ffmpeg, template, url).last() == url,
        args_for(kind, ffmpeg, template, url).drop_last() == args_for(
            kind,
            ffmpeg,
            template,
            other_url,
        ).drop_last(),
        args_for(kind, ffmpeg, template, url)[args_for(kind, ffmpeg, template, url).len() - 7]
            == "--ffmpeg-location"@,
        args_for(kind, ffmpeg, template, url)[args_for(kind, ffmpeg, template, url).len() - 6]
            == ffmpeg,
        args_for(kind, ffmpeg, template, url)[args_for(kind, ffmpeg, template, url).len() - 5]
            == "-o"@,
        args_for(kind, ffmpeg, template, url)[args_for(kind, ffmpeg, template, url).len() - 4]
            == template,
{
    assert(args_for(kind, ffmpeg, template, url).drop_last() =~= args_for(
        kind,
        ffmpeg,
        template,
        other_url,
    ).drop_last());
}

} // verus!
