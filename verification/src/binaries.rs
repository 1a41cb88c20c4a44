//! Where the yt-dlp and ffmpeg binaries live.
use vstd::prelude::*;
use crate::error::DownloadError;
use crate::paths::{file_name, is_plain_name, join, join_path, lemma_file_name_of_join};
use crate::text::concat_str;

verus! {

/// `dirs::data_local_dir()`, the user's local data directory, as text (bytes that are
/// not UTF-8 are replaced by U+FFFD).
/// Trusted, and nothing is claimed of the result: it depends on the environment
/// (`$XDG_DATA_HOME` or `$HOME` on Linux).
#[verifier::external_body]
fn data_local_dir() -> Option<String> {
    match dirs::data_local_dir() {
        Some(p) => Some(p.to_string_lossy().into_owned()),
        None => None,
    }
}

/// The libs directory under a data directory: `<data_dir>/url-mp3/libs`, with `"."`
/// in place of a missing data directory.
pub open spec fn libs_dir_from(data_dir: Option<Seq<char>>) -> Seq<char> {
    let base = match data_dir {
        Some(d) => d,
        None => "."@,
    };
    join(join(base, "url-mp3"@), "libs"@)
}

/// The text of an optional text.
pub open spec fn opt_view(o: Option<&str>) -> Option<Seq<char>> {
    match o {
        Some(s) => Some(s@),
        None => None,
    }
}

/// The libs directory for the given local data directory.
pub fn libs_dir_under(data_dir: Option<&str>) -> (r: String)
    ensures
        r@ == libs_dir_from(opt_view(data_dir)),
{
    let base = match data_dir {
        Some(d) => d.to_owned(),
        None => ".".to_owned(),
    };
    let app = join_path(base.as_str(), "url-mp3");
    join_path(app.as_str(), "libs")
}

/// The default directory for storing the yt-dlp and ffmpeg binaries:
/// `<local data dir>/url-mp3/libs`. Paths are held as text: bytes of the data
/// directory that are not UTF-8 come out as U+FFFD.
pub fn get_libs_dir() -> (r: String)
    ensures
        exists|d: Option<Seq<char>>| r@ == libs_dir_from(d),
{
    let data = data_local_dir();
    let r = match &data {
        Some(d) => libs_dir_under(Some(d.as_str())),
        None => libs_dir_under(None),
    };
    proof {
        let w: Option<Seq<char>> = match data {
            Some(d) => Some(d@),
            None => None,
        };
        assert(r@ == libs_dir_from(w));
    }
    r
}

/// The path of the yt-dlp binary in `libs_dir`.
pub fn get_yt_dlp_path(libs_dir: &str) -> (r: String)
    ensures
        r@ == join(libs_dir@, "yt-dlp"@),
{
    join_path(libs_dir, "yt-dlp")
}

/// The path of the ffmpeg binary in `libs_dir`.
pub fn get_ffmpeg_path(libs_dir: &str) -> (r: String)
    ensures
        r@ == join(libs_dir@, "ffmpeg"@),
{
    join_path(libs_dir, "ffmpeg")
}

/// Whether the binaries must be fetched: unless both are already there.
pub fn needs_binary_download(yt_dlp_exists: bool, ffmpeg_exists: bool) -> (r: bool)
    ensures
        r == !(yt_dlp_exists && ffmpeg_exists),
{
    !(yt_dlp_exists && ffmpeg_exists)
}

/// The error reported when the libs directory cannot be created.
pub fn libs_dir_error(detail: &str) -> (r: DownloadError)
    ensures
        r matches DownloadError::Io(m) && m@ == "Failed to create libs directory: "@ + detail@,
{
    DownloadError::Io(concat_str("Failed to create libs directory: ", detail))
}

/// The yt-dlp and ffmpeg paths lie in the libs directory under their own names,
/// so they are two different files.
pub proof fn lemma_binary_paths(libs_dir: Seq<char>)
    ensures
        file_name(join(libs_dir, "yt-dlp"@)) == Some("yt-dlp"@),
        file_name(join(libs_dir, "ffmpeg"@)) == Some("ffmpeg"@),
        join(libs_dir, "yt-dlp"@) != join(libs_dir, "ffmpeg"@),
{
    reveal_strlit("yt-dlp");
    reveal_strlit("ffmpeg");
    assert(is_plain_name("yt-dlp"@));
    assert(is_plain_name("ffmpeg"@));
    lemma_file_name_of_join(libs_dir, "yt-dlp"@);
    lemma_file_name_of_join(libs_dir, "ffmpeg"@);
    assert("yt-dlp"@ != "ffmpeg"@) by {
        assert("yt-dlp"@[0] != "ffmpeg"@[0]);
    }
}

/// The libs directory is always named `libs`, whatever the data directory is.
pub proof fn lemma_libs_dir_name(data_dir: Option<Seq<char>>)
    ensures
        file_name(libs_dir_from(data_dir)) == Some("libs"@),
{
    reveal_strlit("libs");
    assert(is_plain_name("libs"@));
    let base = match data_dir {
        Some(d) => d,
        None => "."@,
    };
    lemma_file_name_of_join(join(base, "url-mp3"@), "libs"@);
}

} // verus!
