//! What the download server sends back with a saved file.
use vstd::prelude::*;
use crate::download::{is_youtube, is_youtube_url, DownloadResult};
use crate::error::DownloadError;
use crate::paths::{file_name, file_name_chars, lemma_last_component_lacks_slash};
use crate::text::{chars_of, concat_str, string_of};

verus! {

/// The name a saved file is offered under: its file name, or `download.mp3` when the
/// path has none.
pub open spec fn attachment_name(path: Seq<char>) -> Seq<char> {
    match file_name(path) {
        Some(n) => n,
        None => "download.mp3"@,
    }
}

/// The name a saved file is offered under.
pub fn attachment_filename(path: &str) -> (r: String)
    ensures
        r@ == attachment_name(path@),
{
    let p = chars_of(path);
    match file_name_chars(&p) {
        Some(n) => string_of(&n),
        None => "download.mp3".to_owned(),
    }
}

/// The `Content-Disposition` header value offering a file under `filename`.
pub fn content_disposition(filename: &str) -> (r: String)
    ensures
        r@ == "attachment; filename=\""@ + filename@ + "\""@,
{
    let head = concat_str("attachment; filename=\"", filename);
    concat_str(head.as_str(), "\"")
}

/// The header value offering the saved file at `path`.
pub open spec fn disposition_for(path: Seq<char>) -> Seq<char> {
    "attachment; filename=\""@ + attachment_name(path) + "\""@
}

/// The `Content-Type` and `Content-Disposition` header values sent with the saved
/// file at `path`.
pub fn attachment_headers(path: &str) -> (r: (String, String))
    ensures
        r.0@ == "audio/mpeg"@,
        r.1@ == disposition_for(path@),
{
    let name = attachment_filename(path);
    ("audio/mpeg".to_owned(), content_disposition(name.as_str()))
}

/// An error answer of the server: an HTTP status code and the error text.
#[derive(Debug, Clone, PartialEq, Eq)]
pub struct ErrorReply {
    /// The HTTP status code.
    pub status: u16,
    /// The text sent as `{"error": ...}`.
    pub error: String,
}

/// What the server does first with a download request.
#[derive(Debug, Clone, PartialEq, Eq)]
pub enum RequestStep {
    /// Answer at once with this error; nothing is downloaded.
    Answer(ErrorReply),
    /// Download the URL, then answer with `download_reply`.
    Download,
}

/// The first step for a request for `url`: a URL that is not a YouTube URL is
/// answered with status 400, "Invalid YouTube URL", before any download.
pub fn request_step(url: &str) -> (r: RequestStep)
    ensures
        r is Download <==> is_youtube(url@),
        r matches RequestStep::Answer(e) ==> e.status == 400 && e.error@ == "Invalid YouTube URL"@,
{
    if is_youtube_url(url) {
        RequestStep::Download
    } else {
        RequestStep::Answer(ErrorReply { status: 400, error: "Invalid YouTube URL".to_owned() })
    }
}

/// A saved file as the server sends it.
#[derive(Debug, Clone, PartialEq, Eq)]
pub struct ServedFile {
    /// The file whose bytes are the body.
    pub path: String,
    /// The `Content-Type` header value.
    pub content_type: String,
    /// The `Content-Disposition` header value.
    pub content_disposition: String,
}

/// The answer after the download: the saved file with its headers, or status 500
/// with the error's text.
pub fn download_reply(result: Result<DownloadResult, DownloadError>) -> (r: Result<
    ServedFile,
    ErrorReply,
>)
    ensures
        match result {
            Ok(d) => r matches Ok(f) && f.path@ == d.path@ && f.content_type@ == "audio/mpeg"@
                && f.content_disposition@ == disposition_for(d.path@),
            Err(e) => r matches Err(x) && x.status == 500 && x.error@ == e.describe(),
        },
{
    match result {
        Ok(d) => {
            let (content_type, content_disposition) = attachment_headers(d.path.as_str());
            Ok(ServedFile { path: d.path, content_type, content_disposition })
        },
        Err(e) => Err(failure_reply(&e)),
    }
}

/// The answer to a request whose download failed: status 500 and the error's text.
pub fn failure_reply(e: &DownloadError) -> (r: ErrorReply)
    ensures
        r.status == 500,
        r.error@ == e.describe(),
{
    ErrorReply { status: 500, error: e.message() }
}

/// The offered name is never empty.
pub proof fn lemma_attachment_name_nonempty(path: Seq<char>)
    ensures
        attachment_name(path).len() > 0,
{
    reveal_strlit("download.mp3");
    lemma_last_component_lacks_slash(path);
}

} // verus!
