//! Reading what yt-dlp prints: which file it saved, and under what title.
use vstd::prelude::*;
use crate::paths::{
    file_stem, is_plain_name, join, join_chars, lacks, lemma_file_name_of_join,
    lemma_file_stem_lacks_slash, lemma_stem_of_extension, stem_or_empty, stem_or_empty_chars,
};
use crate::text::{
    chars_of, concat, first_line_with, first_line_with_exec, segment_after, segment_after_exec,
    string_of, trim, trim_exec, CharClass,
};

verus! {

// ---------------------------------------------------------------------------
// Specifications
// ---------------------------------------------------------------------------

/// The text of an optional text, or the empty text.
pub open spec fn unwrap_or_empty(o: Option<Seq<char>>) -> Seq<char> {
    match o {
        Some(s) => s,
        None => Seq::empty(),
    }
}

/// The path named on a `Destination:` line: the text after the marker (up to a
/// further marker), trimmed.
pub open spec fn destination_of(line: Seq<char>) -> Seq<char> {
    trim(unwrap_or_empty(segment_after(line, "Destination:"@)), CharClass::Whitespace)
}

/// The name yt-dlp gave the download when no line names the converted file: the
/// destination on the first `[download]` line that has one, or `"output"`.
pub open spec fn fallback_name(stdout: Seq<char>) -> Seq<char> {
    match first_line_with(stdout, "[download]"@, "Destination:"@) {
        Some(line) => match segment_after(line, "Destination:"@) {
            Some(x) => trim(x, CharClass::Whitespace),
            None => "output"@,
        },
        None => "output"@,
    }
}

/// The saved file and its title after an audio download, as `(path, title)`: the
/// destination on the first line that mentions both `Destination:` and `.mp3`, with
/// its file stem as title; without such a line, `<output_dir>/<stem>.mp3` where
/// `<stem>` is the file stem of the fallback name.
pub open spec fn audio_output(stdout: Seq<char>, output_dir: Seq<char>) -> (Seq<char>, Seq<char>) {
    match first_line_with(stdout, "Destination:"@, ".mp3"@) {
        Some(line) => {
            let p = destination_of(line);
            (p, stem_or_empty(p))
        },
        None => {
            let stem = stem_or_empty(fallback_name(stdout));
            (join(output_dir, stem + ".mp3"@), stem)
        },
    }
}

/// The path on a `[Merger]` line: the text after `Merging formats into`, or else
/// between the first two double quotes, trimmed of whitespace and then of quotes.
pub open spec fn merger_path(line: Seq<char>) -> Seq<char> {
    let raw = match segment_after(line, "Merging formats into"@) {
        Some(x) => x,
        None => unwrap_or_empty(segment_after(line, "\""@)),
    };
    trim(trim(raw, CharClass::Whitespace), CharClass::Quote)
}

/// The saved file after a video download: the destination on the first line that
/// mentions both `Destination:` and `.mp4`; else the path on the first `[Merger]` line
/// that mentions `.mp4`; else `<output_dir>/<stem>.mp4` from the fallback name.
pub open spec fn video_output(stdout: Seq<char>, output_dir: Seq<char>) -> Seq<char> {
    match first_line_with(stdout, "Destination:"@, ".mp4"@) {
        Some(line) => destination_of(line),
        None => match first_line_with(stdout, "[Merger]"@, ".mp4"@) {
            Some(line) => merger_path(line),
            None => join(output_dir, stem_or_empty(fallback_name(stdout)) + ".mp4"@),
        },
    }
}

// ---------------------------------------------------------------------------
// Executable functions
// ---------------------------------------------------------------------------

fn destination_of_exec(line: &Vec<char>) -> (r: Vec<char>)
    ensures
        r@ == destination_of(line@),
{
    let dest = chars_of("Destination:");
    proof {
        reveal_strlit("Destination:");
    }
    match segment_after_exec(line, &dest) {
        Some(x) => trim_exec(&x, CharClass::Whitespace),
        None => trim_exec(&Vec::new(), CharClass::Whitespace),
    }
}

fn fallback_name_exec(stdout: &Vec<char>) -> (r: Vec<char>)
    ensures
        r@ == fallback_name(stdout@),
{
    let dest = chars_of("Destination:");
    let dl = chars_of("[download]");
    proof {
        reveal_strlit("Destination:");
    }
    match first_line_with_exec(stdout, &dl, &dest) {
        Some(line) => match segment_after_exec(&line, &dest) {
            Some(x) => trim_exec(&x, CharClass::Whitespace),
            None => chars_of("output"),
        },
        None => chars_of("output"),
    }
}

fn merger_path_exec(line: &Vec<char>) -> (r: Vec<char>)
    ensures
        r@ == merger_path(line@),
{
    let merging = chars_of("Merging formats into");
    let quote = chars_of("\"");
    proof {
        reveal_strlit("Merging formats into");
        reveal_strlit("\"");
    }
    let raw = match segment_after_exec(line, &merging) {
        Some(x) => x,
        None => match segment_after_exec(line, &quote) {
            Some(y) => y,
            None => Vec::new(),
        },
    };
    let t = trim_exec(&raw, CharClass::Whitespace);
    trim_exec(&t, CharClass::Quote)
}

/// The saved file and title after an audio download, from what yt-dlp printed.
pub fn parse_audio_output(stdout: &str, output_dir: &str) -> (r: (String, String))
    ensures
        (r.0@, r.1@) == audio_output(stdout@, output_dir@),
{
    let text = chars_of(stdout);
    let dest = chars_of("Destination:");
    let mp3 = chars_of(".mp3");
    match first_line_with_exec(&text, &dest, &mp3) {
        Some(line) => {
            let p = destination_of_exec(&line);
            let st = stem_or_empty_chars(&p);
            (string_of(&p), string_of(&st))
        },
        None => {
            let name = fallback_name_exec(&text);
            let stem = stem_or_empty_chars(&name);
            let file = concat(&stem, &mp3);
            let dir = chars_of(output_dir);
            let p = join_chars(&dir, &file);
            (string_of(&p), string_of(&stem))
        },
    }
}

/// The saved file after a video download, from what yt-dlp printed.
pub fn parse_video_output(stdout: &str, output_dir: &str) -> (r: String)
    ensures
        r@ == video_output(stdout@, output_dir@),
{
    let text = chars_of(stdout);
    let dest = chars_of("Destination:");
    let mp4 = chars_of(".mp4");
    match first_line_with_exec(&text, &dest, &mp4) {
        Some(line) => string_of(&destination_of_exec(&line)),
        None => {
            let merger = chars_of("[Merger]");
            match first_line_with_exec(&text, &merger, &mp4) {
                Some(line) => string_of(&merger_path_exec(&line)),
                None => {
                    let name = fallback_name_exec(&text);
                    let stem = stem_or_empty_chars(&name);
                    let file = concat(&stem, &mp4);
                    let dir = chars_of(output_dir);
                    string_of(&join_chars(&dir, &file))
                },
            }
        },
    }
}

// ---------------------------------------------------------------------------
// Laws
// ---------------------------------------------------------------------------

/// A non-empty title is the file stem of the returned path: the title is the saved
/// file's name without its extension.
pub proof fn lemma_audio_title_is_stem(stdout: Seq<char>, output_dir: Seq<char>)
    ensures
        audio_output(stdout, output_dir).1.len() > 0 ==> file_stem(
            audio_output(stdout, output_dir).0,
        ) == Some(audio_output(stdout, output_dir).1),
{
    if first_line_with(stdout, "Destination:"@, ".mp3"@) is None {
        let stem = stem_or_empty(fallback_name(stdout));
        if stem.len() > 0 {
            reveal_strlit(".mp3");
            let ext = ".mp3"@;
            let file = stem + ext;
            lemma_file_stem_lacks_slash(fallback_name(stdout));
            assert(lacks(file, '/')) by {
                assert forall|i: int| 0 <= i < file.len() implies file[i] != '/' by {
                    if i < stem.len() {
                        assert(file[i] == stem[i]);
                    } else {
                        assert(file[i] == ext[i - stem.len()]);
                    }
                }
            }
            assert(file.len() > 2);
            assert(is_plain_name(file));
            lemma_file_name_of_join(output_dir, file);
            lemma_stem_of_extension(stem, ext);
        }
    }
}

/// When a line names the converted `.mp3` file, the saved path is the whole text after
/// `Destination:` on the first such line (up to a further `Destination:`), with only
/// the surrounding whitespace removed, whatever the output directory; the title is
/// that path's file stem.
pub proof fn lemma_audio_destination_kept(stdout: Seq<char>, output_dir: Seq<char>, line: Seq<char>)
    requires
        first_line_with(stdout, "Destination:"@, ".mp3"@) == Some(line),
    ensures
        segment_after(line, "Destination:"@) is Some,
        audio_output(stdout, output_dir).0 == trim(
            segment_after(line, "Destination:"@)->0,
            CharClass::Whitespace,
        ),
        audio_output(stdout, output_dir).1 == stem_or_empty(audio_output(stdout, output_dir).0),
{
    crate::text::lemma_first_with_both_contains(
        crate::text::lines(stdout),
        "Destination:"@,
        ".mp3"@,
    );
    crate::text::lemma_segment_after_exists(line, "Destination:"@);
}

/// When no line names the converted `.mp3` file, the file is saved in the output
/// directory under its title with the extension `.mp3`.
pub proof fn lemma_audio_fallback_in_output_dir(stdout: Seq<char>, output_dir: Seq<char>)
    requires
        first_line_with(stdout, "Destination:"@, ".mp3"@) is None,
    ensures
        audio_output(stdout, output_dir).0 == join(
            output_dir,
            audio_output(stdout, output_dir).1 + ".mp3"@,
        ),
{
}

/// When a line names an `.mp4` destination, the saved video is the whole text after
/// `Destination:` on the first such line (up to a further `Destination:`), with only
/// the surrounding whitespace removed, whatever the output directory.
pub proof fn lemma_video_destination_kept(stdout: Seq<char>, output_dir: Seq<char>, line: Seq<char>)
    requires
        first_line_with(stdout, "Destination:"@, ".mp4"@) == Some(line),
    ensures
        segment_after(line, "Destination:"@) is Some,
        video_output(stdout, output_dir) == trim(
            segment_after(line, "Destination:"@)->0,
            CharClass::Whitespace,
        ),
{
    crate::text::lemma_first_with_both_contains(
        crate::text::lines(stdout),
        "Destination:"@,
        ".mp4"@,
    );
    crate::text::lemma_segment_after_exists(line, "Destination:"@);
}

/// Without an `.mp4` destination line, the first `[Merger]` line that mentions `.mp4`
/// gives the video: the text after `Merging formats into` (or else between the first
/// two double quotes), trimmed of whitespace and then of double quotes.
pub proof fn lemma_video_merger_kept(stdout: Seq<char>, output_dir: Seq<char>, line: Seq<char>)
    requires
        first_line_with(stdout, "Destination:"@, ".mp4"@) is None,
        first_line_with(stdout, "[Merger]"@, ".mp4"@) == Some(line),
    ensures
        segment_after(line, "Merging formats into"@) matches Some(x) ==> video_output(
            stdout,
            output_dir,
        ) == trim(trim(x, CharClass::Whitespace), CharClass::Quote),
        segment_after(line, "Merging formats into"@) is None ==> video_output(stdout, output_dir)
            == trim(
            trim(
                match segment_after(line, "\""@) {
                    Some(y) => y,
                    None => Seq::empty(),
                },
                CharClass::Whitespace,
            ),
            CharClass::Quote,
        ),
{
}

/// When yt-dlp's output names neither file, audio and video land in the output
/// directory under the same title, with the extensions `.mp3` and `.mp4`.
pub proof fn lemma_video_fallback_matches_audio(stdout: Seq<char>, output_dir: Seq<char>)
    requires
        first_line_with(stdout, "Destination:"@, ".mp3"@) is None,
        first_line_with(stdout, "Destination:"@, ".mp4"@) is None,
        first_line_with(stdout, "[Merger]"@, ".mp4"@) is None,
    ensures
        video_output(stdout, output_dir) == join(
            output_dir,
            audio_output(stdout, output_dir).1 + ".mp4"@,
        ),
{
}

} // verus!
