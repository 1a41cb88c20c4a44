use url_mp3_core::download::{approve_download, finish_media_download, RunFailure};
use std::path::PathBuf;
use url_mp3_core::binaries::{libs_dir_error, libs_dir_under, needs_binary_download};
use url_mp3_core::download::{
    default_output_dir_under, output_dir_for_type_under,
};
use url_mp3_core::output::{parse_audio_output, parse_video_output};
use url_mp3_core::server::{
    attachment_filename, attachment_headers, content_disposition, download_reply, failure_reply,
    request_step, ErrorReply, RequestStep, ServedFile,
};
use url_mp3_core::{
    check_binaries, finish_audio_download, finish_video_download, get_default_output_dir,
    get_ffmpeg_path, get_libs_dir, get_yt_dlp_path, is_youtube_url, plan_download,
    DownloadError, MediaKind, RunOutcome,
};

/// The reading of yt-dlp's audio output written with std, for comparison.
fn reference_audio(stdout: &str, output_dir: &str) -> (String, String) {
    let output_dir = PathBuf::from(output_dir);
    let (p, t) = if let Some(line) = stdout
        .lines()
        .find(|l| l.contains("Destination:") && l.contains(".mp3"))
    {
        let path_str = line.split("Destination:").nth(1).unwrap_or("").trim();
        let path = PathBuf::from(path_str);
        let title = path.file_stem().unwrap_or_default().to_string_lossy().to_string();
        (path, title)
    } else {
        let title = stdout
            .lines()
            .find(|l| l.contains("[download]") && l.contains("Destination:"))
            .and_then(|l| l.split("Destination:").nth(1))
            .map(|s| s.trim())
            .unwrap_or("output");
        let base = PathBuf::from(title);
        let stem = base.file_stem().unwrap_or_default().to_str().unwrap_or("output");
        (output_dir.join(format!("{}.mp3", stem)), stem.to_string())
    };
    (p.to_str().unwrap().to_string(), t)
}

/// The reading of yt-dlp's video output written with std, for comparison.
fn reference_video(stdout: &str, output_dir: &str) -> String {
    let output_dir = PathBuf::from(output_dir);
    let p = if let Some(line) = stdout.lines().find(|l| l.contains("Destination:") && l.contains(".mp4")) {
        PathBuf::from(line.split("Destination:").nth(1).unwrap_or("").trim())
    } else if let Some(line) = stdout.lines().find(|l| l.contains("[Merger]") && l.contains(".mp4")) {
        let path_str = line
            .split("Merging formats into")
            .nth(1)
            .or_else(|| line.split("\"").nth(1))
            .unwrap_or("")
            .trim()
            .trim_matches('"');
        PathBuf::from(path_str)
    } else {
        let title = stdout
            .lines()
            .find(|l| l.contains("[download]") && l.contains("Destination:"))
            .and_then(|l| l.split("Destination:").nth(1))
            .map(|s| s.trim())
            .unwrap_or("output");
        let base = PathBuf::from(title);
        let stem = base.file_stem().unwrap_or_default().to_str().unwrap_or("output");
        output_dir.join(format!("{}.mp4", stem))
    };
    p.to_str().unwrap().to_string()
}

const AUDIO_RUN: &str = "[youtube] Extracting URL: https://www.youtube.com/watch?v=abc\n\
[youtube] abc: Downloading webpage\n\
[info] abc: Downloading 1 format(s): 251\n\
[download] Destination: /out/Song Title.webm\n\
[download] 100% of    3.00MiB in 00:00:01 at 2.00MiB/s\n\
[ExtractAudio] Destination: /out/Song Title.mp3\n\
Deleting original file /out/Song Title.webm (pass -k to keep)\n";

const VIDEO_RUN: &str = "[youtube] Extracting URL: https://youtu.be/xyz\n\
[info] xyz: Downloading 1 format(s): 137+140\n\
[download] Destination: /out/Clip.f137.mp4\n\
[download] Destination: /out/Clip.f140.m4a\n\
[Merger] Merging formats into \"/out/Clip.mp4\"\n";

const MERGE_RUN: &str = "[download] Destination: /out/Clip.f248.webm\n\
[download] Destination: /out/Clip.f251.webm\n\
[Merger] Merging formats into \"/out/Clip.mp4\"\n";

const SAMPLE_OUTPUTS: &[&str] = &[
    AUDIO_RUN,
    VIDEO_RUN,
    MERGE_RUN,
    "",
    "[download] Destination: /tmp/x/My Video.webm\n",
    "[download] Destination: \n",
    "[download] Destination: /tmp/archive.tar.gz\r\n",
    "[ExtractAudio] Destination:   spaced.mp3   \r\n",
    "[Merger] Merging formats into \"a.mp4\"\n",
    "[Merger] \"b.mp4\" done\n",
    "[Merger] .mp4\n",
    "Destination: first.mp3 Destination: second.mp3\n",
    "[download] Destination: .hidden\n",
    "[download] Destination: dir/\n",
];

#[test]
fn audio_output_matches_reference() {
    for out in SAMPLE_OUTPUTS {
        for dir in ["/music", "", "rel/dir/"] {
            assert_eq!(parse_audio_output(out, dir), reference_audio(out, dir), "{out:?} {dir:?}");
        }
    }
}

#[test]
fn video_output_matches_reference() {
    for out in SAMPLE_OUTPUTS {
        for dir in ["/videos", "", "rel/"] {
            assert_eq!(parse_video_output(out, dir), reference_video(out, dir), "{out:?} {dir:?}");
        }
    }
}

#[test]
fn audio_output_examples() {
    assert_eq!(
        parse_audio_output(AUDIO_RUN, "/out"),
        ("/out/Song Title.mp3".to_string(), "Song Title".to_string())
    );
    assert_eq!(
        parse_audio_output("[download] Destination: /tmp/x/My Video.webm\n", "/music"),
        ("/music/My Video.mp3".to_string(), "My Video".to_string())
    );
    assert_eq!(parse_audio_output("", "/music"), ("/music/output.mp3".to_string(), "output".to_string()));
}

#[test]
fn audio_title_is_stem_of_path() {
    for out in SAMPLE_OUTPUTS {
        let (path, title) = parse_audio_output(out, "/music");
        if !title.is_empty() {
            let stem = PathBuf::from(&path).file_stem().unwrap().to_str().unwrap().to_string();
            assert_eq!(stem, title, "{out:?}");
        }
    }
}

#[test]
fn video_output_examples() {
    // The first destination line that mentions .mp4 wins, even for a format part.
    assert_eq!(parse_video_output(VIDEO_RUN, "/out"), "/out/Clip.f137.mp4");
    assert_eq!(parse_video_output(MERGE_RUN, "/out"), "/out/Clip.mp4");
    assert_eq!(parse_video_output("", "/v"), "/v/output.mp4");
}

#[test]
fn youtube_urls() {
    assert!(is_youtube_url("https://www.youtube.com/watch?v=dQw4w9WgXcQ"));
    assert!(is_youtube_url("https://youtu.be/dQw4w9WgXcQ"));
    assert!(is_youtube_url("youtube.com"));
    assert!(!is_youtube_url("https://vimeo.com/123"));
    assert!(!is_youtube_url(""));
    assert!(!is_youtube_url("https://youtu.b/x"));
    assert!(is_youtube_url("https://m.youtube.com/watch?v=1"));
    assert!(is_youtube_url("https://youtube.com:443/watch?v=1"));
    assert!(is_youtube_url("youtu.be/abc"));
    assert!(!is_youtube_url("https://example.com/?next=youtube.com"));
    assert!(!is_youtube_url("https://example.com/youtu.be/x"));
    assert!(!is_youtube_url("https://notyoutube.com/watch"));
    assert!(!is_youtube_url("https://youtube.com.evil.com/x"));
    assert!(!is_youtube_url("https://youtu.be.evil.com/x"));
}

#[test]
fn binary_paths() {
    assert_eq!(get_yt_dlp_path("/data/url-mp3/libs"), "/data/url-mp3/libs/yt-dlp");
    assert_eq!(get_ffmpeg_path("/data/url-mp3/libs"), "/data/url-mp3/libs/ffmpeg");
    assert_eq!(get_yt_dlp_path("libs/"), "libs/yt-dlp");
    assert_ne!(get_yt_dlp_path("x"), get_ffmpeg_path("x"));
}

#[test]
fn libs_dirs() {
    assert_eq!(libs_dir_under(Some("/home/a/.local/share")), "/home/a/.local/share/url-mp3/libs");
    assert_eq!(libs_dir_under(None), "./url-mp3/libs");
    assert!(get_libs_dir().ends_with("url-mp3/libs"));
}

#[test]
fn output_dirs() {
    assert_eq!(default_output_dir_under(Some("/home/a")), "/home/a/Desktop/soundboard");
    assert_eq!(default_output_dir_under(None), ".");
    assert_eq!(
        output_dir_for_type_under(Some("/home/a"), "audio"),
        "/home/a/Desktop/soundboard/sound-effects"
    );
    assert_eq!(output_dir_for_type_under(Some("/home/a"), "video"), "/home/a/Desktop/soundboard");
    assert_eq!(output_dir_for_type_under(None, "audio"), ".");
    let d = get_default_output_dir();
    assert!(d == "." || d.ends_with("Desktop/soundboard"));
}

#[test]
fn plan_rejects_other_urls() {
    let e = plan_download("/libs", "/out", "https://vimeo.com/1", MediaKind::Audio).unwrap_err();
    assert_eq!(e, DownloadError::InvalidUrl("Not a valid YouTube URL: https://vimeo.com/1".to_string()));
    assert_eq!(e.message(), "Invalid URL: Not a valid YouTube URL: https://vimeo.com/1");
}

#[test]
fn plan_audio_arguments() {
    let url = "https://youtu.be/abc";
    let p = plan_download("/libs", "/out", url, MediaKind::Audio).unwrap();
    assert_eq!(p.yt_dlp_path, "/libs/yt-dlp");
    assert_eq!(p.ffmpeg_path, "/libs/ffmpeg");
    assert_eq!(p.output_template, "/out/%(title)s.%(ext)s");
    assert_eq!(p.output_dir, "/out");
    assert_eq!(
        p.args,
        vec![
            "-x", "--audio-format", "mp3", "--audio-quality", "320K", "--ffmpeg-location",
            "/libs/ffmpeg", "-o", "/out/%(title)s.%(ext)s", "--no-playlist", "--no-progress", url,
        ]
    );
}

#[test]
fn plan_video_arguments() {
    let url = "https://www.youtube.com/watch?v=1";
    let p = plan_download("/libs", "/out", url, MediaKind::Video).unwrap();
    assert_eq!(
        p.args,
        vec![
            "-f", "bestvideo[ext=mp4]+bestaudio[ext=m4a]/best[ext=mp4]/best",
            "--merge-output-format", "mp4", "--ffmpeg-location", "/libs/ffmpeg", "-o",
            "/out/%(title)s.%(ext)s", "--no-playlist", "--no-progress", url,
        ]
    );
}

#[test]
fn binaries_checked_in_order() {
    assert_eq!(check_binaries(true, true), Ok(()));
    assert_eq!(check_binaries(false, false), Err(DownloadError::BinaryNotFound("yt-dlp".to_string())));
    assert_eq!(check_binaries(false, true), Err(DownloadError::BinaryNotFound("yt-dlp".to_string())));
    assert_eq!(check_binaries(true, false), Err(DownloadError::BinaryNotFound("ffmpeg".to_string())));
    assert_eq!(
        check_binaries(true, false).unwrap_err().message(),
        "Binary not found: ffmpeg"
    );
}

#[test]
fn binary_download_needed() {
    assert!(!needs_binary_download(true, true));
    assert!(needs_binary_download(false, true));
    assert!(needs_binary_download(true, false));
    assert!(needs_binary_download(false, false));
    let e = libs_dir_error("permission denied");
    assert_eq!(e, DownloadError::Io("Failed to create libs directory: permission denied".to_string()));
    assert_eq!(e.message(), "IO error: Failed to create libs directory: permission denied");
}

#[test]
fn finish_reports_failures() {
    let p = plan_download("/libs", "/out", "https://youtu.be/a", MediaKind::Audio).unwrap();
    let spawn = RunOutcome::SpawnFailed("No such file or directory (os error 2)".to_string());
    assert_eq!(
        finish_audio_download(&p, &spawn).unwrap_err(),
        DownloadError::DownloadFailed("Failed to execute yt-dlp: No such file or directory (os error 2)".to_string())
    );
    let failed = RunOutcome::Exited {
        success: false,
        stdout: Vec::new(),
        stderr: b"ERROR: bad \xff video".to_vec(),
    };
    let e = finish_audio_download(&p, &failed).unwrap_err();
    assert_eq!(e, DownloadError::DownloadFailed("yt-dlp failed: ERROR: bad \u{fffd} video".to_string()));
    assert_eq!(e.message(), "Download failed: yt-dlp failed: ERROR: bad \u{fffd} video");
    assert!(finish_video_download(&p, &failed).is_err());
}

#[test]
fn finish_reads_output() {
    let p = plan_download("/libs", "/out", "https://youtu.be/a", MediaKind::Audio).unwrap();
    let ok = RunOutcome::Exited {
        success: true,
        stdout: AUDIO_RUN.as_bytes().to_vec(),
        stderr: Vec::new(),
    };
    let r = finish_audio_download(&p, &ok).unwrap();
    assert_eq!(r.path, "/out/Song Title.mp3");
    assert_eq!(r.title, "Song Title");
    let v = plan_download("/libs", "/out", "https://youtu.be/a", MediaKind::Video).unwrap();
    let okv = RunOutcome::Exited {
        success: true,
        stdout: VIDEO_RUN.as_bytes().to_vec(),
        stderr: Vec::new(),
    };
    assert_eq!(finish_video_download(&v, &okv).unwrap(), "/out/Clip.f137.mp4");
    let lossy = RunOutcome::Exited {
        success: true,
        stdout: b"[ExtractAudio] Destination: /o/b\xffd.mp3\n".to_vec(),
        stderr: Vec::new(),
    };
    assert_eq!(finish_audio_download(&p, &lossy).unwrap().title, "b\u{fffd}d");
}

#[test]
fn error_messages() {
    assert_eq!(DownloadError::InvalidUrl("x".into()).message(), "Invalid URL: x");
    assert_eq!(DownloadError::BinaryNotFound("yt-dlp".into()).message(), "Binary not found: yt-dlp");
    assert_eq!(DownloadError::DownloadFailed("boom".into()).message(), "Download failed: boom");
    assert_eq!(DownloadError::Io("disk".into()).message(), "IO error: disk");
    assert_eq!(DownloadError::BinaryInit("net".into()).message(), "Failed to initialize binaries: net");
}

#[test]
fn server_headers() {
    assert_eq!(attachment_filename("/out/Song Title.mp3"), "Song Title.mp3");
    assert_eq!(attachment_filename("/"), "download.mp3");
    assert_eq!(attachment_filename("/out/.."), "download.mp3");
    assert_eq!(content_disposition("a.mp3"), "attachment; filename=\"a.mp3\"");
}

#[test]
fn server_replies() {
    assert_eq!(request_step("https://youtu.be/a"), RequestStep::Download);
    assert_eq!(
        request_step("https://example.com/?next=youtube.com"),
        RequestStep::Answer(ErrorReply { status: 400, error: "Invalid YouTube URL".to_string() })
    );
    assert_eq!(
        download_reply(Ok(url_mp3_core::DownloadResult {
            path: "/out/Song.mp3".to_string(),
            title: "Song".to_string(),
        })),
        Ok(ServedFile {
            path: "/out/Song.mp3".to_string(),
            content_type: "audio/mpeg".to_string(),
            content_disposition: "attachment; filename=\"Song.mp3\"".to_string(),
        })
    );
    assert_eq!(
        download_reply(Err(DownloadError::DownloadFailed("x".to_string()))),
        Err(ErrorReply { status: 500, error: "Download failed: x".to_string() })
    );
    let r = failure_reply(&DownloadError::BinaryNotFound("ffmpeg".to_string()));
    assert_eq!(r, ErrorReply { status: 500, error: "Binary not found: ffmpeg".to_string() });
    assert_eq!(
        attachment_headers("/out/Song.mp3"),
        ("audio/mpeg".to_string(), "attachment; filename=\"Song.mp3\"".to_string())
    );
    assert_eq!(
        attachment_headers("/").1,
        "attachment; filename=\"download.mp3\""
    );
}

#[test]
fn interactive_finish() {
    let a = plan_download("/libs", "/out", "https://youtu.be/a", MediaKind::Audio).unwrap();
    let spawn = RunOutcome::SpawnFailed("No such file or directory (os error 2)".to_string());
    let f = finish_media_download(&a, &spawn).unwrap_err();
    assert_eq!(f, RunFailure::NotStarted("No such file or directory (os error 2)".to_string()));
    assert_eq!(f.message(), "Failed to execute yt-dlp");
    let failed = RunOutcome::Exited { success: false, stdout: Vec::new(), stderr: b"ERROR: gone".to_vec() };
    let f = finish_media_download(&a, &failed).unwrap_err();
    assert_eq!(f.message(), "yt-dlp failed: ERROR: gone");
    let ok = RunOutcome::Exited { success: true, stdout: AUDIO_RUN.as_bytes().to_vec(), stderr: Vec::new() };
    assert_eq!(finish_media_download(&a, &ok).unwrap(), "/out/Song Title.mp3");
    let v = plan_download("/libs", "/out", "https://youtu.be/a", MediaKind::Video).unwrap();
    let okv = RunOutcome::Exited { success: true, stdout: MERGE_RUN.as_bytes().to_vec(), stderr: Vec::new() };
    assert_eq!(finish_media_download(&v, &okv).unwrap(), "/out/Clip.mp4");
}

#[test]
fn audio_download_checks_in_order() {
    let bad = plan_download("/l", "/o", "https://vimeo.com/1", MediaKind::Audio).unwrap_err();
    assert_eq!(bad, DownloadError::InvalidUrl("Not a valid YouTube URL: https://vimeo.com/1".to_string()));
    let plan = plan_download("/l", "/o", "https://youtu.be/a", MediaKind::Audio).unwrap();
    assert_eq!(
        approve_download(plan.clone(), false, false).unwrap_err(),
        DownloadError::BinaryNotFound("yt-dlp".to_string())
    );
    assert_eq!(
        approve_download(plan.clone(), true, false).unwrap_err(),
        DownloadError::BinaryNotFound("ffmpeg".to_string())
    );
    let p = approve_download(plan, true, true).unwrap();
    assert_eq!(p.kind, MediaKind::Audio);
    assert_eq!(p.yt_dlp_path, "/l/yt-dlp");
}

#[test]
fn output_dirs_by_type() {
    let audio = output_dir_for_type_under(Some("/home/b"), "audio");
    let other = output_dir_for_type_under(Some("/home/b"), "video");
    assert_eq!(audio, format!("{}/sound-effects", other));
    assert_eq!(other, output_dir_for_type_under(Some("/home/b"), "anything"));
    assert_eq!(other, default_output_dir_under(Some("/home/b")));
}

#[test]
fn finish_with_empty_output() {
    let p = plan_download("/libs", "/out", "https://youtu.be/a", MediaKind::Audio).unwrap();
    let ok = RunOutcome::Exited { success: true, stdout: Vec::new(), stderr: Vec::new() };
    let r = finish_audio_download(&p, &ok).unwrap();
    assert_eq!(r.title, "output");
    assert_eq!(r.path, "/out/output.mp3");
}
