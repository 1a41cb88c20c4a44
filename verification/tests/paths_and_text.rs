use std::path::{Path, PathBuf};
use url_mp3_core::paths::{join_path, path_file_name, path_file_stem};
use url_mp3_core::text::{
    chars_of, first_line_with_exec, segment_after_exec, str_contains, trim_exec, CharClass,
};

const SAMPLE_PATHS: &[&str] = &[
    "", "/", "//", ".", "..", "a", "a/", "a/.", "a/..", "./a", "../a", "/a/b.c", "a//b/",
    "foo.txt/.", "foo.txt/.//", "/x/.bashrc", "/x/archive.tar.gz", "name.", "/x/.", "/.",
    "Song Title.mp3", "/out/My Video.webm", "a/b/...", "a b/c d.e f",
];

#[test]
fn join_matches_std() {
    let parts = ["yt-dlp", "/abs", "", "x/y", ".", "..", "%(title)s.%(ext)s", "a/"];
    for base in SAMPLE_PATHS {
        for part in parts {
            let expected = PathBuf::from(base).join(part);
            assert_eq!(join_path(base, part), expected.to_str().unwrap(), "{base:?} + {part:?}");
        }
    }
}

#[test]
fn file_name_matches_std() {
    for p in SAMPLE_PATHS {
        let expected = Path::new(p).file_name().map(|s| s.to_str().unwrap().to_string());
        assert_eq!(path_file_name(p), expected, "{p:?}");
    }
}

#[test]
fn file_stem_matches_std() {
    for p in SAMPLE_PATHS {
        let expected = Path::new(p).file_stem().map(|s| s.to_str().unwrap().to_string());
        assert_eq!(path_file_stem(p), expected, "{p:?}");
    }
}

#[test]
fn join_examples() {
    assert_eq!(join_path("/opt/libs", "yt-dlp"), "/opt/libs/yt-dlp");
    assert_eq!(join_path("/opt/libs/", "yt-dlp"), "/opt/libs/yt-dlp");
    assert_eq!(join_path("", "yt-dlp"), "yt-dlp");
    assert_eq!(join_path("/opt", "/etc"), "/etc");
}

fn s(v: &[char]) -> String {
    v.iter().collect()
}

#[test]
fn trim_matches_std() {
    let samples = [
        "", "   ", "  a b  ", "\t\n x \r\n", "\u{3000}x\u{2009}", "\u{85}y\u{a0}",
        "\u{200b}z\u{200b}", "no-trim", " \u{1680}w\u{205f} ",
    ];
    for t in samples {
        let got = trim_exec(&chars_of(t), CharClass::Whitespace);
        assert_eq!(s(&got), t.trim(), "{t:?}");
    }
    let quoted = ["\"a\"", "\"\"x\"", "x", "\"", "\"\"", " \"a\" "];
    for t in quoted {
        let got = trim_exec(&chars_of(t), CharClass::Quote);
        assert_eq!(s(&got), t.trim_matches('"'), "{t:?}");
    }
}

#[test]
fn segment_after_matches_std() {
    let samples = [
        "[download] Destination: /a/b.webm",
        "Destination: x Destination: y",
        "no marker here",
        "Destination:",
        "aDestination:Destination:b",
    ];
    let d = chars_of("Destination:");
    for t in samples {
        let got = segment_after_exec(&chars_of(t), &d).map(|v| s(&v));
        let expected = t.split("Destination:").nth(1).map(|x| x.to_string());
        assert_eq!(got, expected, "{t:?}");
    }
}

#[test]
fn first_line_matches_std() {
    let texts = [
        "",
        "\n",
        "a\nb Destination: c.mp3\r\nDestination: d.mp3\n",
        "x Destination: y.mp3\r",
        "one\r\ntwo\r\n",
        "Destination:\n.mp3\nDestination: .mp3",
    ];
    let a = chars_of("Destination:");
    let b = chars_of(".mp3");
    for t in texts {
        let got = first_line_with_exec(&chars_of(t), &a, &b).map(|v| s(&v));
        let expected = t
            .lines()
            .find(|l| l.contains("Destination:") && l.contains(".mp3"))
            .map(|l| l.to_string());
        assert_eq!(got, expected, "{t:?}");
    }
}

#[test]
fn contains_examples() {
    assert!(str_contains("abcabd", "abd"));
    assert!(str_contains("abc", ""));
    assert!(!str_contains("ab", "abc"));
    assert!(!str_contains("aXbc", "abc"));
}
