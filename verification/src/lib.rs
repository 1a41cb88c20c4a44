//! Helpers for fetching YouTube audio (and video) with yt-dlp: the URL check, where
//! the yt-dlp and ffmpeg binaries live, the command line handed to yt-dlp, and the
//! reading of what it prints. Paths are held as text and joined the way
//! `std::path` joins them on Unix.
pub mod binaries;
pub mod download;
pub mod error;
pub mod output;
pub mod paths;
pub mod server;
pub mod text;

pub use binaries::{get_ffmpeg_path, get_libs_dir, get_yt_dlp_path};
pub use download::{
    check_binaries, finish_audio_download, finish_video_download, get_default_output_dir,
    is_youtube_url, plan_download, DownloadPlan, DownloadResult, MediaKind, RunOutcome,
};
pub use error::DownloadError;
