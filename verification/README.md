# url-mp3-core

Downloads the audio (or video) of a YouTube URL with yt-dlp and ffmpeg.

- `src/` is the verified library: the URL check, where the yt-dlp and ffmpeg
  binaries live, the planning of a yt-dlp run (its arguments and paths), and the
  reading of what yt-dlp prints, down to substring search, line splitting,
  trimming and Unix path joining. Paths are held as text.
- `app/` holds the programs: the interactive downloader, a plain command-line
  downloader (`cli`) and an HTTP download server (`serve`). They check the file
  system, install the binaries, run yt-dlp and stream files.
- `tests/` exercises the library, and compares its text and path functions with
  those of `std`.
