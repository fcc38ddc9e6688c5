use bad_apple::meta::VideoMeta;
use bad_apple::prepare::{
    check_tool, download_args, extract_audio_args, extract_frames_args, probe_args, run,
    source_or_default, task_outcome, tool_name, tool_url, wants_preparing, Found, Task, Tool,
    VideoSource, DEFAULT_URL,
};

const NOTHING: Found =
    Found { frames: false, meta: None, audio: false, video: false, local: false, temporary: false };

fn prepared(frame_width: usize) -> Found {
    let meta = VideoMeta { orig_width: 1920, orig_height: 1080, frame_width, frame_height: 180 };
    Found { frames: true, meta: Some(meta), audio: true, video: true, local: false, temporary: false }
}

#[test]
fn new_remote_source() {
    let d = VideoSource::Downloaded;
    assert_eq!(
        run(false, false, 320, &NOTHING),
        vec![
            Task::Check(Tool::Ffmpeg),
            Task::Check(Tool::Ffprobe),
            Task::CreateEntry,
            Task::Check(Tool::YtDlp),
            Task::Download,
            Task::Measure(d),
            Task::ExtractAudio(d),
            Task::ExtractFrames(d),
            Task::StoreDownload,
            Task::SetLast,
        ]
    );
}

#[test]
fn new_local_source() {
    let l = VideoSource::Local;
    assert_eq!(
        run(false, false, 320, &Found { local: true, ..NOTHING }),
        vec![
            Task::Check(Tool::Ffmpeg),
            Task::Check(Tool::Ffprobe),
            Task::CreateEntry,
            Task::Measure(l),
            Task::ExtractAudio(l),
            Task::ExtractFrames(l),
            Task::StoreLocal,
            Task::SetLast,
        ]
    );
}

#[test]
fn prepared_source_is_only_noted() {
    assert_eq!(run(false, false, 320, &prepared(320)), vec![Task::SetLast]);
}

#[test]
fn other_width_takes_new_frames_from_the_cached_video() {
    let c = VideoSource::Cached;
    assert_eq!(
        run(false, false, 160, &prepared(320)),
        vec![
            Task::Check(Tool::Ffmpeg),
            Task::Check(Tool::Ffprobe),
            Task::CreateEntry,
            Task::Measure(c),
            Task::ExtractFrames(c),
            Task::SetLast,
        ]
    );
}

#[test]
fn missing_audio_is_taken_alone() {
    let tasks = run(false, false, 320, &Found { audio: false, ..prepared(320) });
    assert!(tasks.contains(&Task::ExtractAudio(VideoSource::Cached)));
    assert!(!tasks.contains(&Task::ExtractFrames(VideoSource::Cached)));
}

#[test]
fn processing_anew_keeps_the_video() {
    let tasks = run(false, true, 320, &prepared(320));
    assert!(tasks.contains(&Task::ExtractAudio(VideoSource::Cached)));
    assert!(tasks.contains(&Task::ExtractFrames(VideoSource::Cached)));
    assert!(!tasks.contains(&Task::Download));
}

#[test]
fn downloading_anew_replaces_the_video() {
    let tasks = run(true, false, 320, &prepared(320));
    assert_eq!(tasks[3..5], [Task::Check(Tool::YtDlp), Task::Download]);
    assert!(tasks.contains(&Task::ExtractAudio(VideoSource::Downloaded)));
    assert!(tasks.contains(&Task::ExtractFrames(VideoSource::Downloaded)));
    assert_eq!(tasks[tasks.len() - 2..], [Task::StoreDownload, Task::SetLast]);
}

#[test]
fn local_files_are_copied_again_only_by_force() {
    let found = Found { local: true, ..prepared(320) };
    assert!(!run(false, false, 160, &found).contains(&Task::StoreLocal));
    assert!(run(true, false, 160, &found).contains(&Task::StoreLocal));
    assert!(!run(true, true, 160, &found).contains(&Task::Download));
}

#[test]
fn every_plan_measures_first_and_keeps_the_video() {
    for bits in 0..128u32 {
        let bit = |i: u32| bits >> i & 1 == 1;
        let meta = VideoMeta {
            orig_width: 4,
            orig_height: 3,
            frame_width: 320,
            frame_height: 240,
        };
        let found = Found {
            frames: bit(0),
            meta: Some(meta),
            audio: bit(1),
            video: bit(2),
            local: bit(3),
            temporary: bit(6),
        };
        let tasks = run(bit(4), bit(5), 320, &found);
        assert_eq!(tasks.iter().filter(|t| **t == Task::SetLast).count(), 1);
        assert_eq!(tasks[tasks.len() - 1], Task::SetLast);
        if tasks.len() == 1 {
            continue;
        }
        assert_eq!(tasks[..2], [Task::Check(Tool::Ffmpeg), Task::Check(Tool::Ffprobe)]);
        let measured = tasks.iter().position(|t| matches!(t, Task::Measure(_))).unwrap();
        if let Some(i) = tasks.iter().position(|t| *t == Task::Download) {
            assert_eq!(i + 1, measured);
            assert_eq!(tasks[i - 1], Task::Check(Tool::YtDlp));
            assert!(!found.local);
        }
        for (i, task) in tasks.iter().enumerate() {
            if matches!(task, Task::ExtractAudio(_) | Task::ExtractFrames(_)) {
                assert!(measured < i);
            }
        }
        let stored = tasks.contains(&Task::StoreDownload) || tasks.contains(&Task::StoreLocal);
        assert!(found.video || stored);
    }
}

#[test]
fn temporary_file_as_source_is_moved() {
    let found = Found { local: true, temporary: true, ..NOTHING };
    let tasks = run(false, false, 320, &found);
    assert!(tasks.contains(&Task::StoreDownload));
    assert!(!tasks.contains(&Task::StoreLocal) && !tasks.contains(&Task::Download));
}

#[test]
fn sources() {
    assert_eq!(source_or_default(Some("a.mp4".to_string())), "a.mp4");
    assert_eq!(source_or_default(None), DEFAULT_URL);
    assert_eq!(DEFAULT_URL, "https://www.youtube.com/watch?v=FtutLA63Cp8");
    assert!(!wants_preparing(false, false, false));
    assert!(wants_preparing(true, false, false));
    assert!(wants_preparing(false, true, false));
    assert!(wants_preparing(false, false, true));
}

#[test]
fn commands() {
    assert_eq!(
        download_args("URL", "/tmp/v.mp4", None, None, None),
        vec![
            "-f",
            "bestvideo[height<=480]+bestaudio/best[height<=480]/best",
            "-o",
            "/tmp/v.mp4",
            "--merge-output-format",
            "mp4",
            "URL",
        ]
    );
    assert_eq!(
        download_args("URL", "o", Some("chrome"), Some("c.txt"), Some("a=b"))[6..],
        ["--cookies-from-browser", "chrome", "--cookies", "c.txt", "--extractor-args", "a=b", "URL"]
    );
    assert_eq!(
        probe_args("in.mp4"),
        vec![
            "-v",
            "error",
            "-select_streams",
            "v:0",
            "-show_entries",
            "stream=width,height",
            "-of",
            "default=noprint_wrappers=1:nokey=1",
            "in.mp4",
        ]
    );
    assert_eq!(
        extract_audio_args("i", "o"),
        vec!["-y", "-i", "i", "-q:a", "0", "-map", "a", "o"]
    );
    assert_eq!(
        extract_frames_args("i", "o", 320, 180),
        vec![
            "-y", "-i", "i", "-vf", "scale=320:180,fps=30", "-f", "rawvideo", "-pix_fmt", "rgb24",
            "o",
        ]
    );
}

#[test]
fn failures() {
    assert_eq!(tool_name(Tool::YtDlp), "yt-dlp");
    assert_eq!(tool_url(Tool::Ffprobe), "https://ffmpeg.org/download.html");
    assert_eq!(check_tool(Tool::Ffmpeg, true), Ok(()));
    assert_eq!(
        check_tool(Tool::Ffmpeg, false),
        Err("`ffmpeg` not found in PATH. Install it from https://ffmpeg.org/download.html"
            .to_string())
    );
    assert_eq!(
        check_tool(Tool::Ffprobe, false),
        Err("`ffprobe` not found in PATH. Install it from https://ffmpeg.org/download.html"
            .to_string())
    );
    assert_eq!(
        check_tool(Tool::YtDlp, false),
        Err("`yt-dlp` not found in PATH. Install it from https://github.com/yt-dlp/yt-dlp"
            .to_string())
    );
    assert_eq!(check_tool(Tool::Ffprobe, true), Ok(()));
    assert_eq!(check_tool(Tool::YtDlp, true), Ok(()));
    let s = VideoSource::Local;
    assert_eq!(task_outcome(Task::Download, true), Ok(()));
    assert_eq!(
        task_outcome(Task::Download, false),
        Err("yt-dlp failed to download the video.".to_string())
    );
    assert_eq!(
        task_outcome(Task::ExtractAudio(s), false),
        Err("ffmpeg failed to extract audio.".to_string())
    );
    assert_eq!(
        task_outcome(Task::ExtractFrames(s), false),
        Err("ffmpeg failed to extract frames.".to_string())
    );
}
