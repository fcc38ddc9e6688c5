//! Preparing a video: what has to be done, in which order, and with which commands.

use crate::meta::{kept_text, meta_of, meta_reads_back, VideoMeta};
use crate::text::{decimal, push_decimal};
use vstd::prelude::*;
use vstd::string::StringExecFns;

verus! {

/// The video that is prepared where no source is given.
pub const DEFAULT_URL: &'static str = "https://www.youtube.com/watch?v=FtutLA63Cp8";

/// What was found before a source is prepared.
#[derive(Debug, Clone, Copy, PartialEq, Eq, Structural)]
pub struct Found {
    /// The entry has frames.
    pub frames: bool,
    /// The measures of the entry, where they can be read.
    pub meta: Option<VideoMeta>,
    /// The entry has audio.
    pub audio: bool,
    /// The entry has the video that it was made of.
    pub video: bool,
    /// The source is a file on this machine.
    pub local: bool,
    /// The source is the very file that downloads go to.
    pub temporary: bool,
}

/// A program that preparing needs.
#[derive(Debug, Clone, Copy, PartialEq, Eq, Structural)]
pub enum Tool {
    Ffmpeg,
    Ffprobe,
    YtDlp,
}

/// Where the video is read from.
#[derive(Debug, Clone, Copy, PartialEq, Eq, Structural)]
pub enum VideoSource {
    /// The source itself, a file on this machine.
    Local,
    /// The video that the entry keeps.
    Cached,
    /// A fresh download.
    Downloaded,
}

/// One thing to do.
#[derive(Debug, Clone, Copy, PartialEq, Eq, Structural)]
pub enum Task {
    /// Make sure that a program is there.
    Check(Tool),
    /// Create the directory of the entry.
    CreateEntry,
    /// Download the video.
    Download,
    /// Measure the video and keep its measures.
    Measure(VideoSource),
    /// Take the audio out of the video.
    ExtractAudio(VideoSource),
    /// Take the frames out of the video.
    ExtractFrames(VideoSource),
    /// Move the file that downloads go to into the entry.
    StoreDownload,
    /// Copy the local file into the entry.
    StoreLocal,
    /// Note the entry as the one prepared last.
    SetLast,
}

/// Whether the frames can be used as they are: nothing is to be redone, and they have the width
/// asked for.
pub open spec fn frames_ok(download: bool, process: bool, frame_width: usize, found: Found) -> bool {
    &&& !download && !process
    &&& found.frames
    &&& found.meta is Some
    &&& found.meta->0.frame_width == frame_width
}

/// Whether the audio can be used as it is.
pub open spec fn audio_ok(download: bool, process: bool, found: Found) -> bool {
    !download && !process && found.audio
}

/// Where the video is read from: a local file itself; else the video of the entry, unless it is to
/// be downloaded again.
pub open spec fn source_of(download: bool, found: Found) -> VideoSource {
    if found.local {
        VideoSource::Local
    } else if !download && found.video {
        VideoSource::Cached
    } else {
        VideoSource::Downloaded
    }
}

/// The tasks that come before the video is measured.
pub open spec fn first_tasks(source: VideoSource) -> Seq<Task> {
    seq![Task::Check(Tool::Ffmpeg), Task::Check(Tool::Ffprobe), Task::CreateEntry] + (if source
        == VideoSource::Downloaded {
        seq![Task::Check(Tool::YtDlp), Task::Download]
    } else {
        seq![]
    })
}

/// The tasks that take audio and frames out of the video, as far as they are needed.
pub open spec fn extract_tasks(source: VideoSource, audio_ok: bool, frames_ok: bool) -> Seq<Task> {
    (if audio_ok {
        seq![]
    } else {
        seq![Task::ExtractAudio(source)]
    }) + (if frames_ok {
        seq![]
    } else {
        seq![Task::ExtractFrames(source)]
    })
}

/// The task that keeps the video in the entry, where it is not kept yet or is to be replaced: a
/// local file is copied, unless it is the very file that downloads go to.
pub open spec fn store_tasks(download: bool, source: VideoSource, found: Found) -> Seq<Task> {
    if found.video && !download {
        seq![]
    } else {
        match source {
            VideoSource::Downloaded => seq![Task::StoreDownload],
            VideoSource::Local => if found.temporary {
                seq![Task::StoreDownload]
            } else {
                seq![Task::StoreLocal]
            },
            VideoSource::Cached => seq![],
        }
    }
}

/// What has to be done, in order.
pub open spec fn plan(download: bool, process: bool, frame_width: usize, found: Found) -> Seq<Task> {
    let frames = frames_ok(download, process, frame_width, found);
    let audio = audio_ok(download, process, found);
    if frames && audio {
        seq![Task::SetLast]
    } else {
        let source = source_of(download, found);
        first_tasks(source) + seq![Task::Measure(source)] + extract_tasks(source, audio, frames)
            + store_tasks(download, source, found) + seq![Task::SetLast]
    }
}

/// Whether a video is to be prepared, rather than the last one replayed.
pub fn wants_preparing(source_given: bool, download: bool, process: bool) -> (r: bool)
    ensures
        r == (source_given || download || process),
{
    source_given || download || process
}

/// The source, or the default where none is given.
pub fn source_or_default(source: Option<String>) -> (r: String)
    ensures
        r@ == match source {
            Some(s) => s@,
            None => DEFAULT_URL@,
        },
{
    match source {
        Some(s) => s,
        None => DEFAULT_URL.to_owned(),
    }
}

/// What has to be done to prepare a source, in order. The first task that fails ends it.
///
/// `download` forces a new download and all that follows from it, `process` that audio and frames
/// are taken out of the video anew.
pub fn run(download: bool, process: bool, frame_width: usize, found: &Found) -> (tasks: Vec<Task>)
    ensures
        tasks@ == plan(download, process, frame_width, *found),
{
    // Cache hit: frames.bin and audio.mp3 exist at the right resolution
    let redo = download || process;
    let frames_ok = !redo && found.frames && match &found.meta {
        Some(meta) => meta.frame_width == frame_width,
        None => false,
    };
    let audio_ok = !redo && found.audio;
    let mut tasks: Vec<Task> = Vec::new();
    if frames_ok && audio_ok {
        tasks.push(Task::SetLast);
        return tasks;
    }
    // Use cached video.mp4 if available (avoids re-downloading for resolution changes)
    let source = if found.local {
        VideoSource::Local
    } else if !download && found.video {
        VideoSource::Cached
    } else {
        VideoSource::Downloaded
    };
    tasks.push(Task::Check(Tool::Ffmpeg));
    tasks.push(Task::Check(Tool::Ffprobe));
    tasks.push(Task::CreateEntry);
    if source == VideoSource::Downloaded {
        tasks.push(Task::Check(Tool::YtDlp));
        tasks.push(Task::Download);
    }
    assert(tasks@ =~= first_tasks(source));
    tasks.push(Task::Measure(source));
    let ghost measured = tasks@;
    if !audio_ok {
        tasks.push(Task::ExtractAudio(source));
    }
    if !frames_ok {
        tasks.push(Task::ExtractFrames(source));
    }
    assert(tasks@ =~= measured + extract_tasks(source, audio_ok, frames_ok));
    let ghost extracted = tasks@;
    // Keep video.mp4 in cache for future re-processing at a different resolution
    if !found.video || download {
        match source {
            VideoSource::Downloaded => tasks.push(Task::StoreDownload),
            VideoSource::Local => {
                if found.temporary {
                    tasks.push(Task::StoreDownload);
                } else {
                    tasks.push(Task::StoreLocal);
                }
            },
            VideoSource::Cached => {},
        }
    }
    assert(tasks@ =~= extracted + store_tasks(download, source, *found));
    tasks.push(Task::SetLast);
    tasks
}

proof fn lemma_plan_has(download: bool, process: bool, frame_width: usize, found: Found, task: Task)
    ensures
        ({
            let frames = frames_ok(download, process, frame_width, found);
            let audio = audio_ok(download, process, found);
            let source = source_of(download, found);
            plan(download, process, frame_width, found).contains(task) <==> if frames && audio {
                task == Task::SetLast
            } else {
                ||| task == Task::Check(Tool::Ffmpeg)
                ||| task == Task::Check(Tool::Ffprobe)
                ||| task == Task::CreateEntry
                ||| source == VideoSource::Downloaded && (task == Task::Check(Tool::YtDlp) || task
                    == Task::Download)
                ||| task == Task::Measure(source)
                ||| !audio && task == Task::ExtractAudio(source)
                ||| !frames && task == Task::ExtractFrames(source)
                ||| store_tasks(download, source, found).contains(task)
                ||| task == Task::SetLast
            }
        }),
{
    let frames = frames_ok(download, process, frame_width, found);
    let audio = audio_ok(download, process, found);
    let source = source_of(download, found);
    let all = plan(download, process, frame_width, found);
    if frames && audio {
        assert(all[0] == Task::SetLast);
    } else {
        let base = seq![Task::Check(Tool::Ffmpeg), Task::Check(Tool::Ffprobe), Task::CreateEntry];
        let fetch = if source == VideoSource::Downloaded {
            seq![Task::Check(Tool::YtDlp), Task::Download]
        } else {
            seq![]
        };
        let a = if audio {
            seq![]
        } else {
            seq![Task::ExtractAudio(source)]
        };
        let f = if frames {
            seq![]
        } else {
            seq![Task::ExtractFrames(source)]
        };
        let store = store_tasks(download, source, found);
        lemma_contains(base, fetch, task);
        lemma_contains(base + fetch, seq![Task::Measure(source)], task);
        lemma_contains(a, f, task);
        lemma_contains(first_tasks(source) + seq![Task::Measure(source)], a + f, task);
        lemma_contains(
            first_tasks(source) + seq![Task::Measure(source)] + (a + f),
            store,
            task,
        );
        lemma_contains(
            first_tasks(source) + seq![Task::Measure(source)] + (a + f) + store,
            seq![Task::SetLast],
            task,
        );
        lemma_few(base, task);
        lemma_few(fetch, task);
        lemma_few(a, task);
        lemma_few(f, task);
        lemma_few(seq![Task::Measure(source)], task);
        lemma_few(seq![Task::SetLast], task);
    }
}

proof fn lemma_contains(a: Seq<Task>, b: Seq<Task>, task: Task)
    ensures
        (a + b).contains(task) <==> a.contains(task) || b.contains(task),
{
    if a.contains(task) {
        let i = choose|i: int| 0 <= i < a.len() && a[i] == task;
        assert((a + b)[i] == task);
    }
    if b.contains(task) {
        let i = choose|i: int| 0 <= i < b.len() && b[i] == task;
        assert((a + b)[a.len() + i] == task);
    }
}

proof fn lemma_few(s: Seq<Task>, task: Task)
    requires
        s.len() <= 3,
    ensures
        s.contains(task) <==> {
            ||| s.len() > 0 && s[0] == task
            ||| s.len() > 1 && s[1] == task
            ||| s.len() > 2 && s[2] == task
        },
{
}

/// Every plan ends by noting the entry as the one prepared last, and does so once.
pub proof fn plan_ends_by_setting_last(
    download: bool,
    process: bool,
    frame_width: usize,
    found: Found,
)
    ensures
        ({
            let tasks = plan(download, process, frame_width, found);
            &&& tasks.len() > 0
            &&& tasks.last() == Task::SetLast
            &&& forall|i: int| 0 <= i < tasks.len() - 1 ==> #[trigger] tasks[i] != Task::SetLast
        }),
{
}

/// An entry with frames of the width asked for, and with audio, is used without any processing.
pub proof fn cached_assets_are_used(frame_width: usize, found: Found)
    requires
        found.frames,
        found.audio,
        found.meta is Some,
        found.meta->0.frame_width == frame_width,
    ensures
        plan(false, false, frame_width, found) == seq![Task::SetLast],
{
}

/// Processing anew takes audio and frames out of the video that the entry keeps, without a
/// download.
pub proof fn processing_anew_does_not_download(frame_width: usize, found: Found)
    requires
        found.video,
        !found.local,
    ensures
        ({
            let tasks = plan(false, true, frame_width, found);
            &&& tasks.contains(Task::ExtractAudio(VideoSource::Cached))
            &&& tasks.contains(Task::ExtractFrames(VideoSource::Cached))
            &&& !tasks.contains(Task::Download)
        }),
{
    lemma_plan_has(false, true, frame_width, found, Task::ExtractAudio(VideoSource::Cached));
    lemma_plan_has(false, true, frame_width, found, Task::ExtractFrames(VideoSource::Cached));
    lemma_plan_has(false, true, frame_width, found, Task::Download);
}

/// Downloading anew also takes audio and frames out of the new video, and replaces the one that
/// the entry keeps.
pub proof fn downloading_anew_processes(process: bool, frame_width: usize, found: Found)
    requires
        !found.local,
    ensures
        ({
            let tasks = plan(true, process, frame_width, found);
            &&& tasks.contains(Task::Check(Tool::YtDlp))
            &&& tasks.contains(Task::Download)
            &&& tasks.contains(Task::ExtractAudio(VideoSource::Downloaded))
            &&& tasks.contains(Task::ExtractFrames(VideoSource::Downloaded))
            &&& tasks.contains(Task::StoreDownload)
        }),
{
    let d = VideoSource::Downloaded;
    lemma_plan_has(true, process, frame_width, found, Task::Check(Tool::YtDlp));
    lemma_plan_has(true, process, frame_width, found, Task::Download);
    lemma_plan_has(true, process, frame_width, found, Task::ExtractAudio(d));
    lemma_plan_has(true, process, frame_width, found, Task::ExtractFrames(d));
    lemma_plan_has(true, process, frame_width, found, Task::StoreDownload);
    lemma_few(store_tasks(true, d, found), Task::StoreDownload);
}

/// A local file is never downloaded, and needs no download tool.
pub proof fn local_files_are_not_downloaded(
    download: bool,
    process: bool,
    frame_width: usize,
    found: Found,
)
    requires
        found.local,
    ensures
        ({
            let tasks = plan(download, process, frame_width, found);
            !tasks.contains(Task::Download) && !tasks.contains(Task::Check(Tool::YtDlp))
        }),
{
    lemma_plan_has(download, process, frame_width, found, Task::Download);
    lemma_plan_has(download, process, frame_width, found, Task::Check(Tool::YtDlp));
    lemma_few(store_tasks(download, source_of(download, found), found), Task::Download);
    lemma_few(
        store_tasks(download, source_of(download, found), found),
        Task::Check(Tool::YtDlp),
    );
}

/// Programs are looked for before anything is done, that for downloads right before a download.
pub proof fn tools_are_checked_first(
    download: bool,
    process: bool,
    frame_width: usize,
    found: Found,
    i: int,
)
    requires
        plan(download, process, frame_width, found).len() > 1,
        0 <= i < plan(download, process, frame_width, found).len(),
    ensures
        ({
            let tasks = plan(download, process, frame_width, found);
            &&& tasks[0] == Task::Check(Tool::Ffmpeg)
            &&& tasks[1] == Task::Check(Tool::Ffprobe)
            &&& tasks[i] == Task::Download ==> i > 0 && tasks[i - 1] == Task::Check(Tool::YtDlp)
        }),
{
}

/// A video is fetched before it is measured, and measured before anything is taken out of it.
pub proof fn video_is_measured_first(
    download: bool,
    process: bool,
    frame_width: usize,
    found: Found,
    i: int,
)
    requires
        0 <= i < plan(download, process, frame_width, found).len(),
    ensures
        ({
            let tasks = plan(download, process, frame_width, found);
            let source = source_of(download, found);
            &&& tasks[i] is Measure ==> tasks[i] == Task::Measure(source) && (source
                == VideoSource::Downloaded ==> i > 0 && tasks[i - 1] == Task::Download)
            &&& tasks[i] is ExtractAudio || tasks[i] is ExtractFrames ==> {
                &&& tasks[i] == Task::ExtractAudio(source) || tasks[i] == Task::ExtractFrames(source)
                &&& exists|j: int| 0 <= j < i && #[trigger] tasks[j] == Task::Measure(source)
            }
        }),
{
    let tasks = plan(download, process, frame_width, found);
    let source = source_of(download, found);
    if tasks.len() > 1 {
        let at = first_tasks(source).len() as int;
        assert(tasks[at] == Task::Measure(source));
    }
}

/// The entry of a source that had to be processed keeps its video: it had it, or gets it.
pub proof fn video_is_kept(download: bool, process: bool, frame_width: usize, found: Found)
    requires
        plan(download, process, frame_width, found).len() > 1,
    ensures
        ({
            let tasks = plan(download, process, frame_width, found);
            ||| found.video
            ||| tasks.contains(Task::StoreDownload)
            ||| tasks.contains(Task::StoreLocal)
        }),
{
    let source = source_of(download, found);
    let store = store_tasks(download, source, found);
    lemma_plan_has(download, process, frame_width, found, Task::StoreDownload);
    lemma_plan_has(download, process, frame_width, found, Task::StoreLocal);
    lemma_few(store, Task::StoreDownload);
    lemma_few(store, Task::StoreLocal);
}

/// Once a source is prepared at some width, with frames, audio and measures in place, it is used
/// at that width without any processing.
pub proof fn prepared_source_is_cached(meta: VideoMeta, found: Found)
    requires
        found.frames,
        found.audio,
        found.meta == match meta_of(kept_text(meta)) {
            Ok(m) => Some(m),
            Err(_) => None,
        },
    ensures
        plan(false, false, meta.frame_width, found) == seq![Task::SetLast],
{
    meta_reads_back(meta);
}

/// The texts of a list.
pub open spec fn texts(list: Seq<String>) -> Seq<Seq<char>> {
    list.map_values(|s: String| s@)
}

fn push_arg(args: &mut Vec<String>, arg: &str)
    ensures
        texts(final(args)@) == texts(old(args)@).push(arg@),
{
    args.push(arg.to_owned());
    assert(texts(args@) =~= texts(old(args)@).push(arg@));
}

/// An option with its value, where there is one.
pub open spec fn option_args(name: Seq<char>, value: Option<Seq<char>>) -> Seq<Seq<char>> {
    match value {
        Some(v) => seq![name, v],
        None => seq![],
    }
}

fn push_option(args: &mut Vec<String>, name: &str, value: Option<&str>)
    ensures
        texts(final(args)@) == texts(old(args)@) + option_args(
            name@,
            match value {
                Some(v) => Some(v@),
                None => None,
            },
        ),
{
    if let Some(v) = value {
        push_arg(args, name);
        push_arg(args, v);
    }
    assert(texts(args@) =~= texts(old(args)@) + option_args(
        name@,
        match value {
            Some(v) => Some(v@),
            None => None,
        },
    ));
}

/// The arguments with which yt-dlp downloads a video as MP4, at 480 rows at most where there is a
/// choice: terminal rendering doesn't benefit from higher resolutions.
pub fn download_args(
    url: &str,
    output: &str,
    cookies_from_browser: Option<&str>,
    cookies: Option<&str>,
    extractor_args: Option<&str>,
) -> (args: Vec<String>)
    ensures
        texts(args@) == seq![
            "-f"@,
            "bestvideo[height<=480]+bestaudio/best[height<=480]/best"@,
            "-o"@,
            output@,
            "--merge-output-format"@,
            "mp4"@,
        ] + option_args(
            "--cookies-from-browser"@,
            match cookies_from_browser {
                Some(v) => Some(v@),
                None => None,
            },
        ) + option_args(
            "--cookies"@,
            match cookies {
                Some(v) => Some(v@),
                None => None,
            },
        ) + option_args(
            "--extractor-args"@,
            match extractor_args {
                Some(v) => Some(v@),
                None => None,
            },
        ) + seq![url@],
{
    let mut args: Vec<String> = Vec::new();
    push_arg(&mut args, "-f");
    push_arg(&mut args, "bestvideo[height<=480]+bestaudio/best[height<=480]/best");
    push_arg(&mut args, "-o");
    push_arg(&mut args, output);
    push_arg(&mut args, "--merge-output-format");
    push_arg(&mut args, "mp4");
    assert(texts(args@) =~= seq![
        "-f"@,
        "bestvideo[height<=480]+bestaudio/best[height<=480]/best"@,
        "-o"@,
        output@,
        "--merge-output-format"@,
        "mp4"@,
    ]);
    push_option(&mut args, "--cookies-from-browser", cookies_from_browser);
    push_option(&mut args, "--cookies", cookies);
    push_option(&mut args, "--extractor-args", extractor_args);
    let ghost before = texts(args@);
    push_arg(&mut args, url);
    assert(texts(args@) =~= before + seq![url@]);
    args
}

/// The arguments with which ffprobe reports width and height of a video.
pub fn probe_args(input: &str) -> (args: Vec<String>)
    ensures
        texts(args@) == seq![
            "-v"@,
            "error"@,
            "-select_streams"@,
            "v:0"@,
            "-show_entries"@,
            "stream=width,height"@,
            "-of"@,
            "default=noprint_wrappers=1:nokey=1"@,
            input@,
        ],
{
    let mut args: Vec<String> = Vec::new();
    push_arg(&mut args, "-v");
    push_arg(&mut args, "error");
    push_arg(&mut args, "-select_streams");
    push_arg(&mut args, "v:0");
    push_arg(&mut args, "-show_entries");
    push_arg(&mut args, "stream=width,height");
    push_arg(&mut args, "-of");
    push_arg(&mut args, "default=noprint_wrappers=1:nokey=1");
    push_arg(&mut args, input);
    args
}

/// The arguments with which ffmpeg takes the audio out of a video.
pub fn extract_audio_args(input: &str, output: &str) -> (args: Vec<String>)
    ensures
        texts(args@) == seq!["-y"@, "-i"@, input@, "-q:a"@, "0"@, "-map"@, "a"@, output@],
{
    let mut args: Vec<String> = Vec::new();
    push_arg(&mut args, "-y");
    push_arg(&mut args, "-i");
    push_arg(&mut args, input);
    push_arg(&mut args, "-q:a");
    push_arg(&mut args, "0");
    push_arg(&mut args, "-map");
    push_arg(&mut args, "a");
    push_arg(&mut args, output);
    args
}

/// The filter that scales a video and gives it 30 frames per second.
pub open spec fn scale_filter(frame_w: usize, frame_h: usize) -> Seq<char> {
    "scale="@ + decimal(frame_w as nat) + ":"@ + decimal(frame_h as nat) + ",fps=30"@
}

/// The arguments with which ffmpeg takes the frames out of a video, three bytes to a pixel.
pub fn extract_frames_args(input: &str, output: &str, frame_w: usize, frame_h: usize) -> (args: Vec<
    String,
>)
    ensures
        texts(args@) == seq![
            "-y"@,
            "-i"@,
            input@,
            "-vf"@,
            scale_filter(frame_w, frame_h),
            "-f"@,
            "rawvideo"@,
            "-pix_fmt"@,
            "rgb24"@,
            output@,
        ],
{
    let mut filter = "scale=".to_owned();
    push_decimal(&mut filter, frame_w);
    filter.append(":");
    push_decimal(&mut filter, frame_h);
    filter.append(",fps=30");
    let mut args: Vec<String> = Vec::new();
    push_arg(&mut args, "-y");
    push_arg(&mut args, "-i");
    push_arg(&mut args, input);
    push_arg(&mut args, "-vf");
    push_arg(&mut args, filter.as_str());
    push_arg(&mut args, "-f");
    push_arg(&mut args, "rawvideo");
    push_arg(&mut args, "-pix_fmt");
    push_arg(&mut args, "rgb24");
    push_arg(&mut args, output);
    args
}

/// The name of a program.
pub open spec fn tool_name_of(tool: Tool) -> Seq<char> {
    match tool {
        Tool::Ffmpeg => "ffmpeg"@,
        Tool::Ffprobe => "ffprobe"@,
        Tool::YtDlp => "yt-dlp"@,
    }
}

/// Where a program can be had.
pub open spec fn tool_url_of(tool: Tool) -> Seq<char> {
    match tool {
        Tool::Ffmpeg => "https://ffmpeg.org/download.html"@,
        Tool::Ffprobe => "https://ffmpeg.org/download.html"@,
        Tool::YtDlp => "https://github.com/yt-dlp/yt-dlp"@,
    }
}

/// The name of a program.
pub fn tool_name(tool: Tool) -> (r: &'static str)
    ensures
        r@ == tool_name_of(tool),
{
    match tool {
        Tool::Ffmpeg => "ffmpeg",
        Tool::Ffprobe => "ffprobe",
        Tool::YtDlp => "yt-dlp",
    }
}

/// Where a program can be had.
pub fn tool_url(tool: Tool) -> (r: &'static str)
    ensures
        r@ == tool_url_of(tool),
{
    match tool {
        Tool::Ffmpeg => "https://ffmpeg.org/download.html",
        Tool::Ffprobe => "https://ffmpeg.org/download.html",
        Tool::YtDlp => "https://github.com/yt-dlp/yt-dlp",
    }
}

/// What a program's start says of its presence.
pub fn check_tool(tool: Tool, started: bool) -> (r: Result<(), String>)
    ensures
        match r {
            Ok(_) => started,
            Err(message) => !started && message@ == "`"@ + tool_name_of(tool)
                + "` not found in PATH. Install it from "@ + tool_url_of(tool),
        },
{
    if started {
        return Ok(());
    }
    let mut message = "`".to_owned();
    message.append(tool_name(tool));
    message.append("` not found in PATH. Install it from ");
    message.append(tool_url(tool));
    Err(message)
}

/// What a program's exit says of a task. Only a download and the two extractions end with one.
pub fn task_outcome(task: Task, success: bool) -> (r: Result<(), String>)
    ensures
        match r {
            Ok(_) => success || !(task is Download || task is ExtractAudio || task is ExtractFrames),
            Err(message) => !success && match task {
                Task::Download => message@ == "yt-dlp failed to download the video."@,
                Task::ExtractAudio(_) => message@ == "ffmpeg failed to extract audio."@,
                Task::ExtractFrames(_) => message@ == "ffmpeg failed to extract frames."@,
                _ => false,
            },
        },
{
    if success {
        return Ok(());
    }
    match task {
        Task::Download => Err("yt-dlp failed to download the video.".to_owned()),
        Task::ExtractAudio(_) => Err("ffmpeg failed to extract audio.".to_owned()),
        Task::ExtractFrames(_) => Err("ffmpeg failed to extract frames.".to_owned()),
        _ => Ok(()),
    }
}

/// Frames are taken out of the video exactly where something is to be redone, or the entry has no
/// frames, no measures, or frames of another width than the one asked for, narrower or wider.
pub proof fn frames_are_extracted_where_needed(
    download: bool,
    process: bool,
    frame_width: usize,
    found: Found,
)
    ensures
        ({
            let tasks = plan(download, process, frame_width, found);
            let needed = {
                ||| download
                ||| process
                ||| !found.frames
                ||| found.meta is None
                ||| found.meta->0.frame_width < frame_width
                ||| found.meta->0.frame_width > frame_width
            };
            &&& needed <==> exists|i: int| 0 <= i < tasks.len() && (#[trigger] tasks[i]) is ExtractFrames
            &&& needed ==> tasks.contains(
                Task::ExtractFrames(
                    if found.local {
                        VideoSource::Local
                    } else if found.video && !download {
                        VideoSource::Cached
                    } else {
                        VideoSource::Downloaded
                    },
                ),
            )
        }),
{
    let tasks = plan(download, process, frame_width, found);
    let source = source_of(download, found);
    let task = Task::ExtractFrames(source);
    lemma_plan_has(download, process, frame_width, found, task);
    lemma_few(store_tasks(download, source, found), task);
    if tasks.contains(task) {
        let i = choose|i: int| 0 <= i < tasks.len() && tasks[i] == task;
        assert(tasks[i] is ExtractFrames);
    }
    if exists|i: int| 0 <= i < tasks.len() && (#[trigger] tasks[i]) is ExtractFrames {
        let i = choose|i: int| 0 <= i < tasks.len() && (#[trigger] tasks[i]) is ExtractFrames;
        assert(tasks.contains(tasks[i]));
        lemma_plan_has(download, process, frame_width, found, tasks[i]);
        lemma_few(store_tasks(download, source, found), tasks[i]);
    }
}

/// Which tasks a plan has: each of them exactly where what it does is needed. Work is needed where
/// something is to be redone, audio or frames are missing, or the frames are not known to have the
/// width asked for.
pub proof fn plan_has_what_is_needed(
    download: bool,
    process: bool,
    frame_width: usize,
    found: Found,
)
    ensures
        ({
            let tasks = plan(download, process, frame_width, found);
            let work = {
                ||| download
                ||| process
                ||| !found.audio
                ||| !found.frames
                ||| found.meta is None
                ||| found.meta->0.frame_width != frame_width
            };
            let fetch = work && !found.local && (download || !found.video);
            let store = work && (download || !found.video);
            &&& tasks.contains(Task::SetLast)
            &&& tasks.contains(Task::Check(Tool::Ffmpeg)) <==> work
            &&& tasks.contains(Task::Check(Tool::Ffprobe)) <==> work
            &&& tasks.contains(Task::CreateEntry) <==> work
            &&& tasks.contains(Task::Check(Tool::YtDlp)) <==> fetch
            &&& tasks.contains(Task::Download) <==> fetch
            &&& tasks.contains(Task::Measure(VideoSource::Local)) <==> work && found.local
            &&& tasks.contains(Task::Measure(VideoSource::Cached)) <==> work && !found.local
                && !download && found.video
            &&& tasks.contains(Task::Measure(VideoSource::Downloaded)) <==> fetch
            &&& tasks.contains(Task::ExtractAudio(VideoSource::Local)) <==> found.local && (download
                || process || !found.audio)
            &&& tasks.contains(Task::ExtractAudio(VideoSource::Cached)) <==> !found.local
                && !download && found.video && (process || !found.audio)
            &&& tasks.contains(Task::ExtractAudio(VideoSource::Downloaded)) <==> !found.local && (
            download || !found.video) && (download || process || !found.audio)
            &&& tasks.contains(Task::StoreDownload) <==> store && (!found.local || found.temporary)
            &&& tasks.contains(Task::StoreLocal) <==> store && found.local && !found.temporary
        }),
{
    let (d, p, w, f) = (download, process, frame_width, found);
    lemma_plan_and_store(d, p, w, f, Task::SetLast);
    lemma_plan_and_store(d, p, w, f, Task::Check(Tool::Ffmpeg));
    lemma_plan_and_store(d, p, w, f, Task::Check(Tool::Ffprobe));
    lemma_plan_and_store(d, p, w, f, Task::CreateEntry);
    lemma_plan_and_store(d, p, w, f, Task::Check(Tool::YtDlp));
    lemma_plan_and_store(d, p, w, f, Task::Download);
    lemma_plan_and_store(d, p, w, f, Task::Measure(VideoSource::Local));
    lemma_plan_and_store(d, p, w, f, Task::Measure(VideoSource::Cached));
    lemma_plan_and_store(d, p, w, f, Task::Measure(VideoSource::Downloaded));
    lemma_plan_and_store(d, p, w, f, Task::ExtractAudio(VideoSource::Local));
    lemma_plan_and_store(d, p, w, f, Task::ExtractAudio(VideoSource::Cached));
    lemma_plan_and_store(d, p, w, f, Task::ExtractAudio(VideoSource::Downloaded));
    lemma_plan_and_store(d, p, w, f, Task::StoreDownload);
    lemma_plan_and_store(d, p, w, f, Task::StoreLocal);
}

/// What a plan has, with the tasks that keep the video spelled out.
proof fn lemma_plan_and_store(
    download: bool,
    process: bool,
    frame_width: usize,
    found: Found,
    task: Task,
)
    ensures
        ({
            let frames = frames_ok(download, process, frame_width, found);
            let audio = audio_ok(download, process, found);
            let source = source_of(download, found);
            let store = store_tasks(download, source, found);
            plan(download, process, frame_width, found).contains(task) <==> if frames && audio {
                task == Task::SetLast
            } else {
                ||| task == Task::Check(Tool::Ffmpeg)
                ||| task == Task::Check(Tool::Ffprobe)
                ||| task == Task::CreateEntry
                ||| source == VideoSource::Downloaded && (task == Task::Check(Tool::YtDlp) || task
                    == Task::Download)
                ||| task == Task::Measure(source)
                ||| !audio && task == Task::ExtractAudio(source)
                ||| !frames && task == Task::ExtractFrames(source)
                ||| store.len() > 0 && task == store[0]
                ||| task == Task::SetLast
            }
        }),
{
    let store = store_tasks(download, source_of(download, found), found);
    lemma_plan_has(download, process, frame_width, found, task);
    lemma_few(store, task);
}

/// The tasks of a plan come in turn, and none of them twice: programs are looked for, the entry is
/// created, the video is fetched, measured and taken apart, it is kept, and the entry is noted.
pub proof fn tasks_come_in_turn(
    download: bool,
    process: bool,
    frame_width: usize,
    found: Found,
    i: int,
    j: int,
)
    requires
        0 <= i < j < plan(download, process, frame_width, found).len(),
    ensures
        ({
            let tasks = plan(download, process, frame_width, found);
            let turn = |task: Task|
                match task {
                    Task::Check(Tool::Ffmpeg) => 0int,
                    Task::Check(Tool::Ffprobe) => 1,
                    Task::CreateEntry => 2,
                    Task::Check(Tool::YtDlp) => 3,
                    Task::Download => 4,
                    Task::Measure(_) => 5,
                    Task::ExtractAudio(_) => 6,
                    Task::ExtractFrames(_) => 7,
                    Task::StoreDownload => 8,
                    Task::StoreLocal => 8,
                    Task::SetLast => 9,
                };
            turn(tasks[i]) < turn(tasks[j]) && tasks[i] != tasks[j]
        }),
{
}

/// The texts of a list are those of its members, in order.
pub proof fn texts_keep_order(list: Seq<String>, i: int)
    requires
        0 <= i < list.len(),
    ensures
        texts(list).len() == list.len(),
        texts(list)[i] == list[i]@,
{
}

/// An option that is given is its name and its value, and one that is not is nothing.
pub proof fn options_are_name_and_value(name: Seq<char>, value: Seq<char>)
    ensures
        option_args(name, Some(value)) == seq![name, value],
        option_args(name, None).len() == 0,
{
}

/// The filter names width and height in decimal, in this order.
pub proof fn filter_names_width_and_height(frame_w: usize, frame_h: usize)
    ensures
        scale_filter(frame_w, frame_h) == "scale="@ + decimal(frame_w as nat) + ":"@ + decimal(
            frame_h as nat,
        ) + ",fps=30"@,
{
}

} // verus!
