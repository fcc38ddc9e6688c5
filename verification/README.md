# bad_apple

A terminal player for "Bad Apple!!" and other videos. What the player decides and computes is a
library with contracts, proved by Verus; the program around it does the input and output.

## The library: `src/`

| Module | What it holds |
|--------|---------------|
| `layout` | where the video stands on the terminal |
| `charset` | the characters for the four states of a cell, and the built-in render modes |
| `pixels` | colors of a frame, lit pixels, packed pixels |
| `rounding` | what single precision keeps of the numbers that it rounds |
| `screen` | cells of the screen, and what painting a text does to them |
| `render` | one picture: the video and the controls bar |
| `laws` | what a drawn screen shows, cell by cell |
| `player` | modes, keys, and which frame comes next |
| `meta` | the measures of a video: what is probed, kept, and read back |
| `cache` | where prepared videos are kept |
| `prepare` | what has to be done to prepare a video, in order, and with which commands |
| `text` | characters, numbers and words of a text |

Floating point stays outside: the program hands in what it scales and rounds as integers (how the
video fits, which pixels are sampled, what a brightness makes of them).

## The program: `app/`

`main.rs` plays a video. It needs `ffmpeg`, `ffprobe` and, for remote sources, `yt-dlp` in `PATH`.
`pack_frames.rs` is a small program of its own, which packs frames into one bit per pixel.

## The tests: `tests/`

Each law of the library on concrete values, edge cases, exact values, and every error message of the library.
