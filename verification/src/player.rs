//! The player: its modes, its keys, and which frame comes next.

use crate::charset::{
    builtin_colorize, builtin_modes, builtin_name, chars_message, gradient_message, is_mode_index,
    mode_index, next_mode, previous_mode, render_mode_for_builtin, render_mode_of, widest,
    widths_of, CharSet, RenderMode, MODE_COUNT,
};
use crate::text::decimal;
use vstd::prelude::*;

verus! {

/// The flags that stand for `--mode` with the name of a built-in mode.
#[derive(Debug, Clone, Copy, PartialEq, Eq, Structural)]
pub struct ModeFlags {
    pub full_color: bool,
    pub ascii_color: bool,
    pub ascii: bool,
    pub braille: bool,
    pub korean: bool,
    pub shading: bool,
}

/// A key.
#[derive(Debug, Clone, Copy, PartialEq, Eq, Structural)]
pub enum Key {
    Char(char),
    Esc,
    Up,
    Down,
    Left,
    Right,
    Other,
}

/// What is to be done after a key.
#[derive(Debug, Clone, Copy, PartialEq, Eq, Structural)]
pub enum Response {
    Nothing,
    Quit,
    /// Playing has been paused: stop the audio and draw again.
    Pause,
    /// Playing goes on: start the audio and draw again.
    Resume,
    /// Go back ten seconds.
    SeekBack,
    /// Go forward ten seconds.
    SeekForward,
    Brighter,
    Darker,
}

/// What is to be done for the frame that is due.
#[derive(Debug, Clone, Copy, PartialEq, Eq, Structural)]
pub enum Due {
    /// Nothing: it is drawn, or playing is paused.
    Wait,
    /// Read the next frame and draw it.
    ReadNext,
    /// Go to this byte of the frames, read the frame there and draw it.
    SeekAndRead(u64),
}

/// The state of the player.
pub struct Player {
    pub mode_idx: usize,
    pub render_mode: RenderMode,
    pub mode_label: String,
    pub colorize: bool,
    pub monochrome: bool,
    pub show_controls: bool,
    pub paused: bool,
    pub current_frame: usize,
    pub done: bool,
}

/// The state of the player, with its label as characters.
pub struct PlayerView {
    pub mode_idx: usize,
    pub render_mode: RenderMode,
    pub mode_label: Seq<char>,
    pub colorize: bool,
    pub monochrome: bool,
    pub show_controls: bool,
    pub paused: bool,
    pub current_frame: usize,
    pub done: bool,
}

impl PlayerView {
    /// Whether the mode is one of the built-in modes, none of the characters in use is wider than
    /// its slot, and their columns are those of their kind.
    pub open spec fn wf(self) -> bool {
        &&& self.mode_idx < MODE_COUNT
        &&& self.render_mode.fits_slots()
        &&& self.render_mode.columns_known()
    }
}

impl View for Player {
    type V = PlayerView;

    open spec fn view(&self) -> PlayerView {
        PlayerView {
            mode_idx: self.mode_idx,
            render_mode: self.render_mode,
            mode_label: self.mode_label@,
            colorize: self.colorize,
            monochrome: self.monochrome,
            show_controls: self.show_controls,
            paused: self.paused,
            current_frame: self.current_frame,
            done: self.done,
        }
    }
}

/// The mode that the flags stand for, or the one that is named.
pub open spec fn mode_of_flags(flags: ModeFlags, mode: Seq<char>) -> Seq<char> {
    if flags.full_color {
        "full-color"@
    } else if flags.ascii_color {
        "ascii-color"@
    } else if flags.ascii {
        "ascii"@
    } else if flags.braille {
        "braille"@
    } else if flags.korean {
        "korean"@
    } else if flags.shading {
        "shading"@
    } else {
        mode
    }
}

/// The mode that the flags stand for, or the one that is named.
pub fn chosen_mode(flags: &ModeFlags, mode: &str) -> (r: String)
    ensures
        r@ == mode_of_flags(*flags, mode@),
{
    if flags.full_color {
        "full-color".to_owned()
    } else if flags.ascii_color {
        "ascii-color".to_owned()
    } else if flags.ascii {
        "ascii".to_owned()
    } else if flags.braille {
        "braille".to_owned()
    } else if flags.korean {
        "korean".to_owned()
    } else if flags.shading {
        "shading".to_owned()
    } else {
        mode.to_owned()
    }
}

/// The label of a custom character set.
pub open spec fn custom_label(prefix: Seq<char>, cs: CharSet) -> Seq<char> {
    prefix.push(' ').push(cs.empty).push(cs.top).push(cs.bottom).push(cs.full)
}

/// The render mode and the label to begin with: custom characters before a palette before a
/// built-in mode.
pub open spec fn first_look(
    mode: Seq<char>,
    chars: Option<&str>,
    gradient: Option<&str>,
) -> (RenderMode, Seq<char>) {
    match (chars, gradient) {
        (Some(s), _) => {
            let cs = CharSet::of_chars(s@[0], s@[1], s@[2], s@[3]);
            (RenderMode::Charset(cs), custom_label("custom"@, cs))
        },
        (None, Some(s)) => {
            let cs = CharSet::of_gradient(s@);
            (RenderMode::Charset(cs), custom_label("gradient"@, cs))
        },
        (None, None) => (render_mode_of(mode), mode),
    }
}

/// The message for custom characters that make no character set.
pub open spec fn look_error(chars: Option<&str>, gradient: Option<&str>) -> Option<Seq<char>> {
    match (chars, gradient) {
        (Some(s), _) => if s@.len() != 4 {
            Some(chars_message(s@.len()))
        } else {
            None
        },
        (None, Some(s)) => if s@.len() < 2 {
            Some(gradient_message(s@.len()))
        } else {
            None
        },
        (None, None) => None,
    }
}

fn label_of(prefix: &str, cs: &CharSet) -> (r: String)
    ensures
        r@ == custom_label(prefix@, *cs),
{
    let mut r = prefix.to_owned();
    r.push(' ');
    r.push(cs.empty);
    r.push(cs.top);
    r.push(cs.bottom);
    r.push(cs.full);
    r
}

/// The state with built-in mode `i`: its characters, its name as label, and its default for color
/// unless colors are off for good.
pub open spec fn switched(v: PlayerView, i: usize) -> PlayerView {
    let mode = builtin_modes()[i as int];
    PlayerView {
        mode_idx: i,
        render_mode: render_mode_of(mode.0),
        mode_label: mode.0,
        colorize: if v.monochrome {
            v.colorize
        } else {
            mode.1
        },
        ..v
    }
}

/// What is to be done after a key. Only the press of a key counts, not its repeat or release.
pub open spec fn response_to(v: PlayerView, key: Key, control: bool, press: bool) -> Response {
    if !press {
        Response::Nothing
    } else if key == Key::Char('q') || key == Key::Esc || key == Key::Char('c') && control {
        Response::Quit
    } else if key == Key::Char('k') || key == Key::Char(' ') {
        if v.paused {
            Response::Resume
        } else {
            Response::Pause
        }
    } else if key == Key::Char('j') {
        Response::SeekBack
    } else if key == Key::Char('l') {
        Response::SeekForward
    } else if key == Key::Up {
        Response::Brighter
    } else if key == Key::Down {
        Response::Darker
    } else {
        Response::Nothing
    }
}

/// The state after a key.
pub open spec fn pressed(v: PlayerView, key: Key, control: bool, press: bool) -> PlayerView {
    if !press {
        v
    } else if key == Key::Char('c') && !control {
        PlayerView { colorize: !v.colorize, ..v }
    } else if key == Key::Char('h') {
        PlayerView { show_controls: !v.show_controls, ..v }
    } else if key == Key::Char('k') || key == Key::Char(' ') {
        PlayerView { paused: !v.paused, ..v }
    } else if key == Key::Left {
        switched(v, previous_mode(v.mode_idx))
    } else if key == Key::Right {
        switched(v, next_mode(v.mode_idx))
    } else {
        v
    }
}

/// Whether a frame is due.
pub open spec fn is_due(v: PlayerView, target_frame: usize) -> bool {
    !v.paused && target_frame > v.current_frame
}

/// Whether frames are skipped to reach the one that is due.
pub open spec fn skips(v: PlayerView, target_frame: usize) -> bool {
    is_due(v, target_frame) && target_frame > v.current_frame + 1
}

/// What is to be done for the frame that is due.
pub open spec fn due_for(v: PlayerView, target_frame: usize, frame_size: usize) -> Due {
    if skips(v, target_frame) {
        Due::SeekAndRead((target_frame * frame_size) as u64)
    } else if is_due(v, target_frame) {
        Due::ReadNext
    } else {
        Due::Wait
    }
}

impl Player {
    /// Whether the mode is one of the built-in modes, none of the characters in use is wider than
    /// its slot, and their columns are those of their kind.
    pub open spec fn wf(self) -> bool {
        self@.wf()
    }

    /// A player at its first frame.
    pub fn new(mode: &str, chars: Option<&str>, gradient: Option<&str>, monochrome: bool) -> (r:
        Result<Self, String>)
        ensures
            match r {
                Ok(p) => {
                    &&& look_error(chars, gradient) is None
                    &&& p.wf()
                    &&& is_mode_index(p.mode_idx, mode@)
                    &&& (p.render_mode, p.mode_label@) == first_look(mode@, chars, gradient)
                    &&& p.colorize == (!monochrome && builtin_modes()[p.mode_idx as int].1)
                    &&& p.mode_idx == 1 <==> mode@ == "ascii-color"@
                    &&& p.mode_idx == 2 <==> mode@ == "ascii"@
                    &&& p.mode_idx == 3 <==> mode@ == "braille"@
                    &&& p.mode_idx == 4 <==> mode@ == "korean"@
                    &&& p.mode_idx == 5 <==> mode@ == "shading"@
                    &&& p.colorize == (!monochrome && mode@ != "ascii"@ && mode@ != "shading"@)
                    &&& chars is None && gradient is None ==> p.mode_label@ == mode@
                    &&& p.monochrome == monochrome
                    &&& p.show_controls
                    &&& !p.paused
                    &&& p.current_frame == 0
                    &&& !p.done
                },
                Err(message) => look_error(chars, gradient) == Some(message@),
            },
    {
        let mode_idx = mode_index(mode);
        let (render_mode, mode_label) = match chars {
            Some(s) => match CharSet::from_str(s) {
                Ok(cs) => (RenderMode::Charset(cs), label_of("custom", &cs)),
                Err(e) => return Err(e),
            },
            None => match gradient {
                Some(s) => match CharSet::from_gradient(s) {
                    Ok(cs) => (RenderMode::Charset(cs), label_of("gradient", &cs)),
                    Err(e) => return Err(e),
                },
                None => (render_mode_for_builtin(mode), mode.to_owned()),
            },
        };
        let colorize = !monochrome && builtin_colorize(mode_idx);
        Ok(
            Player {
                mode_idx,
                render_mode,
                mode_label,
                colorize,
                monochrome,
                show_controls: true,
                paused: false,
                current_frame: 0,
                done: false,
            },
        )
    }

    fn switch_to(&mut self, i: usize)
        requires
            i < MODE_COUNT,
        ensures
            final(self)@ == switched(old(self)@, i),
            final(self).wf(),
    {
        let name = builtin_name(i);
        self.mode_idx = i;
        self.render_mode = render_mode_for_builtin(name);
        self.mode_label = name.to_owned();
        if !self.monochrome {
            self.colorize = builtin_colorize(i);
        }
    }

    /// Handles a key.
    pub fn handle_key(&mut self, key: Key, control: bool, press: bool) -> (r: Response)
        requires
            old(self).wf(),
        ensures
            r == response_to(old(self)@, key, control, press),
            final(self)@ == pressed(old(self)@, key, control, press),
            final(self).wf(),
            final(self).paused == (old(self).paused != (press && (key == Key::Char('k') || key
                == Key::Char(' ')))),
            final(self).show_controls == (old(self).show_controls != (press && key == Key::Char(
                'h',
            ))),
            final(self).current_frame == old(self).current_frame,
            final(self).done == old(self).done,
            final(self).monochrome == old(self).monochrome,
            !press || (key != Key::Left && key != Key::Right) ==> {
                &&& final(self).mode_idx == old(self).mode_idx
                &&& final(self).render_mode == old(self).render_mode
                &&& final(self).mode_label@ == old(self).mode_label@
                &&& final(self).colorize == (old(self).colorize != (press && key == Key::Char('c')
                    && !control))
            },
    {
        // Ignore key-repeat and key-release; only act on the initial press.
        if !press {
            return Response::Nothing;
        }
        match key {
            Key::Esc => Response::Quit,
            Key::Up => Response::Brighter,
            Key::Down => Response::Darker,
            Key::Left => {
                let i: usize = if self.mode_idx > 0 {
                    self.mode_idx - 1
                } else {
                    MODE_COUNT - 1
                };
                self.switch_to(i);
                Response::Nothing
            },
            Key::Right => {
                let i: usize = if self.mode_idx + 1 < MODE_COUNT {
                    self.mode_idx + 1
                } else {
                    0
                };
                self.switch_to(i);
                Response::Nothing
            },
            Key::Other => Response::Nothing,
            Key::Char(c) => {
                if c == 'q' || (c == 'c' && control) {
                    Response::Quit
                } else if c == 'c' {
                    self.colorize = !self.colorize;
                    Response::Nothing
                } else if c == 'h' {
                    self.show_controls = !self.show_controls;
                    Response::Nothing
                } else if c == 'k' || c == ' ' {
                    self.paused = !self.paused;
                    if self.paused {
                        Response::Pause
                    } else {
                        Response::Resume
                    }
                } else if c == 'j' {
                    Response::SeekBack
                } else if c == 'l' {
                    Response::SeekForward
                } else {
                    Response::Nothing
                }
            },
        }
    }

    /// What is to be done now that `target_frame` is due. Where more than one frame is due, all
    /// but the last are skipped.
    pub fn tick(&mut self, target_frame: usize, frame_size: usize) -> (r: Due)
        requires
            skips(old(self)@, target_frame) ==> target_frame * frame_size <= u64::MAX,
        ensures
            r == due_for(old(self)@, target_frame, frame_size),
            !old(self).paused && target_frame > old(self).current_frame + 1 ==> {
                &&& r is SeekAndRead
                &&& r->SeekAndRead_0 == target_frame * frame_size
                &&& final(self).current_frame == target_frame
            },
            !old(self).paused && target_frame == old(self).current_frame + 1 ==> r == Due::ReadNext,
            old(self).paused || target_frame <= old(self).current_frame ==> r == Due::Wait,
            final(self).paused == old(self).paused,
            final(self).done == old(self).done,
            final(self)@ == (PlayerView {
                current_frame: if skips(old(self)@, target_frame) {
                    target_frame
                } else {
                    old(self).current_frame
                },
                ..old(self)@
            }),
    {
        if !self.paused && target_frame > self.current_frame {
            // Seek directly to target frame instead of reading through skipped frames.
            if target_frame > self.current_frame + 1 {
                self.current_frame = target_frame;
                return Due::SeekAndRead(target_frame as u64 * frame_size as u64);
            }
            return Due::ReadNext;
        }
        Due::Wait
    }

    /// Counts a frame that was read because it was due; where none could be read, the video is at
    /// its end.
    pub fn frame_read(&mut self, ok: bool)
        requires
            ok ==> old(self).current_frame < usize::MAX,
        ensures
            final(self)@ == if ok {
                PlayerView { current_frame: (old(self).current_frame + 1) as usize, ..old(self)@ }
            } else {
                PlayerView { done: true, ..old(self)@ }
            },
            final(self).done == (old(self).done || !ok),
            final(self).current_frame == old(self).current_frame + (if ok {
                1int
            } else {
                0int
            }),
            final(self).paused == old(self).paused,
    {
        if ok {
            self.current_frame = self.current_frame + 1;
        } else {
            self.done = true;
        }
    }

    /// Goes to a frame, and returns the byte of the frames at which it begins.
    pub fn seek(&mut self, new_frame: usize, frame_size: usize) -> (byte_offset: u64)
        requires
            new_frame * frame_size <= u64::MAX,
        ensures
            byte_offset == new_frame * frame_size,
            final(self)@ == (PlayerView { current_frame: new_frame, ..old(self)@ }),
            final(self).current_frame == new_frame,
            final(self).paused == old(self).paused,
            final(self).done == old(self).done,
    {
        self.current_frame = new_frame;
        new_frame as u64 * frame_size as u64
    }

    /// Counts a frame that was read after a seek, where one could be read.
    pub fn seek_read(&mut self, ok: bool)
        requires
            ok ==> old(self).current_frame < usize::MAX,
        ensures
            final(self)@ == if ok {
                PlayerView { current_frame: (old(self).current_frame + 1) as usize, ..old(self)@ }
            } else {
                old(self)@
            },
            final(self).done == old(self).done,
            final(self).current_frame == old(self).current_frame + (if ok {
                1int
            } else {
                0int
            }),
            final(self).paused == old(self).paused,
    {
        if ok {
            self.current_frame = self.current_frame + 1;
        }
    }
}

/// The left and the right arrow key undo each other, once a built-in mode is on.
pub proof fn arrows_undo_each_other(v: PlayerView, control: bool)
    requires
        v.mode_idx < MODE_COUNT,
        v == switched(v, v.mode_idx),
    ensures
        pressed(pressed(v, Key::Left, control, true), Key::Right, control, true) == v,
        pressed(pressed(v, Key::Right, control, true), Key::Left, control, true) == v,
{
    crate::charset::cycling_is_undone(v.mode_idx);
}

/// The keys for pause, controls and color undo themselves when pressed again.
pub proof fn toggles_undo_themselves(v: PlayerView, key: Key)
    requires
        key == Key::Char('k') || key == Key::Char(' ') || key == Key::Char('h') || key
            == Key::Char('c'),
    ensures
        pressed(pressed(v, key, false, true), key, false, true) == v,
{
}

/// Pausing and going on alternate.
pub proof fn pause_and_resume_alternate(v: PlayerView, control: bool)
    ensures
        ({
            let key = Key::Char('k');
            let then = pressed(v, key, control, true);
            response_to(v, key, control, true) == Response::Pause <==> response_to(
                then,
                key,
                control,
                true,
            ) == Response::Resume
        }),
{
}

/// Without color for good, switching modes turns no color on.
pub proof fn monochrome_stays(v: PlayerView, key: Key, control: bool, press: bool)
    requires
        v.monochrome,
        !v.colorize,
        key != Key::Char('c'),
    ensures
        ({
            let then = pressed(v, key, control, press);
            then.monochrome && !then.colorize
        }),
{
}

/// A repeated or released key does nothing.
pub proof fn only_presses_count(v: PlayerView, key: Key, control: bool)
    ensures
        pressed(v, key, control, false) == v,
        response_to(v, key, control, false) == Response::Nothing,
{
}

/// Reading the frame that is due catches up with the time: after it no frame is due at that time.
pub proof fn reading_catches_up(v: PlayerView, target_frame: usize)
    requires
        is_due(v, target_frame),
        target_frame < usize::MAX,
    ensures
        ({
            let at = if skips(v, target_frame) {
                target_frame
            } else {
                v.current_frame
            };
            !is_due(PlayerView { current_frame: (at + 1) as usize, ..v }, target_frame)
        }),
{
}

/// While paused no frame is due.
pub proof fn paused_player_waits(v: PlayerView, target_frame: usize, frame_size: usize)
    requires
        v.paused,
    ensures
        due_for(v, target_frame, frame_size) == Due::Wait,
{
}

/// Where frames are skipped, playing goes on at the byte at which the due frame begins, whatever the
/// size of a frame; where the next frame is due it is read, and otherwise nothing is.
pub proof fn due_frame_is_gone_to(v: PlayerView, target_frame: usize, frame_size: usize)
    ensures
        !v.paused && target_frame > v.current_frame + 1 && target_frame * frame_size <= u64::MAX
            ==> due_for(v, target_frame, frame_size) is SeekAndRead && due_for(
            v,
            target_frame,
            frame_size,
        )->SeekAndRead_0 == target_frame * frame_size,
        !v.paused && target_frame == v.current_frame + 1 ==> due_for(v, target_frame, frame_size)
            == Due::ReadNext,
        v.paused || target_frame <= v.current_frame ==> due_for(v, target_frame, frame_size)
            == Due::Wait,
{
    vstd::arithmetic::mul::lemma_mul_nonnegative(target_frame as int, frame_size as int);
}

/// What a key asks for depends on the key alone, but that the key for pausing resumes while paused.
/// Every other key asks for nothing.
pub proof fn keys_ask_for(v: PlayerView, key: Key, control: bool)
    ensures
        ({
            let r = response_to(v, key, control, true);
            let pausing = key == Key::Char('k') || key == Key::Char(' ');
            &&& r == Response::Quit <==> {
                ||| key == Key::Esc
                ||| key == Key::Char('q')
                ||| key == Key::Char('c') && control
            }
            &&& r == Response::Pause <==> pausing && !v.paused
            &&& r == Response::Resume <==> pausing && v.paused
            &&& r == Response::SeekBack <==> key == Key::Char('j')
            &&& r == Response::SeekForward <==> key == Key::Char('l')
            &&& r == Response::Brighter <==> key == Key::Up
            &&& r == Response::Darker <==> key == Key::Down
        }),
{
}

/// What a key changes: the pausing keys whether playing is paused, `h` whether the controls are
/// shown, `c` and the arrows the color, the arrows the mode. No key changes anything else.
pub proof fn keys_change_only_their_own(v: PlayerView, key: Key, control: bool)
    ensures
        ({
            let then = pressed(v, key, control, true);
            let arrow = key == Key::Left || key == Key::Right;
            &&& then.paused == v.paused <==> !(key == Key::Char('k') || key == Key::Char(' '))
            &&& then.show_controls == v.show_controls <==> key != Key::Char('h')
            &&& !arrow ==> (then.colorize == v.colorize <==> !(key == Key::Char('c') && !control))
            &&& arrow && v.monochrome ==> then.colorize == v.colorize
            &&& !arrow ==> then.mode_idx == v.mode_idx && then.render_mode == v.render_mode
                && then.mode_label == v.mode_label
            &&& then.monochrome == v.monochrome
            &&& then.current_frame == v.current_frame
            &&& then.done == v.done
        }),
{
}

/// An arrow switches to the mode after or before in the round of six, under its name, with its
/// characters and, unless colors are off for good, its default for color.
pub proof fn arrows_switch_modes(v: PlayerView, control: bool)
    requires
        v.mode_idx < 6,
    ensures
        ({
            let right = pressed(v, Key::Right, control, true);
            let left = pressed(v, Key::Left, control, true);
            &&& right.mode_idx == (v.mode_idx + 1) % 6
            &&& left.mode_idx == (v.mode_idx + 5) % 6
            &&& right.mode_label == builtin_modes()[right.mode_idx as int].0
            &&& left.mode_label == builtin_modes()[left.mode_idx as int].0
            &&& right.render_mode == render_mode_of(right.mode_label)
            &&& left.render_mode == render_mode_of(left.mode_label)
            &&& !v.monochrome ==> right.colorize == builtin_modes()[right.mode_idx as int].1
            &&& !v.monochrome ==> left.colorize == builtin_modes()[left.mode_idx as int].1
        }),
{
}

/// The mode that is named stands where no flag is given; a flag stands for its mode.
pub proof fn flags_stand_for_their_modes(flags: ModeFlags, mode: Seq<char>)
    ensures
        ({
            let r = mode_of_flags(flags, mode);
            let f = flags;
            &&& f.full_color ==> r == "full-color"@
            &&& !f.full_color && f.ascii_color ==> r == "ascii-color"@
            &&& !f.full_color && !f.ascii_color && f.ascii ==> r == "ascii"@
            &&& !f.full_color && !f.ascii_color && !f.ascii && f.braille ==> r == "braille"@
            &&& !f.full_color && !f.ascii_color && !f.ascii && !f.braille && f.korean ==> r
                == "korean"@
            &&& !f.full_color && !f.ascii_color && !f.ascii && !f.braille && !f.korean
                && f.shading ==> r == "shading"@
            &&& !f.full_color && !f.ascii_color && !f.ascii && !f.braille && !f.korean
                && !f.shading ==> r == mode
        }),
{
}

/// The label of a custom character set: what it is, a space, and its four characters in order.
pub proof fn custom_label_names_the_characters(prefix: Seq<char>, cs: CharSet)
    ensures
        custom_label(prefix, cs) == prefix + seq![' ', cs.empty, cs.top, cs.bottom, cs.full],
{
    assert(custom_label(prefix, cs) =~= prefix + seq![' ', cs.empty, cs.top, cs.bottom, cs.full]);
}

/// Custom characters come before a palette, and a palette before a mode; each gives the characters
/// that it names, and the label tells which it is.
pub proof fn custom_characters_come_first(mode: Seq<char>, chars: &str, gradient: &str)
    ensures
        chars@.len() == 4 ==> {
            let (look, label) = first_look(mode, Some(chars), None);
            &&& look is Charset
            &&& look->Charset_0.empty == chars@[0]
            &&& look->Charset_0.top == chars@[1]
            &&& look->Charset_0.bottom == chars@[2]
            &&& look->Charset_0.full == chars@[3]
            &&& look->Charset_0.col_width == widest(
                widths_of(chars@[0], chars@[1], chars@[2], chars@[3]),
            ) as u16
            &&& label == "custom"@ + seq![' ', chars@[0], chars@[1], chars@[2], chars@[3]]
            &&& first_look(mode, Some(chars), Some(gradient)) == (look, label)
        },
        gradient@.len() >= 2 ==> {
            let (look, label) = first_look(mode, None, Some(gradient));
            let last = gradient@.len() - 1;
            &&& look is Charset
            &&& look->Charset_0.empty == gradient@[0]
            &&& look->Charset_0.top == gradient@[last / 3]
            &&& look->Charset_0.bottom == gradient@[2 * last / 3]
            &&& look->Charset_0.full == gradient@[last]
            &&& look->Charset_0.col_width == widest(
                widths_of(
                    gradient@[0],
                    gradient@[last / 3],
                    gradient@[2 * last / 3],
                    gradient@[last],
                ),
            ) as u16
            &&& label == "gradient"@ + seq![
                ' ',
                gradient@[0],
                gradient@[last / 3],
                gradient@[2 * last / 3],
                gradient@[last],
            ]
        },
        first_look(mode, None, None) == (render_mode_of(mode), mode),
{
    custom_label_names_the_characters(
        "custom"@,
        CharSet::of_chars(chars@[0], chars@[1], chars@[2], chars@[3]),
    );
    custom_label_names_the_characters("gradient"@, CharSet::of_gradient(gradient@));
}

/// Custom characters are refused where they are not four, a palette where it is shorter than two,
/// and nothing else is. The message tells how many there are.
pub proof fn custom_characters_are_counted(chars: &str, gradient: &str)
    ensures
        look_error(None, None) is None,
        look_error(Some(chars), None) == look_error(Some(chars), Some(gradient)),
        look_error(Some(chars), None) is None <==> chars@.len() == 4,
        chars@.len() != 4 ==> look_error(Some(chars), None) == Some(
            "--chars requires exactly 4 characters, got "@ + decimal(chars@.len()),
        ),
        look_error(None, Some(gradient)) is None <==> gradient@.len() >= 2,
        gradient@.len() < 2 ==> look_error(None, Some(gradient)) == Some(
            "--gradient requires at least 2 characters, got "@ + decimal(gradient@.len()),
        ),
{
}

} // verus!
