//! The video window: which input it captures, what is held down in it, and
//! when it makes way for the session bar above it.
//!
//! If the focus leaves the window in the middle of a combination, the releases
//! end up in some other window. So the window keeps track of what is held and
//! makes the releases up, or the host would be left with a stuck key.

use vstd::prelude::*;

use crate::codec::{pack, packed};
use crate::injector::{lemma_found, lemma_stays_unique, with, without};
use crate::input::VideoInput;
use crate::keyhook::{WM_KEYDOWN, WM_KEYUP, WM_SYSKEYDOWN, WM_SYSKEYUP};
use crate::scancode::ScanCode;

verus! {

pub const WM_KILLFOCUS: u32 = 0x0008;
pub const WM_MOUSEMOVE: u32 = 0x0200;
pub const WM_LBUTTONDOWN: u32 = 0x0201;
pub const WM_LBUTTONUP: u32 = 0x0202;
pub const WM_RBUTTONDOWN: u32 = 0x0204;
pub const WM_RBUTTONUP: u32 = 0x0205;
pub const WM_MBUTTONDOWN: u32 = 0x0207;
pub const WM_MBUTTONUP: u32 = 0x0208;
pub const WM_MOUSEWHEEL: u32 = 0x020A;
pub const WM_MOUSEHWHEEL: u32 = 0x020E;
pub const WM_DROPFILES: u32 = 0x0233;

/// The height of the session bar at 96 dots per inch.
pub const BAR_CSS_PX: u32 = 40;

/// How deep the pointer goes into the picture before the bar is hidden.
pub const UNREVEAL_DEPTH_PX: i32 = 56;

/// How close to the top edge the pointer brings the bar up.
pub const REVEAL_EDGE_PX: i32 = 2;

/// A window message, with pixel positions in the window.
#[derive(Debug, Clone, Copy, PartialEq, Eq, Structural)]
pub enum WindowMsg {
    Move { px: i32, py: i32 },
    Button { button: u8, down: bool, px: i32, py: i32 },
    Wheel { dx: i32, dy: i32 },
    Key { scancode: u16, extended: bool, down: bool },
    FocusLost,
    FilesDropped,
    Other,
}

/// A 16-bit field as a signed number.
pub open spec fn signed16(x: int) -> int {
    if x < 32768 {
        x
    } else {
        x - 65536
    }
}

/// The low 16 bits.
pub open spec fn low_word(x: u64) -> int {
    x as int % 65536
}

/// The next 16 bits.
pub open spec fn high_word(x: u64) -> int {
    x as int / 65536 % 65536
}

/// The button of a message about one: left, middle or right.
pub open spec fn button_in(msg: u32) -> u8 {
    if msg == WM_LBUTTONDOWN || msg == WM_LBUTTONUP {
        0
    } else if msg == WM_MBUTTONDOWN || msg == WM_MBUTTONUP {
        1
    } else {
        2
    }
}

/// What a raw message says.
pub open spec fn decoded(msg: u32, wparam: u64, lparam: u64) -> WindowMsg {
    let px = signed16(low_word(lparam)) as i32;
    let py = signed16(high_word(lparam)) as i32;
    let turn = signed16(high_word(wparam)) as i32;
    if msg == WM_MOUSEMOVE {
        WindowMsg::Move { px, py }
    } else if msg == WM_LBUTTONDOWN || msg == WM_RBUTTONDOWN || msg == WM_MBUTTONDOWN {
        WindowMsg::Button { button: button_in(msg), down: true, px, py }
    } else if msg == WM_LBUTTONUP || msg == WM_RBUTTONUP || msg == WM_MBUTTONUP {
        WindowMsg::Button { button: button_in(msg), down: false, px, py }
    } else if msg == WM_MOUSEWHEEL {
        WindowMsg::Wheel { dx: 0, dy: turn }
    } else if msg == WM_MOUSEHWHEEL {
        WindowMsg::Wheel { dx: turn, dy: 0 }
    } else if msg == WM_KEYDOWN || msg == WM_SYSKEYDOWN || msg == WM_KEYUP || msg == WM_SYSKEYUP {
        WindowMsg::Key {
            scancode: (lparam as int / 65536 % 256) as u16,
            extended: lparam as int / 16777216 % 2 == 1,
            down: msg == WM_KEYDOWN || msg == WM_SYSKEYDOWN,
        }
    } else if msg == WM_KILLFOCUS {
        WindowMsg::FocusLost
    } else if msg == WM_DROPFILES {
        WindowMsg::FilesDropped
    } else {
        WindowMsg::Other
    }
}

fn to_signed(x: u64) -> (r: i32)
    requires
        x < 65536,
    ensures
        r == signed16(x as int),
{
    if x < 32768 {
        x as i32
    } else {
        x as i32 - 65536
    }
}

/// Reads a raw message.
pub fn decode_message(msg: u32, wparam: u64, lparam: u64) -> (m: WindowMsg)
    ensures
        m == decoded(msg, wparam, lparam),
{
    let px: i32 = to_signed(lparam % 65536);
    let py: i32 = to_signed(lparam / 65536 % 65536);
    let turn: i32 = to_signed(wparam / 65536 % 65536);
    if msg == WM_MOUSEMOVE {
        WindowMsg::Move { px, py }
    } else if msg == WM_LBUTTONDOWN {
        WindowMsg::Button { button: 0, down: true, px, py }
    } else if msg == WM_MBUTTONDOWN {
        WindowMsg::Button { button: 1, down: true, px, py }
    } else if msg == WM_RBUTTONDOWN {
        WindowMsg::Button { button: 2, down: true, px, py }
    } else if msg == WM_LBUTTONUP {
        WindowMsg::Button { button: 0, down: false, px, py }
    } else if msg == WM_MBUTTONUP {
        WindowMsg::Button { button: 1, down: false, px, py }
    } else if msg == WM_RBUTTONUP {
        WindowMsg::Button { button: 2, down: false, px, py }
    } else if msg == WM_MOUSEWHEEL {
        WindowMsg::Wheel { dx: 0, dy: turn }
    } else if msg == WM_MOUSEHWHEEL {
        WindowMsg::Wheel { dx: turn, dy: 0 }
    } else if msg == WM_KEYDOWN || msg == WM_SYSKEYDOWN || msg == WM_KEYUP || msg == WM_SYSKEYUP {
        WindowMsg::Key {
            scancode: (lparam / 65536 % 256) as u16,
            extended: lparam / 16777216 % 2 == 1,
            down: msg == WM_KEYDOWN || msg == WM_SYSKEYDOWN,
        }
    } else if msg == WM_KILLFOCUS {
        WindowMsg::FocusLost
    } else if msg == WM_DROPFILES {
        WindowMsg::FilesDropped
    } else {
        WindowMsg::Other
    }
}

/// The height of the session bar in pixels, at so many dots per inch; 0 stands
/// for 96.
pub fn bar_phys(dpi: u32) -> (px: i32)
    requires
        dpi <= 0x0333_3333,
    ensures
        px == BAR_CSS_PX * (if dpi == 0 {
            96
        } else {
            dpi as int
        }) / 96,
        dpi > 0 ==> 96 * px <= 40 * dpi < 96 * (px + 1),
        dpi == 0 ==> px == 40,
{
    let d: u32 = if dpi == 0 {
        96
    } else {
        dpi
    };
    (BAR_CSS_PX * d / 96) as i32
}

/// The state of the video window. `C` is a coordinate on the remote screen.
#[verifier::ext_equal]
pub ghost struct Surface<C> {
    /// The keys held down in it, in the order of the presses.
    pub keys: Seq<ScanCode>,
    /// The buttons held down in it.
    pub buttons: Seq<u8>,
    /// Where the pointer was last.
    pub pos: (C, C),
    /// How many pixels at the top make way for the session bar.
    pub shown_px: i32,
    /// Whether somebody wants the input.
    pub capturing: bool,
    /// Whether somebody wants dropped files.
    pub dropping: bool,
    /// The size of the picture, packed; 0 if it is not known.
    pub video: u64,
    /// The window that accepts dropped files; 0 if there is none.
    pub drop_target: isize,
}

/// How much of the top makes way for the session bar once the pointer is at
/// this height; `bar` is the height of the bar.
pub open spec fn reveal_at(shown_px: i32, py: i32, bar: i32) -> i32 {
    if shown_px <= 0 && py <= REVEAL_EDGE_PX {
        bar
    } else if shown_px > 0 && py > UNREVEAL_DEPTH_PX {
        0
    } else {
        shown_px
    }
}

/// What a message makes of the window; `pos` is the position in it on the
/// remote screen.
pub open spec fn surface_after<C>(s: Surface<C>, m: WindowMsg, pos: (C, C), bar: i32) -> Surface<
    C,
> {
    match m {
        WindowMsg::Move { py, .. } => Surface { shown_px: reveal_at(s.shown_px, py, bar), pos, ..s },
        WindowMsg::Button { button, down, .. } => Surface {
            buttons: if down {
                with(s.buttons, button)
            } else {
                without(s.buttons, button)
            },
            ..s
        },
        WindowMsg::Key { scancode, extended, down } => {
            let key = ScanCode { sc: scancode, ext: extended };
            Surface {
                keys: if down {
                    with(s.keys, key)
                } else {
                    without(s.keys, key)
                },
                ..s
            }
        },
        WindowMsg::FocusLost => Surface { keys: seq![], buttons: seq![], ..s },
        _ => s,
    }
}

/// The releases of everything that is held.
pub open spec fn releases<C>(s: Surface<C>) -> Seq<VideoInput<C>> {
    s.keys.map_values(
        |k: ScanCode|
            VideoInput::<C>::Key { scancode: k.sc, extended: k.ext, down: false },
    ) + s.buttons.map_values(
        |b: u8| VideoInput::Button { button: b, down: false, nx: s.pos.0, ny: s.pos.1 },
    )
}

/// What a message captures.
pub open spec fn captured<C>(s: Surface<C>, m: WindowMsg, pos: (C, C)) -> Seq<VideoInput<C>> {
    match m {
        WindowMsg::Move { .. } => seq![VideoInput::Move { nx: pos.0, ny: pos.1 }],
        WindowMsg::Button { button, down, .. } => seq![
            VideoInput::Button { button, down, nx: pos.0, ny: pos.1 },
        ],
        WindowMsg::Wheel { dx, dy } => seq![VideoInput::Wheel { dx, dy }],
        WindowMsg::Key { scancode, extended, down } => seq![
            VideoInput::Key { scancode, extended, down },
        ],
        WindowMsg::FocusLost => releases(s),
        _ => seq![],
    }
}

/// What is to be done about a message.
#[derive(Debug)]
pub struct WindowStep<C> {
    /// The captured input, in order.
    pub events: Vec<VideoInput<C>>,
    /// How many pixels at the top to leave to the session bar, if that changes.
    pub shown_px: Option<i32>,
    /// Whether to take the keyboard focus.
    pub take_focus: bool,
    /// Whether to collect the dropped files.
    pub take_files: bool,
    /// Whether the message is dealt with, or goes on to the system.
    pub handled: bool,
}

/// The video window.
#[derive(Debug)]
pub struct VideoSurface<C> {
    held_keys: Vec<ScanCode>,
    held_buttons: Vec<u8>,
    last_pos: (C, C),
    reveal_offset: i32,
    input_sink: bool,
    file_sink: bool,
    video_dims: u64,
    drop_target: isize,
}

impl<C> View for VideoSurface<C> {
    type V = Surface<C>;

    closed spec fn view(&self) -> Surface<C> {
        Surface {
            keys: self.held_keys@,
            buttons: self.held_buttons@,
            pos: self.last_pos,
            shown_px: self.reveal_offset,
            capturing: self.input_sink,
            dropping: self.file_sink,
            video: self.video_dims,
            drop_target: self.drop_target,
        }
    }
}

impl<C: Copy> VideoSurface<C> {
    /// Nothing is listed twice.
    pub open spec fn wf(&self) -> bool {
        self@.keys.no_duplicates() && self@.buttons.no_duplicates()
    }

    /// A window with the pointer in the middle.
    pub fn new(middle: (C, C)) -> (s: Self)
        ensures
            s.wf(),
            s@ == (Surface {
                keys: seq![],
                buttons: seq![],
                pos: middle,
                shown_px: 0,
                capturing: false,
                dropping: false,
                video: 0,
                drop_target: 0,
            }),
    {
        let s = VideoSurface {
            held_keys: Vec::new(),
            held_buttons: Vec::new(),
            last_pos: middle,
            reveal_offset: 0,
            input_sink: false,
            file_sink: false,
            video_dims: 0,
            drop_target: 0,
        };
        assert(s@.keys =~= seq![]);
        assert(s@.buttons =~= seq![]);
        s
    }

    /// The system's window has been created.
    pub fn set_drop_target(&mut self, hwnd: isize)
        requires
            old(self).wf(),
        ensures
            final(self).wf(),
            final(self)@ == (Surface { drop_target: hwnd, ..old(self)@ }),
    {
        self.drop_target = hwnd;
    }

    /// The window that accepts dropped files; 0 if there is none.
    pub fn drop_target_hwnd(&self) -> (hwnd: isize)
        ensures
            hwnd == self@.drop_target,
    {
        self.drop_target
    }

    /// Somebody wants the input.
    pub fn set_input_sink(&mut self)
        requires
            old(self).wf(),
        ensures
            final(self).wf(),
            final(self)@ == (Surface { capturing: true, ..old(self)@ }),
    {
        self.input_sink = true;
    }

    /// Nobody wants the input any more; what is held is forgotten, so that it
    /// does not leak into the next session.
    pub fn clear_input_sink(&mut self)
        requires
            old(self).wf(),
        ensures
            final(self).wf(),
            final(self)@ == (Surface {
                capturing: false,
                keys: seq![],
                buttons: seq![],
                ..old(self)@
            }),
    {
        self.input_sink = false;
        self.held_keys = Vec::new();
        self.held_buttons = Vec::new();
        assert(self@.keys =~= seq![]);
        assert(self@.buttons =~= seq![]);
    }

    /// Somebody wants dropped files, or nobody does. Gives the window to tell.
    pub fn set_file_sink(&mut self, on: bool) -> (hwnd: Option<isize>)
        requires
            old(self).wf(),
        ensures
            final(self).wf(),
            final(self)@ == (Surface { dropping: on, ..old(self)@ }),
            hwnd == (if old(self)@.drop_target != 0 {
                Some(old(self)@.drop_target)
            } else {
                None
            }),
    {
        self.file_sink = on;
        if self.drop_target != 0 {
            Some(self.drop_target)
        } else {
            None
        }
    }

    /// Whether dropped files are to be passed on: there are some, and somebody
    /// wants them.
    pub fn accepts_files(&self, count: usize) -> (yes: bool)
        ensures
            yes == (count > 0 && self@.dropping),
            yes == takes_files(self@, count as int),
    {
        count > 0 && self.file_sink
    }

    /// The picture has this size.
    pub fn set_video_size(&mut self, w: u32, h: u32)
        requires
            old(self).wf(),
        ensures
            final(self).wf(),
            final(self)@ == (Surface { video: packed(w, h) as u64, ..old(self)@ }),
    {
        self.video_dims = pack(w, h);
    }

    /// The size of the picture; zeros if it is not known.
    pub fn video_dims(&self) -> (r: (u32, u32))
        ensures
            packed(r.0, r.1) == self@.video,
    {
        crate::codec::unpack(self.video_dims)
    }

    /// The window is shown.
    pub fn shown(&mut self)
        requires
            old(self).wf(),
        ensures
            final(self).wf(),
            final(self)@ == (Surface { shown_px: 0, ..old(self)@ }),
    {
        self.reveal_offset = 0;
    }

    /// The window is hidden.
    pub fn hidden(&mut self)
        requires
            old(self).wf(),
        ensures
            final(self).wf(),
            final(self)@ == (Surface { shown_px: 0, video: 0, ..old(self)@ }),
    {
        self.reveal_offset = 0;
        self.video_dims = 0;
    }

    /// How many pixels at the top are left to the session bar.
    pub fn bar_px(&self) -> (px: i32)
        ensures
            px == self@.shown_px,
    {
        self.reveal_offset
    }

    fn hold_button(&mut self, button: u8, down: bool)
        requires
            old(self).wf(),
        ensures
            final(self).wf(),
            final(self)@ == (Surface {
                buttons: if down {
                    with(old(self)@.buttons, button)
                } else {
                    without(old(self)@.buttons, button)
                },
                ..old(self)@
            }),
    {
        let n: usize = self.held_buttons.len();
        let mut at: usize = 0;
        while at < n && self.held_buttons[at] != button
            invariant
                at <= n == self.held_buttons@.len(),
                *self == *old(self),
                forall|i: int| 0 <= i < at ==> #[trigger] self.held_buttons@[i] != button,
            decreases n - at,
        {
            at += 1;
        }
        proof {
            lemma_found(self.held_buttons@, button, at as int);
            lemma_stays_unique(self.held_buttons@, button);
        }
        if down && at == n {
            self.held_buttons.push(button);
        }
        if !down && at < n {
            let _ = self.held_buttons.remove(at);
        }
    }

    fn hold_key(&mut self, key: ScanCode, down: bool)
        requires
            old(self).wf(),
        ensures
            final(self).wf(),
            final(self)@ == (Surface {
                keys: if down {
                    with(old(self)@.keys, key)
                } else {
                    without(old(self)@.keys, key)
                },
                ..old(self)@
            }),
    {
        let n: usize = self.held_keys.len();
        let mut at: usize = 0;
        while at < n && self.held_keys[at] != key
            invariant
                at <= n == self.held_keys@.len(),
                *self == *old(self),
                forall|i: int| 0 <= i < at ==> #[trigger] self.held_keys@[i] != key,
            decreases n - at,
        {
            at += 1;
        }
        proof {
            lemma_found(self.held_keys@, key, at as int);
            lemma_stays_unique(self.held_keys@, key);
        }
        if down && at == n {
            self.held_keys.push(key);
        }
        if !down && at < n {
            let _ = self.held_keys.remove(at);
        }
    }

    /// Makes up the releases of everything that is held.
    fn release_all_held(&mut self) -> (events: Vec<VideoInput<C>>)
        requires
            old(self).wf(),
        ensures
            final(self).wf(),
            final(self)@ == (Surface { keys: seq![], buttons: seq![], ..old(self)@ }),
            events@ == releases(old(self)@),
    {
        let ghost s = self@;
        let mut events: Vec<VideoInput<C>> = Vec::new();
        let n: usize = self.held_keys.len();
        let mut i: usize = 0;
        while i < n
            invariant
                i <= n == self.held_keys@.len(),
                *self == *old(self),
                s == self@,
                events@ == releases(s).take(i as int),
            decreases n - i,
        {
            let k: ScanCode = self.held_keys[i];
            events.push(VideoInput::Key { scancode: k.sc, extended: k.ext, down: false });
            i += 1;
            assert(events@ =~= releases(s).take(i as int));
        }
        let m: usize = self.held_buttons.len();
        let mut j: usize = 0;
        while j < m
            invariant
                j <= m == self.held_buttons@.len(),
                n == self.held_keys@.len(),
                *self == *old(self),
                s == self@,
                events@ == releases(s).take(n + j),
            decreases m - j,
        {
            events.push(
                VideoInput::Button {
                    button: self.held_buttons[j],
                    down: false,
                    nx: self.last_pos.0,
                    ny: self.last_pos.1,
                },
            );
            j += 1;
            assert(events@ =~= releases(s).take(n + j));
        }
        assert(releases(s).take(n + m) =~= releases(s));
        self.held_keys = Vec::new();
        self.held_buttons = Vec::new();
        assert(self@.keys =~= seq![]);
        assert(self@.buttons =~= seq![]);
        events
    }

    /// Deals with a message; `pos` is the position in it on the remote screen,
    /// and `bar` the height of the session bar. Without anybody who wants the
    /// input, nothing is captured.
    pub fn wndproc(&mut self, m: WindowMsg, pos: (C, C), bar: i32) -> (step: WindowStep<C>)
        requires
            old(self).wf(),
        ensures
            final(self).wf(),
            final(self)@ == surface_after(old(self)@, m, pos, bar),
            step.events@ == (if old(self)@.capturing {
                captured(old(self)@, m, pos)
            } else {
                seq![]
            }),
            step.shown_px == (if final(self)@.shown_px != old(self)@.shown_px {
                Some(final(self)@.shown_px)
            } else {
                None
            }),
            step.take_focus == (m is Button && m->Button_down),
            step.take_files == (m is FilesDropped),
            step.handled == !(m is Other),
    {
        let mut events: Vec<VideoInput<C>> = Vec::new();
        let mut shown_px: Option<i32> = None;
        let mut take_focus: bool = false;
        let mut take_files: bool = false;
        let mut handled: bool = true;
        match m {
            WindowMsg::Move { py, .. } => {
                let before: i32 = self.reveal_offset;
                if before <= 0 && py <= REVEAL_EDGE_PX {
                    self.reveal_offset = bar;
                } else if before > 0 && py > UNREVEAL_DEPTH_PX {
                    self.reveal_offset = 0;
                }
                if self.reveal_offset != before {
                    shown_px = Some(self.reveal_offset);
                }
                self.last_pos = pos;
                events.push(VideoInput::Move { nx: pos.0, ny: pos.1 });
            },
            WindowMsg::Button { button, down, .. } => {
                take_focus = down;
                self.hold_button(button, down);
                events.push(VideoInput::Button { button, down, nx: pos.0, ny: pos.1 });
            },
            WindowMsg::Wheel { dx, dy } => {
                events.push(VideoInput::Wheel { dx, dy });
            },
            WindowMsg::Key { scancode, extended, down } => {
                self.hold_key(ScanCode { sc: scancode, ext: extended }, down);
                events.push(VideoInput::Key { scancode, extended, down });
            },
            WindowMsg::FocusLost => {
                events = self.release_all_held();
            },
            WindowMsg::FilesDropped => {
                take_files = true;
            },
            WindowMsg::Other => {
                handled = false;
            },
        }
        assert(events@ =~= captured(old(self)@, m, pos));
        if !self.input_sink {
            events = Vec::new();
            assert(events@ =~= seq![]);
        }
        WindowStep { events, shown_px, take_focus, take_files, handled }
    }
}

/// Which keys are down on the remote machine once events have been sent.
pub open spec fn remote_keys<C>(before: Set<ScanCode>, events: Seq<VideoInput<C>>) -> Set<ScanCode>
    decreases events.len(),
{
    if events.len() == 0 {
        before
    } else {
        let mid = remote_keys(before, events.drop_last());
        match events.last() {
            VideoInput::Key { scancode, extended, down } => {
                let key = ScanCode { sc: scancode, ext: extended };
                if down {
                    mid.insert(key)
                } else {
                    mid.remove(key)
                }
            },
            _ => mid,
        }
    }
}

/// Which buttons are down on the remote machine once events have been sent.
pub open spec fn remote_buttons<C>(before: Set<u8>, events: Seq<VideoInput<C>>) -> Set<u8>
    decreases events.len(),
{
    if events.len() == 0 {
        before
    } else {
        let mid = remote_buttons(before, events.drop_last());
        match events.last() {
            VideoInput::Button { button, down, .. } => if down {
                mid.insert(button)
            } else {
                mid.remove(button)
            },
            _ => mid,
        }
    }
}

/// What the window records as held is what is down on the remote machine:
/// every message keeps that so. In particular nothing is left down there once
/// the focus has left the window.
pub proof fn law_held_is_what_is_down_remotely<C>(
    s: Surface<C>,
    m: WindowMsg,
    pos: (C, C),
    bar: i32,
)
    requires
        s.keys.no_duplicates(),
        s.buttons.no_duplicates(),
    ensures
        remote_keys(s.keys.to_set(), captured(s, m, pos)) == surface_after(
            s,
            m,
            pos,
            bar,
        ).keys.to_set(),
        remote_buttons(s.buttons.to_set(), captured(s, m, pos)) == surface_after(
            s,
            m,
            pos,
            bar,
        ).buttons.to_set(),
{
    let events = captured(s, m, pos);
    let after = surface_after(s, m, pos, bar);
    if m is FocusLost {
        lemma_releases_prefix(s, events.len() as int);
        assert(events.take(events.len() as int) =~= events);
    } else {
        reveal_with_fuel(remote_keys, 2);
        reveal_with_fuel(remote_buttons, 2);
        if events.len() == 1 {
            assert(events.drop_last() =~= seq![]);
        }
        match m {
            WindowMsg::Button { button, .. } => {
                lemma_stays_unique(s.buttons, button);
            },
            WindowMsg::Key { scancode, extended, .. } => {
                lemma_stays_unique(s.keys, ScanCode { sc: scancode, ext: extended });
            },
            _ => {},
        }
    }
    assert(remote_keys(s.keys.to_set(), events) =~= after.keys.to_set());
    assert(remote_buttons(s.buttons.to_set(), events) =~= after.buttons.to_set());
}

proof fn lemma_releases_prefix<C>(s: Surface<C>, k: int)
    requires
        0 <= k <= releases(s).len(),
    ensures
        forall|i: int|
            0 <= i < s.keys.len() && i < k ==> !remote_keys(
                s.keys.to_set(),
                releases(s).take(k),
            ).contains(#[trigger] s.keys[i]),
        forall|i: int|
            0 <= i < s.buttons.len() && i + s.keys.len() < k ==> !remote_buttons(
                s.buttons.to_set(),
                releases(s).take(k),
            ).contains(#[trigger] s.buttons[i]),
        remote_keys(s.keys.to_set(), releases(s).take(k)).subset_of(s.keys.to_set()),
        remote_buttons(s.buttons.to_set(), releases(s).take(k)).subset_of(s.buttons.to_set()),
    decreases k,
{
    let all = releases(s);
    if k > 0 {
        lemma_releases_prefix(s, k - 1);
        assert(all.take(k).drop_last() =~= all.take(k - 1));
        assert(all.take(k).last() == all[k - 1]);
        if k - 1 < s.keys.len() {
            assert(all[k - 1] == VideoInput::<C>::Key {
                scancode: s.keys[k - 1].sc,
                extended: s.keys[k - 1].ext,
                down: false,
            });
        } else {
            assert(all[k - 1] == VideoInput::<C>::Button {
                button: s.buttons[k - 1 - s.keys.len()],
                down: false,
                nx: s.pos.0,
                ny: s.pos.1,
            });
        }
    } else {
        assert(all.take(0).len() == 0);
    }
}

/// The session bar comes up at the top edge and goes only once the pointer is
/// well inside the picture: it does not flicker in between.
pub proof fn law_bar_does_not_flicker(shown_px: i32, py: i32, bar: i32)
    requires
        REVEAL_EDGE_PX < py <= UNREVEAL_DEPTH_PX,
    ensures
        reveal_at(shown_px, py, bar) == shown_px,
{
}

/// A mouse message says where the pointer is, in signed pixels, across in its
/// low half and down in its high half; and which button it is about, and
/// whether that goes down.
pub proof fn law_mouse_messages_say_where(px: i32, py: i32, above: nat, wparam: u64, lparam: u64)
    requires
        -32768 <= px < 32768,
        -32768 <= py < 32768,
        lparam as int == px as int % 65536 + 65536 * (py as int % 65536) + 0x1_0000_0000 * above,
    ensures
        decoded(0x0200, wparam, lparam) == (WindowMsg::Move { px, py }),
        decoded(0x0201, wparam, lparam) == (WindowMsg::Button { button: 0, down: true, px, py }),
        decoded(0x0202, wparam, lparam) == (WindowMsg::Button { button: 0, down: false, px, py }),
        decoded(0x0207, wparam, lparam) == (WindowMsg::Button { button: 1, down: true, px, py }),
        decoded(0x0208, wparam, lparam) == (WindowMsg::Button { button: 1, down: false, px, py }),
        decoded(0x0204, wparam, lparam) == (WindowMsg::Button { button: 2, down: true, px, py }),
        decoded(0x0205, wparam, lparam) == (WindowMsg::Button { button: 2, down: false, px, py }),
{
    let x = px as int % 65536;
    let y = py as int % 65536;
    assert(lparam as int % 65536 == x);
    assert(lparam as int / 65536 == y + 65536 * above);
    assert(lparam as int / 65536 % 65536 == y);
    assert(signed16(x) == px && signed16(y) == py);
}

/// A wheel message says how far its wheel turned, signed, in the high half of
/// its first parameter: up and down for the one wheel, across for the other.
pub proof fn law_wheel_messages_say_how_far(
    turn: i32,
    below: nat,
    above: nat,
    wparam: u64,
    lparam: u64,
)
    requires
        -32768 <= turn < 32768,
        below < 65536,
        wparam as int == below + 65536 * (turn as int % 65536) + 0x1_0000_0000 * above,
    ensures
        decoded(0x020a, wparam, lparam) == (WindowMsg::Wheel { dx: 0, dy: turn }),
        decoded(0x020e, wparam, lparam) == (WindowMsg::Wheel { dx: turn, dy: 0 }),
{
    let t = turn as int % 65536;
    assert(wparam as int / 65536 == t + 65536 * above);
    assert(wparam as int / 65536 % 65536 == t);
    assert(signed16(t) == turn);
}

/// A key message says which key it is: the scan code lies above the repeat
/// count, and a bit above that tells extended keys.
pub proof fn law_key_messages_say_which(
    sc: u16,
    ext: bool,
    repeat: nat,
    above: nat,
    wparam: u64,
    lparam: u64,
)
    requires
        sc < 256,
        repeat < 65536,
        lparam as int == repeat + 65536 * sc + (if ext {
            0x100_0000int
        } else {
            0
        }) + 0x200_0000 * above,
    ensures
        decoded(0x0100, wparam, lparam) == (WindowMsg::Key {
            scancode: sc,
            extended: ext,
            down: true,
        }),
        decoded(0x0104, wparam, lparam) == decoded(0x0100, wparam, lparam),
        decoded(0x0101, wparam, lparam) == (WindowMsg::Key {
            scancode: sc,
            extended: ext,
            down: false,
        }),
        decoded(0x0105, wparam, lparam) == decoded(0x0101, wparam, lparam),
{
    let e = if ext {
        1int
    } else {
        0
    };
    assert(lparam as int / 65536 == sc + 256 * (e + 2 * above));
    assert(lparam as int / 65536 % 256 == sc);
    assert(lparam as int / 16777216 == e + 2 * above);
    assert(lparam as int / 16777216 % 2 == e);
}

/// The window also learns that it lost the focus and that files were dropped
/// on it, and nothing else is its business.
pub proof fn law_other_messages(msg: u32, wparam: u64, lparam: u64)
    ensures
        decoded(0x0008, wparam, lparam) == WindowMsg::FocusLost,
        decoded(0x0233, wparam, lparam) == WindowMsg::FilesDropped,
        msg != 0x0008 && msg != 0x0100 && msg != 0x0101 && msg != 0x0104 && msg != 0x0105 && msg
            != 0x0200 && msg != 0x0201 && msg != 0x0202 && msg != 0x0204 && msg != 0x0205 && msg
            != 0x0207 && msg != 0x0208 && msg != 0x020a && msg != 0x020e && msg != 0x0233
            ==> decoded(msg, wparam, lparam) == WindowMsg::Other,
{
}

/// What happens in the window is captured as it happens: one event for each
/// move, press, release and turn, at the place on the remote screen.
pub proof fn law_captured_as_it_happens<C>(
    s: Surface<C>,
    m: WindowMsg,
    pos: (C, C),
    bar: i32,
)
    ensures
        m is Move ==> captured(s, m, pos) == seq![VideoInput::Move { nx: pos.0, ny: pos.1 }]
            && surface_after(s, m, pos, bar).pos == pos,
        m matches WindowMsg::Button { button, down, .. } ==> captured(s, m, pos) == seq![
            VideoInput::Button { button, down, nx: pos.0, ny: pos.1 },
        ],
        m matches WindowMsg::Wheel { dx, dy } ==> captured(s, m, pos) == seq![
            VideoInput::<C>::Wheel { dx, dy },
        ],
        m matches WindowMsg::Key { scancode, extended, down } ==> captured(s, m, pos) == seq![
            VideoInput::<C>::Key { scancode, extended, down },
        ],
        m is FilesDropped || m is Other ==> captured(s, m, pos).len() == 0 && surface_after(
            s,
            m,
            pos,
            bar,
        ) == s,
        !(m is Move) ==> surface_after(s, m, pos, bar).pos == s.pos && surface_after(
            s,
            m,
            pos,
            bar,
        ).shown_px == s.shown_px,
        surface_after(s, m, pos, bar).capturing == s.capturing,
        surface_after(s, m, pos, bar).dropping == s.dropping,
        surface_after(s, m, pos, bar).video == s.video,
{
}

/// Losing the focus lets go of everything that is held, key by key and button
/// by button, the buttons where the pointer was last.
pub proof fn law_losing_focus_lets_go<C>(s: Surface<C>, pos: (C, C), bar: i32, i: int)
    requires
        0 <= i < s.keys.len() + s.buttons.len(),
    ensures
        ({
            let out = captured(s, WindowMsg::FocusLost, pos);
            &&& out.len() == s.keys.len() + s.buttons.len()
            &&& i < s.keys.len() ==> out[i] == VideoInput::<C>::Key {
                scancode: s.keys[i].sc,
                extended: s.keys[i].ext,
                down: false,
            }
            &&& i >= s.keys.len() ==> out[i] == VideoInput::<C>::Button {
                button: s.buttons[i - s.keys.len()],
                down: false,
                nx: s.pos.0,
                ny: s.pos.1,
            }
            &&& surface_after(s, WindowMsg::FocusLost, pos, bar).keys.len() == 0
            &&& surface_after(s, WindowMsg::FocusLost, pos, bar).buttons.len() == 0
        }),
{
}

/// The bar comes up at the top edge and goes when the pointer is well below it:
/// it appears within two pixels of the edge, at its height, and goes once the
/// pointer is more than 56 pixels down.
pub proof fn law_bar_comes_and_goes(shown: i32, py: i32, bar: i32)
    ensures
        shown <= 0 && py <= 2 ==> reveal_at(shown, py, bar) == bar,
        shown <= 0 && py > 2 ==> reveal_at(shown, py, bar) == shown,
        shown > 0 && py > 56 ==> reveal_at(shown, py, bar) == 0,
        shown > 0 && py <= 56 ==> reveal_at(shown, py, bar) == shown,
{
}

/// What a press adds is held until its release, and nothing else changes.
pub proof fn law_window_holds_until_released<C>(
    s: Surface<C>,
    scancode: u16,
    extended: bool,
    button: u8,
    px: i32,
    py: i32,
    pos: (C, C),
    bar: i32,
)
    requires
        s.keys.no_duplicates(),
        s.buttons.no_duplicates(),
    ensures
        ({
            let key = ScanCode { sc: scancode, ext: extended };
            let down = surface_after(
                s,
                WindowMsg::Key { scancode, extended, down: true },
                pos,
                bar,
            );
            let up = surface_after(
                s,
                WindowMsg::Key { scancode, extended, down: false },
                pos,
                bar,
            );
            let pressed = surface_after(
                s,
                WindowMsg::Button { button, down: true, px, py },
                pos,
                bar,
            );
            let released = surface_after(
                s,
                WindowMsg::Button { button, down: false, px, py },
                pos,
                bar,
            );
            &&& down.keys.contains(key) && !up.keys.contains(key)
            &&& forall|k: ScanCode|
                k != key ==> (#[trigger] down.keys.contains(k) <==> s.keys.contains(k))
            &&& forall|k: ScanCode|
                k != key ==> (#[trigger] up.keys.contains(k) <==> s.keys.contains(k))
            &&& down.buttons == s.buttons && up.buttons == s.buttons
            &&& pressed.buttons.contains(button) && !released.buttons.contains(button)
            &&& forall|b: u8|
                b != button ==> (#[trigger] pressed.buttons.contains(b) <==> s.buttons.contains(b))
            &&& forall|b: u8|
                b != button ==> (#[trigger] released.buttons.contains(b) <==> s.buttons.contains(
                    b,
                ))
            &&& pressed.keys == s.keys && released.keys == s.keys
        }),
{
    lemma_stays_unique(s.keys, ScanCode { sc: scancode, ext: extended });
    lemma_stays_unique(s.buttons, button);
}

/// Whether dropped files are passed on.
pub open spec fn takes_files<C>(s: Surface<C>, count: int) -> bool {
    s.dropping && count >= 1
}

/// Files that are dropped are passed on exactly if there are any and somebody
/// wants them.
pub proof fn law_dropped_files_are_passed_on<C>(s: Surface<C>, count: nat)
    ensures
        takes_files(Surface { dropping: true, ..s }, count as int) <==> count > 0,
        !takes_files(Surface { dropping: false, ..s }, count as int),
{
}

} // verus!
