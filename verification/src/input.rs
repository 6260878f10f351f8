//! Input events on their way from the viewer's window to the host.
//!
//! Coordinates are relative to the whole captured screen, from its top left
//! corner. Nothing here computes with them, so their type `C` is left open.

use vstd::prelude::*;

use crate::scancode::{code_for, key_name};
use crate::text::owned;

verus! {

/// A mouse button, numbered as in DOM's `MouseEvent.button`.
#[derive(Debug, Clone, Copy, PartialEq, Eq, Structural)]
pub enum Button {
    Left,
    Middle,
    Right,
}

/// The button of a number.
pub open spec fn button_of(v: u8) -> Option<Button> {
    if v == 0 {
        Some(Button::Left)
    } else if v == 1 {
        Some(Button::Middle)
    } else if v == 2 {
        Some(Button::Right)
    } else {
        None
    }
}

/// The number of a button.
pub open spec fn button_id(b: Button) -> u8 {
    match b {
        Button::Left => 0,
        Button::Middle => 1,
        Button::Right => 2,
    }
}

impl TryFrom<u8> for Button {
    type Error = &'static str;

    fn try_from(v: u8) -> (r: Result<Button, &'static str>) {
        if v == 0 {
            Ok(Button::Left)
        } else if v == 1 {
            Ok(Button::Middle)
        } else if v == 2 {
            Ok(Button::Right)
        } else {
            Err("invalid mouse button")
        }
    }
}

impl vstd::std_specs::convert::TryFromSpecImpl<u8> for Button {
    open spec fn obeys_try_from_spec() -> bool {
        true
    }

    open spec fn try_from_spec(v: u8) -> Result<Button, &'static str> {
        match button_of(v) {
            Some(b) => Ok(b),
            None => Err("invalid mouse button"),
        }
    }
}

impl From<Button> for u8 {
    fn from(b: Button) -> (v: u8) {
        match b {
            Button::Left => 0,
            Button::Middle => 1,
            Button::Right => 2,
        }
    }
}

impl vstd::std_specs::convert::FromSpecImpl<Button> for u8 {
    open spec fn obeys_from_spec() -> bool {
        true
    }

    open spec fn from_spec(b: Button) -> u8 {
        button_id(b)
    }
}

/// Every button is the one of its number, and every number that has a button
/// is that button's.
pub proof fn law_button_numbers(b: Button, v: u8)
    ensures
        button_of(button_id(b)) == Some(b),
        button_of(v) is Some ==> button_id(button_of(v)->0) == v,
        button_of(v) is None <==> v > 2,
{
}

/// One input event, as the viewer sends it to the host.
#[derive(Debug, Clone)]
pub enum InputMsg<C> {
    Move { x: C, y: C },
    /// A press carries its position, so that it lands even if a preceding
    /// move was dropped.
    ButtonDown { b: Button, x: C, y: C },
    ButtonUp { b: Button, x: C, y: C },
    /// In wheel units, multiples of 120 either way.
    Wheel { dx: i32, dy: i32 },
    /// `code` is the DOM `KeyboardEvent.code`.
    KeyDown { code: String },
    KeyUp { code: String },
}

/// What an input event is.
pub ghost enum Input<C> {
    Move(C, C),
    Button(Button, bool, C, C),
    Wheel(i32, i32),
    Key(Seq<char>, bool),
}

impl<C> View for InputMsg<C> {
    type V = Input<C>;

    open spec fn view(&self) -> Input<C> {
        match self {
            InputMsg::Move { x, y } => Input::Move(*x, *y),
            InputMsg::ButtonDown { b, x, y } => Input::Button(*b, true, *x, *y),
            InputMsg::ButtonUp { b, x, y } => Input::Button(*b, false, *x, *y),
            InputMsg::Wheel { dx, dy } => Input::Wheel(*dx, *dy),
            InputMsg::KeyDown { code } => Input::Key(code@, true),
            InputMsg::KeyUp { code } => Input::Key(code@, false),
        }
    }
}

/// One input event, as the video window captures it.
#[derive(Debug, Clone, Copy)]
pub enum VideoInput<C> {
    Move { nx: C, ny: C },
    Button { button: u8, down: bool, nx: C, ny: C },
    Wheel { dx: i32, dy: i32 },
    Key { scancode: u16, extended: bool, down: bool },
}

/// The event to send for a captured one; `None` for a button or a key that
/// has no name.
pub open spec fn translated<C>(ev: VideoInput<C>) -> Option<Input<C>> {
    match ev {
        VideoInput::Move { nx, ny } => Some(Input::Move(nx, ny)),
        VideoInput::Button { button, down, nx, ny } => match button_of(button) {
            Some(b) => Some(Input::Button(b, down, nx, ny)),
            None => None,
        },
        VideoInput::Wheel { dx, dy } => Some(Input::Wheel(dx, dy)),
        VideoInput::Key { scancode, extended, down } => match key_name(scancode, extended) {
            Some(code) => Some(Input::Key(code, down)),
            None => None,
        },
    }
}

/// Translates a captured event into the one to send.
pub fn translate_input<C>(ev: VideoInput<C>) -> (r: Option<InputMsg<C>>)
    ensures
        r is Some <==> translated(ev) is Some,
        r is Some ==> r->0@ == translated(ev)->0,
{
    match ev {
        VideoInput::Move { nx, ny } => Some(InputMsg::Move { x: nx, y: ny }),
        VideoInput::Button { button, down, nx, ny } => match Button::try_from(button) {
            Ok(b) => if down {
                Some(InputMsg::ButtonDown { b, x: nx, y: ny })
            } else {
                Some(InputMsg::ButtonUp { b, x: nx, y: ny })
            },
            Err(_) => None,
        },
        VideoInput::Wheel { dx, dy } => Some(InputMsg::Wheel { dx, dy }),
        VideoInput::Key { scancode, extended, down } => match code_for(scancode, extended) {
            Some(name) => {
                let code: String = owned(name);
                if down {
                    Some(InputMsg::KeyDown { code })
                } else {
                    Some(InputMsg::KeyUp { code })
                }
            },
            None => None,
        },
    }
}

/// How long two relayed mouse moves lie apart at least.
pub const MOVE_INTERVAL_MS: u64 = 10;

/// Whether an event is a mouse move.
pub open spec fn is_move<C>(ev: VideoInput<C>) -> bool {
    ev is Move
}

/// How many of the leading events are moves.
pub open spec fn leading_moves<C>(queue: Seq<VideoInput<C>>) -> int
    decreases queue.len(),
{
    if queue.len() > 0 && is_move(queue[0]) {
        1 + leading_moves(queue.skip(1))
    } else {
        0
    }
}

proof fn lemma_leading_moves<C>(queue: Seq<VideoInput<C>>, k: int)
    requires
        0 <= k <= queue.len(),
        forall|i: int| 0 <= i < k ==> is_move(#[trigger] queue[i]),
        k < queue.len() ==> !is_move(queue[k]),
    ensures
        leading_moves(queue) == k,
    decreases k,
{
    if k > 0 {
        let t = queue.skip(1);
        assert(is_move(queue[0]));
        assert forall|i: int| 0 <= i < k - 1 implies is_move(#[trigger] t[i]) by {
            assert(t[i] == queue[i + 1]);
        }
        lemma_leading_moves(t, k - 1);
    }
}

/// The relay of captured events: moves are merged, so that a fast mouse does
/// not queue ahead of clicks and keys.
#[derive(Debug)]
pub struct MoveRelay {
    /// When a move was last relayed, if one was.
    pub last_move: Option<u64>,
}

impl MoveRelay {
    /// A relay that has relayed nothing.
    pub fn new() -> (r: Self)
        ensures
            r.last_move is None,
    {
        MoveRelay { last_move: None }
    }

    /// How long to wait before a captured event is looked at: a move waits
    /// until the interval since the last one is over, nothing else waits.
    pub fn wait_ms<C>(&self, ev: &VideoInput<C>, now: u64) -> (ms: u64)
        ensures
            ms == (if is_move(*ev) && self.last_move is Some && self.last_move->0 <= now < self.last_move->0
                + MOVE_INTERVAL_MS {
                self.last_move->0 + MOVE_INTERVAL_MS - now
            } else if is_move(*ev) && self.last_move is Some && now < self.last_move->0 {
                MOVE_INTERVAL_MS as int
            } else {
                0
            }),
            !(*ev is Move) || self.last_move is None ==> ms == 0,
            *ev is Move && self.last_move is Some && self.last_move->0 <= now ==> (now + ms
                >= self.last_move->0 + 10 && (ms > 0 ==> now + ms == self.last_move->0 + 10)),
    {
        match (ev, self.last_move) {
            (VideoInput::Move { .. }, Some(last)) => {
                let since: u64 = now.saturating_sub(last);
                if since < MOVE_INTERVAL_MS {
                    MOVE_INTERVAL_MS - since
                } else {
                    0
                }
            },
            _ => 0,
        }
    }

    /// What to relay of a captured event and of what queued up behind it: a
    /// move gives way to the newest of the moves that follow it directly, and
    /// takes the event behind those along. Also how many of the queued events
    /// that uses up.
    pub fn merge<C: Copy>(&mut self, ev: VideoInput<C>, queue: &[VideoInput<C>], now: u64) -> (r: (
        Vec<VideoInput<C>>,
        usize,
    ))
        ensures
            merged(ev, queue@) == (r.0@, r.1 as int),
            final(self).last_move == (if is_move(ev) {
                Some(now)
            } else {
                old(self).last_move
            }),
    {
        let mut out: Vec<VideoInput<C>> = Vec::new();
        let moving: bool = match ev {
            VideoInput::Move { .. } => true,
            _ => false,
        };
        if !moving {
            out.push(ev);
            assert(out@ =~= seq![ev]);
            return (out, 0);
        }
        self.last_move = Some(now);
        let mut newest: VideoInput<C> = ev;
        let n: usize = queue.len();
        let mut k: usize = 0;
        while k < n
            invariant
                k <= n == queue@.len(),
                out@.len() == 0,
                self.last_move == Some(now),
                is_move(ev),
                newest == (if k == 0 {
                    ev
                } else {
                    queue@[k - 1]
                }),
                forall|i: int| 0 <= i < k ==> is_move(#[trigger] queue@[i]),
            decreases n - k,
        {
            let next: VideoInput<C> = queue[k];
            let same: bool = match next {
                VideoInput::Move { .. } => true,
                _ => false,
            };
            if !same {
                proof {
                    lemma_leading_moves(queue@, k as int);
                }
                out.push(newest);
                out.push(next);
                assert(out@ =~= seq![newest, next]);
                return (out, k + 1);
            }
            newest = next;
            k += 1;
        }
        proof {
            lemma_leading_moves(queue@, n as int);
        }
        out.push(newest);
        assert(out@ =~= seq![newest]);
        (out, n)
    }
}

/// What is relayed of an event and of what queued up behind it, and how much
/// of the queue that uses up.
pub open spec fn merged<C>(ev: VideoInput<C>, queue: Seq<VideoInput<C>>) -> (
    Seq<VideoInput<C>>,
    int,
) {
    let k = leading_moves(queue);
    let newest = if k == 0 {
        ev
    } else {
        queue[k - 1]
    };
    if !is_move(ev) {
        (seq![ev], 0)
    } else if k < queue.len() {
        (seq![newest, queue[k]], k + 1)
    } else {
        (seq![newest], k)
    }
}

proof fn lemma_leading_moves_are_moves<C>(queue: Seq<VideoInput<C>>)
    ensures
        0 <= leading_moves(queue) <= queue.len(),
        forall|i: int| 0 <= i < leading_moves(queue) ==> is_move(#[trigger] queue[i]),
        leading_moves(queue) < queue.len() ==> !is_move(queue[leading_moves(queue)]),
    decreases queue.len(),
{
    if queue.len() > 0 && is_move(queue[0]) {
        let t = queue.skip(1);
        lemma_leading_moves_are_moves(t);
        assert forall|i: int| 0 <= i < leading_moves(queue) implies is_move(
            #[trigger] queue[i],
        ) by {
            if i > 0 {
                assert(t[i - 1] == queue[i]);
            }
        }
    }
}

/// Merging loses nothing but moves that a newer one has superseded: of what it
/// uses up, everything that is not a move is relayed, in its order, and a
/// relayed move is the newest of its run.
pub proof fn law_merging_loses_only_stale_moves<C>(ev: VideoInput<C>, queue: Seq<VideoInput<C>>)
    ensures
        ({
            let all = seq![ev] + queue;
            let (out, used) = merged(ev, queue);
            &&& 0 <= used <= queue.len()
            &&& out.last() == all[used]
            &&& forall|i: int|
                0 <= i <= used && !is_move(#[trigger] all[i]) ==> i == used || i == 0 && out[0]
                    == all[0]
            &&& out.len() == 2 ==> out[0] == all[used - 1] && is_move(out[0]) && !is_move(out[1])
        }),
{
    lemma_leading_moves_are_moves(queue);
    let all = seq![ev] + queue;
    let (out, used) = merged(ev, queue);
    assert forall|i: int| 0 <= i <= used && !is_move(#[trigger] all[i]) implies i == used || i == 0
        && out[0] == all[0] by {
        if 0 < i < used {
            assert(all[i] == queue[i - 1]);
        }
    }
}

/// Buttons are numbered from the left: left is 0, middle 1, right 2.
pub proof fn law_buttons_count_from_the_left()
    ensures
        button_id(Button::Left) == 0,
        button_id(Button::Middle) == button_id(Button::Left) + 1,
        button_id(Button::Right) == button_id(Button::Middle) + 1,
{
}

/// What was captured is sent as what it was: the same place, the same turn, the
/// same button, and the same way.
pub proof fn law_translation_keeps_everything<C>(ev: VideoInput<C>, m: InputMsg<C>)
    requires
        translated(ev) == Some(m@),
    ensures
        match ev {
            VideoInput::Move { nx, ny } => m matches InputMsg::Move { x, y } && x == nx && y == ny,
            VideoInput::Button { button, down, nx, ny } => if down {
                m matches InputMsg::ButtonDown { b, x, y } && x == nx && y == ny && button_id(b)
                    == button
            } else {
                m matches InputMsg::ButtonUp { b, x, y } && x == nx && y == ny && button_id(b)
                    == button
            },
            VideoInput::Wheel { dx, dy } => m matches InputMsg::Wheel { dx: mx, dy: my } && mx == dx
                && my == dy,
            VideoInput::Key { scancode, extended, down } => if down {
                m matches InputMsg::KeyDown { code } && key_name(scancode, extended) == Some(code@)
            } else {
                m matches InputMsg::KeyUp { code } && key_name(scancode, extended) == Some(code@)
            },
        },
{
}

/// Nothing but a run of moves is merged: an event that is no move is relayed by
/// itself at once, and of a move and the moves right behind it the newest is
/// relayed, with the first event behind them.
pub proof fn law_only_moves_are_merged<C>(ev: VideoInput<C>, queue: Seq<VideoInput<C>>, k: int)
    requires
        0 <= k <= queue.len(),
        forall|i: int| 0 <= i < k ==> (#[trigger] queue[i]) is Move,
        k < queue.len() ==> !(queue[k] is Move),
    ensures
        !(ev is Move) ==> merged(ev, queue) == (seq![ev], 0int),
        ev is Move ==> merged(ev, queue).0[0] == (if k == 0 {
            ev
        } else {
            queue[k - 1]
        }),
        ev is Move && k < queue.len() ==> merged(ev, queue).0.len() == 2 && merged(ev, queue).0[1]
            == queue[k] && merged(ev, queue).1 == k + 1,
        ev is Move && k == queue.len() ==> merged(ev, queue).0.len() == 1 && merged(ev, queue).1
            == k,
{
    lemma_leading_moves(queue, k);
}

/// An input message is seen with everything in it, each in its place.
pub proof fn law_input_is_seen_as_it_is<C>(m: InputMsg<C>)
    ensures
        match m {
            InputMsg::Move { x, y } => m@ == Input::Move(x, y),
            InputMsg::ButtonDown { b, x, y } => m@ == Input::Button(b, true, x, y),
            InputMsg::ButtonUp { b, x, y } => m@ == Input::Button(b, false, x, y),
            InputMsg::Wheel { dx, dy } => m@ == Input::<C>::Wheel(dx, dy),
            InputMsg::KeyDown { code } => m@ == Input::<C>::Key(code@, true),
            InputMsg::KeyUp { code } => m@ == Input::<C>::Key(code@, false),
        },
{
}

} // verus!
