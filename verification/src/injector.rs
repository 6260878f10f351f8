//! Injection of remote input: which low-level events an input message turns
//! into, and what is held down meanwhile, so that a viewer who vanishes never
//! leaves a key or a button stuck.

use vstd::prelude::*;

use crate::input::{translated, Button, Input, InputMsg, VideoInput};
use crate::scancode::{key_name, law_key_names_resolve, lookup, scan_code, ScanCode};

verus! {

/// Marks every injected event, so that our own keyboard hook lets it pass.
pub const INJECT_SENTINEL: usize = 0x5343_5253;

/// The bounds of the shared display on the virtual desktop.
#[derive(Debug, Clone, Copy, PartialEq, Eq, Structural)]
pub struct TargetRect {
    pub x: i32,
    pub y: i32,
    pub w: i32,
    pub h: i32,
}

/// One low-level event to inject.
#[derive(Debug, Clone, Copy)]
pub enum Act<C> {
    /// Move the pointer to a place on the shared display.
    MoveTo { x: C, y: C },
    Button { b: Button, down: bool },
    /// Turn the vertical wheel.
    Wheel(i32),
    /// Turn the horizontal wheel.
    HWheel(i32),
    Key { key: ScanCode, down: bool },
}

/// What is held down, in the order of the presses, and where events go.
#[verifier::ext_equal]
pub ghost struct Hand {
    pub keys: Seq<ScanCode>,
    pub buttons: Seq<Button>,
    pub target: Option<TargetRect>,
}

/// A list with one more member, unless it is there.
pub open spec fn with<T>(s: Seq<T>, x: T) -> Seq<T> {
    if s.contains(x) {
        s
    } else {
        s.push(x)
    }
}

/// A list without a member.
pub open spec fn without<T>(s: Seq<T>, x: T) -> Seq<T> {
    if s.contains(x) {
        s.remove(s.index_of(x))
    } else {
        s
    }
}

/// What a key event makes of a hand. A key that is not supported does nothing.
pub open spec fn after_key(h: Hand, code: Seq<char>, down: bool) -> Hand {
    match scan_code(code) {
        Some(key) => Hand {
            keys: if down {
                with(h.keys, key)
            } else {
                without(h.keys, key)
            },
            ..h
        },
        None => h,
    }
}

/// What a button event makes of a hand.
pub open spec fn after_button(h: Hand, b: Button, down: bool) -> Hand {
    Hand {
        buttons: if down {
            with(h.buttons, b)
        } else {
            without(h.buttons, b)
        },
        ..h
    }
}

/// The events to inject for a key.
pub open spec fn key_acts<C>(code: Seq<char>, down: bool) -> Seq<Act<C>> {
    match scan_code(code) {
        Some(key) => seq![Act::Key { key, down }],
        None => seq![],
    }
}

/// The events to inject for a button: a move first, so that it lands where it
/// was aimed even if a preceding move was lost.
pub open spec fn button_acts<C>(b: Button, down: bool, x: C, y: C) -> Seq<Act<C>> {
    seq![Act::MoveTo { x, y }, Act::Button { b, down }]
}

/// The events to inject for the wheels; one that does not turn gives none.
pub open spec fn wheel_acts<C>(dx: i32, dy: i32) -> Seq<Act<C>> {
    let vertical: Seq<Act<C>> = if dy != 0 {
        seq![Act::Wheel(dy)]
    } else {
        seq![]
    };
    let horizontal: Seq<Act<C>> = if dx != 0 {
        seq![Act::HWheel(dx)]
    } else {
        seq![]
    };
    vertical + horizontal
}

/// What an input message makes of a hand.
pub open spec fn after_input<C>(h: Hand, msg: Input<C>) -> Hand {
    match msg {
        Input::Button(b, down, _, _) => after_button(h, b, down),
        Input::Key(code, down) => after_key(h, code, down),
        _ => h,
    }
}

/// The events to inject for an input message.
pub open spec fn input_acts<C>(msg: Input<C>) -> Seq<Act<C>> {
    match msg {
        Input::Move(x, y) => seq![Act::MoveTo { x, y }],
        Input::Button(b, down, x, y) => button_acts(b, down, x, y),
        Input::Wheel(dx, dy) => wheel_acts(dx, dy),
        Input::Key(code, down) => key_acts(code, down),
    }
}

/// The events that let go of everything: the keys, then the buttons, without a
/// move, so that the pointer stays.
pub open spec fn release_acts<C>(h: Hand) -> Seq<Act<C>> {
    h.keys.map_values(|key: ScanCode| Act::Key { key, down: false }) + h.buttons.map_values(
        |b: Button| Act::Button { b, down: false },
    )
}

/// Keeps track of what is held down while input is injected.
#[derive(Debug)]
pub struct Injector {
    down_keys: Vec<ScanCode>,
    down_buttons: Vec<Button>,
    target: Option<TargetRect>,
}

impl View for Injector {
    type V = Hand;

    closed spec fn view(&self) -> Hand {
        Hand { keys: self.down_keys@, buttons: self.down_buttons@, target: self.target }
    }
}

impl Default for Injector {
    fn default() -> (i: Self)
        ensures
            i.wf(),
            i@ == (Hand { keys: seq![], buttons: seq![], target: None }),
    {
        Injector::new()
    }
}

impl Injector {
    /// Nothing is listed twice.
    pub open spec fn wf(&self) -> bool {
        self@.keys.no_duplicates() && self@.buttons.no_duplicates()
    }

    /// An injector that holds nothing down and aims at the primary display.
    pub fn new() -> (i: Self)
        ensures
            i.wf(),
            i@ == (Hand { keys: seq![], buttons: seq![], target: None }),
    {
        let i = Injector { down_keys: Vec::new(), down_buttons: Vec::new(), target: None };
        assert(i@ =~= Hand { keys: seq![], buttons: seq![], target: None });
        i
    }

    /// Sets the shared display. An empty one counts as none: the primary.
    pub fn set_target_rect(&mut self, rect: Option<TargetRect>)
        requires
            old(self).wf(),
        ensures
            final(self).wf(),
            final(self)@ == (Hand {
                target: if rect is Some && rect->0.w > 0 && rect->0.h > 0 {
                    rect
                } else {
                    None
                },
                ..old(self)@
            }),
    {
        self.target = match rect {
            Some(r) => if r.w > 0 && r.h > 0 {
                Some(r)
            } else {
                None
            },
            None => None,
        };
    }

    /// The display to move on, if the whole virtual desktop of this size must
    /// be taken into account; `None` to move on the primary display alone.
    pub fn move_target(&self, virtual_w: i32, virtual_h: i32) -> (r: Option<TargetRect>)
        ensures
            r == (if virtual_w <= 1 || virtual_h <= 1 {
                None
            } else {
                self@.target
            }),
    {
        if virtual_w <= 1 || virtual_h <= 1 {
            None
        } else {
            self.target
        }
    }

    /// Takes in an input message and gives the events to inject for it.
    pub fn dispatch<C: Copy>(&mut self, msg: &InputMsg<C>) -> (acts: Vec<Act<C>>)
        requires
            old(self).wf(),
        ensures
            final(self).wf(),
            final(self)@ == after_input(old(self)@, msg@),
            acts@ == input_acts(msg@),
    {
        match msg {
            InputMsg::Move { x, y } => self.mouse_move(*x, *y),
            InputMsg::ButtonDown { b, x, y } => self.mouse_button(*b, true, *x, *y),
            InputMsg::ButtonUp { b, x, y } => self.mouse_button(*b, false, *x, *y),
            InputMsg::Wheel { dx, dy } => self.wheel(*dx, *dy),
            InputMsg::KeyDown { code } => self.key(code.as_str(), true),
            InputMsg::KeyUp { code } => self.key(code.as_str(), false),
        }
    }

    /// Moves the pointer.
    pub fn mouse_move<C>(&self, x: C, y: C) -> (acts: Vec<Act<C>>)
        ensures
            acts@ == seq![Act::MoveTo { x, y }],
    {
        let mut acts: Vec<Act<C>> = Vec::new();
        acts.push(Act::MoveTo { x, y });
        assert(acts@ =~= seq![Act::MoveTo { x, y }]);
        acts
    }

    /// Presses or releases a button.
    pub fn mouse_button<C>(&mut self, b: Button, is_down: bool, x: C, y: C) -> (acts: Vec<Act<C>>)
        requires
            old(self).wf(),
        ensures
            final(self).wf(),
            final(self)@ == after_button(old(self)@, b, is_down),
            acts@ == button_acts(b, is_down, x, y),
    {
        let n: usize = self.down_buttons.len();
        let mut at: usize = 0;
        while at < n && self.down_buttons[at] != b
            invariant
                at <= n == self.down_buttons@.len(),
                *self == *old(self),
                forall|i: int| 0 <= i < at ==> #[trigger] self.down_buttons@[i] != b,
            decreases n - at,
        {
            at += 1;
        }
        proof {
            lemma_found(self.down_buttons@, b, at as int);
            lemma_stays_unique(self.down_buttons@, b);
        }
        if is_down && at == n {
            self.down_buttons.push(b);
        }
        if !is_down && at < n {
            let _ = self.down_buttons.remove(at);
        }
        let mut acts: Vec<Act<C>> = Vec::new();
        acts.push(Act::MoveTo { x, y });
        acts.push(Act::Button { b, down: is_down });
        assert(acts@ =~= button_acts(b, is_down, x, y));
        acts
    }

    /// Turns the wheels.
    pub fn wheel<C>(&self, dx: i32, dy: i32) -> (acts: Vec<Act<C>>)
        ensures
            acts@ == wheel_acts::<C>(dx, dy),
    {
        let mut acts: Vec<Act<C>> = Vec::new();
        if dy != 0 {
            acts.push(Act::Wheel(dy));
        }
        if dx != 0 {
            acts.push(Act::HWheel(dx));
        }
        assert(acts@ =~= wheel_acts::<C>(dx, dy));
        acts
    }

    /// Presses or releases a key. One that is not supported is ignored.
    pub fn key<C>(&mut self, code: &str, is_down: bool) -> (acts: Vec<Act<C>>)
        requires
            old(self).wf(),
        ensures
            final(self).wf(),
            final(self)@ == after_key(old(self)@, code@, is_down),
            acts@ == key_acts::<C>(code@, is_down),
    {
        let mut acts: Vec<Act<C>> = Vec::new();
        let key: ScanCode = match lookup(code) {
            Some(key) => key,
            None => {
                assert(acts@ =~= key_acts::<C>(code@, is_down));
                return acts;
            },
        };
        let n: usize = self.down_keys.len();
        let mut at: usize = 0;
        while at < n && self.down_keys[at] != key
            invariant
                at <= n == self.down_keys@.len(),
                *self == *old(self),
                forall|i: int| 0 <= i < at ==> #[trigger] self.down_keys@[i] != key,
            decreases n - at,
        {
            at += 1;
        }
        proof {
            lemma_found(self.down_keys@, key, at as int);
            lemma_stays_unique(self.down_keys@, key);
        }
        if is_down && at == n {
            self.down_keys.push(key);
        }
        if !is_down && at < n {
            let _ = self.down_keys.remove(at);
        }
        acts.push(Act::Key { key, down: is_down });
        assert(acts@ =~= key_acts::<C>(code@, is_down));
        acts
    }

    /// Lets go of everything that is held down.
    pub fn release_all<C>(&mut self) -> (acts: Vec<Act<C>>)
        requires
            old(self).wf(),
        ensures
            final(self).wf(),
            final(self)@ == (Hand { keys: seq![], buttons: seq![], target: old(self)@.target }),
            acts@ == release_acts::<C>(old(self)@),
    {
        let ghost h = self@;
        let mut acts: Vec<Act<C>> = Vec::new();
        let n: usize = self.down_keys.len();
        let mut i: usize = 0;
        while i < n
            invariant
                i <= n == self.down_keys@.len(),
                *self == *old(self),
                h == self@,
                acts@ == release_acts::<C>(h).take(i as int),
            decreases n - i,
        {
            acts.push(Act::Key { key: self.down_keys[i], down: false });
            i += 1;
            assert(acts@ =~= release_acts::<C>(h).take(i as int));
        }
        let m: usize = self.down_buttons.len();
        let mut j: usize = 0;
        while j < m
            invariant
                j <= m == self.down_buttons@.len(),
                n == self.down_keys@.len(),
                *self == *old(self),
                h == self@,
                acts@ == release_acts::<C>(h).take(n + j),
            decreases m - j,
        {
            acts.push(Act::Button { b: self.down_buttons[j], down: false });
            j += 1;
            assert(acts@ =~= release_acts::<C>(h).take(n + j));
        }
        assert(release_acts::<C>(h).take(n + m) =~= release_acts::<C>(h));
        self.down_keys = Vec::new();
        self.down_buttons = Vec::new();
        assert(self@.keys =~= seq![]);
        assert(self@.buttons =~= seq![]);
        acts
    }
}

/// A search that ended at `at` has found the member or shown that there is
/// none.
pub proof fn lemma_found<T>(s: Seq<T>, x: T, at: int)
    requires
        0 <= at <= s.len(),
        forall|i: int| 0 <= i < at ==> #[trigger] s[i] != x,
        at < s.len() ==> s[at] == x,
    ensures
        s.contains(x) <==> at < s.len(),
        at < s.len() ==> s.no_duplicates() ==> s.index_of(x) == at,
{
    if at < s.len() {
        assert(s.contains(x));
    }
}

/// Adding and removing keeps a list free of duplicates.
pub proof fn lemma_stays_unique<T>(s: Seq<T>, x: T)
    requires
        s.no_duplicates(),
    ensures
        with(s, x).no_duplicates(),
        without(s, x).no_duplicates(),
        forall|y: T| #[trigger] with(s, x).contains(y) <==> s.contains(y) || y == x,
        forall|y: T| #[trigger] without(s, x).contains(y) <==> s.contains(y) && y != x,
{
    let more = with(s, x);
    let less = without(s, x);
    assert forall|y: T| #[trigger] more.contains(y) <==> s.contains(y) || y == x by {
        if !s.contains(x) {
            if s.contains(y) {
                assert(more[s.index_of(y)] == y);
            }
            assert(more[s.len() as int] == x);
        }
    }
    if s.contains(x) {
        let k = s.index_of(x);
        assert forall|y: T| #[trigger] less.contains(y) <==> s.contains(y) && y != x by {
            if s.contains(y) && y != x {
                let j = s.index_of(y);
                if j < k {
                    assert(less[j] == y);
                } else {
                    assert(less[j - 1] == y);
                }
            }
            if less.contains(y) {
                let j = less.index_of(y);
                if j < k {
                    assert(s[j] == y);
                } else {
                    assert(s[j + 1] == y);
                }
            }
        }
    }
}

/// Which keys are down once events have been injected.
pub open spec fn keys_down<C>(before: Set<ScanCode>, acts: Seq<Act<C>>) -> Set<ScanCode>
    decreases acts.len(),
{
    if acts.len() == 0 {
        before
    } else {
        let mid = keys_down(before, acts.drop_last());
        match acts.last() {
            Act::Key { key, down } => if down {
                mid.insert(key)
            } else {
                mid.remove(key)
            },
            _ => mid,
        }
    }
}

/// Which buttons are down once events have been injected.
pub open spec fn buttons_down<C>(before: Set<Button>, acts: Seq<Act<C>>) -> Set<Button>
    decreases acts.len(),
{
    if acts.len() == 0 {
        before
    } else {
        let mid = buttons_down(before, acts.drop_last());
        match acts.last() {
            Act::Button { b, down } => if down {
                mid.insert(b)
            } else {
                mid.remove(b)
            },
            _ => mid,
        }
    }
}

/// What is recorded as held is what is down on this machine: each message
/// keeps that so.
pub proof fn law_held_is_what_is_down<C>(h: Hand, msg: Input<C>)
    requires
        h.keys.no_duplicates(),
        h.buttons.no_duplicates(),
    ensures
        keys_down(h.keys.to_set(), input_acts(msg)) == after_input(h, msg).keys.to_set(),
        buttons_down(h.buttons.to_set(), input_acts(msg)) == after_input(h, msg).buttons.to_set(),
{
    let acts = input_acts(msg);
    let keys = h.keys.to_set();
    let buttons = h.buttons.to_set();
    reveal_with_fuel(keys_down, 3);
    reveal_with_fuel(buttons_down, 3);
    match msg {
        Input::Button(b, down, _, _) => {
            lemma_stays_unique(h.buttons, b);
            assert(acts.drop_last().drop_last() =~= seq![]);
        },
        Input::Key(code, _) => {
            if scan_code(code) is Some {
                lemma_stays_unique(h.keys, scan_code(code)->0);
                assert(acts.drop_last() =~= seq![]);
            }
        },
        Input::Move(_, _) => {
            assert(acts.drop_last() =~= seq![]);
        },
        Input::Wheel(_, _) => {
            if acts.len() == 2 {
                assert(acts.drop_last().drop_last() =~= seq![]);
            } else if acts.len() == 1 {
                assert(acts.drop_last() =~= seq![]);
            }
        },
    }
    assert(keys_down(keys, acts) =~= after_input(h, msg).keys.to_set());
    assert(buttons_down(buttons, acts) =~= after_input(h, msg).buttons.to_set());
}

/// Releasing leaves nothing down: no key and no button stays stuck.
pub proof fn law_release_leaves_nothing_down<C>(h: Hand)
    ensures
        keys_down(h.keys.to_set(), release_acts::<C>(h)) == Set::<ScanCode>::empty(),
        buttons_down(h.buttons.to_set(), release_acts::<C>(h)) == Set::<Button>::empty(),
{
    let acts = release_acts::<C>(h);
    lemma_release_prefix::<C>(h, acts.len() as int);
    assert(acts.take(acts.len() as int) =~= acts);
    assert(keys_down(h.keys.to_set(), acts) =~= Set::<ScanCode>::empty());
    assert(buttons_down(h.buttons.to_set(), acts) =~= Set::<Button>::empty());
}

proof fn lemma_release_prefix<C>(h: Hand, k: int)
    requires
        0 <= k <= release_acts::<C>(h).len(),
    ensures
        forall|i: int|
            0 <= i < h.keys.len() && i < k ==> !keys_down(
                h.keys.to_set(),
                release_acts::<C>(h).take(k),
            ).contains(#[trigger] h.keys[i]),
        forall|i: int|
            0 <= i < h.buttons.len() && i + h.keys.len() < k ==> !buttons_down(
                h.buttons.to_set(),
                release_acts::<C>(h).take(k),
            ).contains(#[trigger] h.buttons[i]),
        keys_down(h.keys.to_set(), release_acts::<C>(h).take(k)).subset_of(h.keys.to_set()),
        buttons_down(h.buttons.to_set(), release_acts::<C>(h).take(k)).subset_of(
            h.buttons.to_set(),
        ),
    decreases k,
{
    let acts = release_acts::<C>(h);
    if k > 0 {
        lemma_release_prefix::<C>(h, k - 1);
        assert(acts.take(k).drop_last() =~= acts.take(k - 1));
        assert(acts.take(k).last() == acts[k - 1]);
        if k - 1 < h.keys.len() {
            assert(acts[k - 1] == Act::<C>::Key { key: h.keys[k - 1], down: false });
        } else {
            assert(acts[k - 1] == Act::<C>::Button {
                b: h.buttons[k - 1 - h.keys.len()],
                down: false,
            });
        }
    } else {
        assert(acts.take(0).len() == 0);
    }
}

/// Where the pointer is once events have been injected.
pub open spec fn pointer_after<C>(before: (C, C), acts: Seq<Act<C>>) -> (C, C)
    decreases acts.len(),
{
    if acts.len() == 0 {
        before
    } else {
        match acts.last() {
            Act::MoveTo { x, y } => (x, y),
            _ => pointer_after(before, acts.drop_last()),
        }
    }
}

/// The pointer goes where a message says: the position after a move, a press or
/// a release is the one that the message names, and a move does nothing else.
pub proof fn law_pointer_goes_where_it_is_told<C>(x: C, y: C, b: Button, before: (C, C))
    ensures
        input_acts((InputMsg::Move { x, y })@) == seq![Act::MoveTo { x, y }],
        pointer_after(before, input_acts((InputMsg::Move { x, y })@)) == (x, y),
        pointer_after(before, input_acts((InputMsg::ButtonDown { b, x, y })@)) == (x, y),
        pointer_after(before, input_acts((InputMsg::ButtonUp { b, x, y })@)) == (x, y),
{
    reveal_with_fuel(pointer_after, 3);
    let m = input_acts((InputMsg::Move { x, y })@);
    assert(m =~= seq![Act::MoveTo { x, y }]);
    let d = input_acts((InputMsg::ButtonDown { b, x, y })@);
    let u = input_acts((InputMsg::ButtonUp { b, x, y })@);
    assert(d.drop_last().last() == Act::MoveTo { x, y });
    assert(u.drop_last().last() == Act::MoveTo { x, y });
}

/// A click lands where it was aimed: the pointer is there before the button
/// goes, and it is that button that goes, and that way.
pub proof fn law_clicks_land_where_aimed<C>(x: C, y: C, b: Button)
    ensures
        ({
            let down = input_acts((InputMsg::ButtonDown { b, x, y })@);
            let up = input_acts((InputMsg::ButtonUp { b, x, y })@);
            &&& down.len() == 2 && up.len() == 2
            &&& down[0] == Act::MoveTo { x, y } && up[0] == Act::MoveTo { x, y }
            &&& down[1] == Act::<C>::Button { b, down: true }
            &&& up[1] == Act::<C>::Button { b, down: false }
        }),
{
}

/// How far the wheels have turned once events have been injected, across and
/// up.
pub open spec fn turned<C>(acts: Seq<Act<C>>) -> (int, int)
    decreases acts.len(),
{
    if acts.len() == 0 {
        (0, 0)
    } else {
        let (dx, dy) = turned(acts.drop_last());
        match acts.last() {
            Act::Wheel(d) => (dx, dy + d),
            Act::HWheel(d) => (dx + d, dy),
            _ => (dx, dy),
        }
    }
}

/// The wheels turn by what a message says and nothing else happens; a message
/// that turns neither injects nothing.
pub proof fn law_wheels_turn_by_what_is_said<C>(dx: i32, dy: i32)
    ensures
        ({
            let acts = input_acts((InputMsg::<C>::Wheel { dx, dy })@);
            &&& turned(acts) == (dx as int, dy as int)
            &&& acts.len() == (if dx != 0 {
                1int
            } else {
                0
            }) + (if dy != 0 {
                1int
            } else {
                0
            })
        }),
{
    reveal_with_fuel(turned, 3);
    let acts = input_acts((InputMsg::<C>::Wheel { dx, dy })@);
    if acts.len() == 2 {
        assert(acts.drop_last().drop_last().len() == 0);
        assert(acts.drop_last().last() == Act::<C>::Wheel(dy));
    }
}

/// A key goes down or up by its scan code, alone; a name without one injects
/// nothing.
pub proof fn law_keys_go_by_their_scan_code<C>(code: String)
    ensures
        match scan_code(code@) {
            Some(key) => {
                &&& input_acts((InputMsg::<C>::KeyDown { code })@) == seq![
                    Act::<C>::Key { key, down: true },
                ]
                &&& input_acts((InputMsg::<C>::KeyUp { code })@) == seq![
                    Act::<C>::Key { key, down: false },
                ]
            },
            None => {
                &&& input_acts((InputMsg::<C>::KeyDown { code })@).len() == 0
                &&& input_acts((InputMsg::<C>::KeyUp { code })@).len() == 0
            },
        },
{
}

/// What the viewer's window captures arrives at the host as it was: the same
/// key, the same button, the same place, the same turn of the wheel.
pub proof fn law_captured_input_arrives<C>(ev: VideoInput<C>)
    requires
        translated(ev) is Some,
    ensures
        input_acts(translated(ev)->0) == (match ev {
            VideoInput::Move { nx, ny } => seq![Act::MoveTo { x: nx, y: ny }],
            VideoInput::Button { button, down, nx, ny } => seq![
                Act::MoveTo { x: nx, y: ny },
                Act::Button {
                    b: if button == 0 {
                        Button::Left
                    } else if button == 1 {
                        Button::Middle
                    } else {
                        Button::Right
                    },
                    down,
                },
            ],
            VideoInput::Wheel { dx, dy } => wheel_acts(dx, dy),
            VideoInput::Key { scancode, extended, down } => seq![
                Act::Key { key: ScanCode { sc: scancode, ext: extended }, down },
            ],
        }),
{
    if let VideoInput::Key { scancode, extended, .. } = ev {
        law_key_names_resolve(scancode, extended);
    }
}

/// Everything that the window can capture is sent, except a fourth button and
/// keys that the keyboard does not have.
pub proof fn law_known_input_is_sent<C>(ev: VideoInput<C>)
    ensures
        translated(ev) is None <==> match ev {
            VideoInput::Button { button, .. } => button > 2,
            VideoInput::Key { scancode, extended, .. } => key_name(scancode, extended) is None,
            _ => false,
        },
{
}

/// Letting go only lets go: one release for each key and each button that is
/// held, and the pointer stays where it is.
pub proof fn law_letting_go_only_releases<C>(h: Hand, i: int)
    requires
        0 <= i < h.keys.len() + h.buttons.len(),
    ensures
        release_acts::<C>(h).len() == h.keys.len() + h.buttons.len(),
        i < h.keys.len() ==> release_acts::<C>(h)[i] == (Act::<C>::Key {
            key: h.keys[i],
            down: false,
        }),
        i >= h.keys.len() ==> release_acts::<C>(h)[i] == (Act::<C>::Button {
            b: h.buttons[i - h.keys.len()],
            down: false,
        }),
{
}

/// A press is held until its release, and touches nothing else that is held.
pub proof fn law_presses_are_held_until_released<C>(h: Hand, code: String, b: Button, x: C, y: C)
    requires
        h.keys.no_duplicates(),
        h.buttons.no_duplicates(),
        scan_code(code@) is Some,
    ensures
        ({
            let key = scan_code(code@)->0;
            let pressed = after_input(h, (InputMsg::<C>::KeyDown { code })@);
            let clicked = after_input(h, (InputMsg::ButtonDown { b, x, y })@);
            &&& pressed.keys.contains(key)
            &&& !after_input(h, (InputMsg::<C>::KeyUp { code })@).keys.contains(key)
            &&& forall|k: ScanCode|
                k != key ==> (#[trigger] pressed.keys.contains(k) <==> h.keys.contains(k))
            &&& pressed.buttons == h.buttons && pressed.target == h.target
            &&& clicked.buttons.contains(b)
            &&& !after_input(h, (InputMsg::ButtonUp { b, x, y })@).buttons.contains(b)
            &&& forall|c: Button|
                c != b ==> (#[trigger] clicked.buttons.contains(c) <==> h.buttons.contains(c))
            &&& clicked.keys == h.keys && clicked.target == h.target
            &&& after_input(h, (InputMsg::Move { x, y })@) == h
        }),
{
    lemma_stays_unique(h.keys, scan_code(code@)->0);
    lemma_stays_unique(h.buttons, b);
}

} // verus!
