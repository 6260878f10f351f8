//! The low-level keyboard hook of the viewer.
//!
//! While the session window is in the foreground, combinations that the
//! system reserves (Alt+Tab, Alt+Esc, the Windows keys) are kept from this
//! machine and forwarded to the remote one instead. Clicking any other window
//! gives the keyboard back at once. Ctrl+Alt+Del is never touched, and neither
//! is input that was injected.

use vstd::prelude::*;

use crate::injector::{lemma_found, lemma_stays_unique, with, without, INJECT_SENTINEL};
use crate::scancode::{
    law_row_of_digits_count_up, law_upper_row_count_up, law_windows_keys_count_up, scan_code,
    ScanCode,
};

verus! {

pub const VK_TAB: u32 = 0x09;
pub const VK_ESCAPE: u32 = 0x1b;
pub const VK_MENU: u32 = 0x12;
pub const VK_LWIN: u32 = 0x5b;
pub const VK_RWIN: u32 = 0x5c;

pub const WM_KEYDOWN: u32 = 0x0100;
pub const WM_KEYUP: u32 = 0x0101;
pub const WM_SYSKEYDOWN: u32 = 0x0104;
pub const WM_SYSKEYUP: u32 = 0x0105;

/// The flag of an event that some program has injected.
pub const LLKHF_INJECTED: u32 = 0x10;

/// The names of the keys that can be kept from this machine.
pub open spec fn hook_code(vk: u32) -> Option<Seq<char>> {
    if vk == VK_LWIN {
        Some("MetaLeft"@)
    } else if vk == VK_RWIN {
        Some("MetaRight"@)
    } else if vk == VK_TAB {
        Some("Tab"@)
    } else if vk == VK_ESCAPE {
        Some("Escape"@)
    } else {
        None
    }
}

/// Whether a key is kept from this machine: the Windows keys always, Tab and
/// Escape while Alt is held.
pub open spec fn suppressed(vk: u32, alt_down: bool) -> bool {
    vk == VK_LWIN || vk == VK_RWIN || (vk == VK_TAB || vk == VK_ESCAPE) && alt_down
}

/// The name of a key that can be kept from this machine.
pub fn vk_to_code(vk: u32) -> (r: Option<&'static str>)
    ensures
        r is Some <==> hook_code(vk) is Some,
        r is Some ==> r->0@ == hook_code(vk)->0,
{
    if vk == VK_LWIN {
        Some("MetaLeft")
    } else if vk == VK_RWIN {
        Some("MetaRight")
    } else if vk == VK_TAB {
        Some("Tab")
    } else if vk == VK_ESCAPE {
        Some("Escape")
    } else {
        None
    }
}

/// Whether a key is kept from this machine.
pub fn should_suppress(vk: u32, alt_down: bool) -> (yes: bool)
    ensures
        yes == suppressed(vk, alt_down),
{
    vk == VK_LWIN || vk == VK_RWIN || ((vk == VK_TAB || vk == VK_ESCAPE) && alt_down)
}

/// A keyboard event that the hook sees.
#[derive(Debug, Clone, Copy)]
pub struct KeyEvent {
    pub vk: u32,
    /// Pressed, or else released.
    pub down: bool,
    /// Not from a keyboard but from some program.
    pub injected: bool,
    /// Whether Alt is held.
    pub alt_down: bool,
    /// Whether the session window is in the foreground.
    pub focused: bool,
}

/// The event that a hook call announces; `None` for a call that must be passed
/// on unseen.
pub fn key_event(
    n_code: i32,
    msg: u32,
    vk: u32,
    flags: u32,
    extra_info: usize,
    alt_down: bool,
    focused: bool,
) -> (r: Option<KeyEvent>)
    ensures
        r == (if n_code >= 0 && (msg == WM_KEYDOWN || msg == WM_SYSKEYDOWN || msg == WM_KEYUP || msg
            == WM_SYSKEYUP) {
            Some(
                KeyEvent {
                    vk,
                    down: msg == WM_KEYDOWN || msg == WM_SYSKEYDOWN,
                    injected: flags & LLKHF_INJECTED != 0 || extra_info == INJECT_SENTINEL,
                    alt_down,
                    focused,
                },
            )
        } else {
            None
        }),
        r is Some <==> n_code >= 0 && (msg == 0x100 || msg == 0x101 || msg == 0x104 || msg
            == 0x105),
        r is Some ==> r->0.down == (msg == 0x100 || msg == 0x104),
        r is Some ==> r->0.injected == (flags & 0x10u32 != 0 || extra_info == 0x5343_5253),
{
    let down: bool = msg == WM_KEYDOWN || msg == WM_SYSKEYDOWN;
    let up: bool = msg == WM_KEYUP || msg == WM_SYSKEYUP;
    if n_code < 0 || !(down || up) {
        return None;
    }
    let injected: bool = flags & LLKHF_INJECTED != 0 || extra_info == INJECT_SENTINEL;
    Some(KeyEvent { vk, down, injected, alt_down, focused })
}

/// What the hook knows.
#[verifier::ext_equal]
pub ghost struct Hook {
    /// The handle of the installed hook; 0 if there is none.
    pub handle: isize,
    /// Whether there is somebody to forward keys to.
    pub forwarding: bool,
    /// The session window; 0 if there is none.
    pub focus_root: isize,
    /// Whether an Alt press was made up for the remote machine.
    pub synth_alt: bool,
    /// The keys whose press was forwarded and whose release is owed.
    pub held: Seq<u32>,
}

/// What an event forwards: at first, the release of a made-up Alt.
pub open spec fn alt_release(h: Hook, e: KeyEvent) -> bool {
    e.vk == VK_MENU && !e.down && h.synth_alt
}

/// Whether an event makes an Alt press up: the remote machine opens its
/// switcher only while Alt is down there.
pub open spec fn alt_press(h: Hook, e: KeyEvent) -> bool {
    (e.vk == VK_TAB || e.vk == VK_ESCAPE) && e.down && !h.synth_alt
}

/// What an event makes of the hook, what it forwards, and whether it is kept
/// from this machine. What is forwarded reaches nobody while nobody listens.
pub open spec fn hooked(h: Hook, e: KeyEvent) -> (Hook, Seq<(Seq<char>, bool)>, bool) {
    let freed = alt_release(h, e);
    let h1 = Hook { synth_alt: h.synth_alt && !freed, ..h };
    let out1 = if freed {
        seq![("AltLeft"@, false)]
    } else {
        seq![]
    };
    if e.injected {
        (h, seq![], false)
    } else if !e.down && hook_code(e.vk) is Some && h.held.contains(e.vk) {
        (
            Hook { held: without(h.held, e.vk), ..h1 },
            out1.push((hook_code(e.vk)->0, false)),
            suppressed(e.vk, e.alt_down) && e.focused,
        )
    } else if suppressed(e.vk, e.alt_down) && e.focused {
        let alt = alt_press(h1, e);
        let out2 = if alt {
            out1.push(("AltLeft"@, true))
        } else {
            out1
        };
        (
            Hook {
                synth_alt: h1.synth_alt || alt,
                held: if e.down {
                    with(h.held, e.vk)
                } else {
                    h.held
                },
                ..h1
            },
            out2.push((hook_code(e.vk)->0, e.down)),
            true,
        )
    } else {
        (h1, out1, false)
    }
}

/// The state of the hook.
#[derive(Debug)]
pub struct HookState {
    hook: isize,
    forward: bool,
    focus_root: isize,
    synth_alt: bool,
    hook_held: Vec<u32>,
}

impl View for HookState {
    type V = Hook;

    closed spec fn view(&self) -> Hook {
        Hook {
            handle: self.hook,
            forwarding: self.forward,
            focus_root: self.focus_root,
            synth_alt: self.synth_alt,
            held: self.hook_held@,
        }
    }
}

/// The hook when nothing is going on.
pub open spec fn idle_hook() -> Hook {
    Hook { handle: 0, forwarding: false, focus_root: 0, synth_alt: false, held: seq![] }
}

impl HookState {
    /// No key is owed twice.
    pub open spec fn wf(&self) -> bool {
        self@.held.no_duplicates()
    }

    /// No hook.
    pub fn new() -> (s: Self)
        ensures
            s.wf(),
            s@ == idle_hook(),
    {
        let s = HookState {
            hook: 0,
            forward: false,
            focus_root: 0,
            synth_alt: false,
            hook_held: Vec::new(),
        };
        assert(s@ =~= idle_hook());
        s
    }

    /// Records the session window, which is the top-level ancestor `root` of
    /// the video window `child`; 0 for `child` clears it.
    pub fn set_focus_root(&mut self, child: isize, root: isize)
        ensures
            final(self)@ == (Hook {
                focus_root: if child == 0 {
                    0
                } else {
                    root
                },
                ..old(self)@
            }),
            final(self)@ == focused_on(old(self)@, child, root),
    {
        self.focus_root = if child == 0 {
            0
        } else {
            root
        };
    }

    /// Whether the session window is the foreground window.
    pub fn session_focused(&self, foreground: isize) -> (yes: bool)
        ensures
            yes == (self@.focus_root != 0 && foreground == self@.focus_root),
            yes == has_focus(self@, foreground),
    {
        self.focus_root != 0 && foreground == self.focus_root
    }

    /// Remembers that the release of a key is owed.
    fn hook_held_insert(&mut self, vk: u32)
        requires
            old(self).wf(),
        ensures
            final(self).wf(),
            final(self)@ == (Hook { held: with(old(self)@.held, vk), ..old(self)@ }),
    {
        let at: usize = self.find(vk);
        proof {
            lemma_stays_unique(self.hook_held@, vk);
        }
        if at == self.hook_held.len() {
            self.hook_held.push(vk);
        }
    }

    /// Forgets that the release of a key is owed. Tells whether it was.
    fn hook_held_remove(&mut self, vk: u32) -> (was: bool)
        requires
            old(self).wf(),
        ensures
            final(self).wf(),
            was == old(self)@.held.contains(vk),
            final(self)@ == (Hook { held: without(old(self)@.held, vk), ..old(self)@ }),
    {
        let at: usize = self.find(vk);
        proof {
            lemma_stays_unique(self.hook_held@, vk);
        }
        if at < self.hook_held.len() {
            let _ = self.hook_held.remove(at);
            true
        } else {
            false
        }
    }

    fn find(&self, vk: u32) -> (at: usize)
        requires
            self.wf(),
        ensures
            at <= self.hook_held@.len(),
            self@.held.contains(vk) <==> at < self.hook_held@.len(),
            at < self.hook_held@.len() ==> self@.held.index_of(vk) == at,
    {
        let n: usize = self.hook_held.len();
        let mut at: usize = 0;
        while at < n && self.hook_held[at] != vk
            invariant
                at <= n == self.hook_held@.len(),
                forall|i: int| 0 <= i < at ==> #[trigger] self.hook_held@[i] != vk,
            decreases n - at,
        {
            at += 1;
        }
        proof {
            lemma_found(self.hook_held@, vk, at as int);
        }
        at
    }

    /// Deals with a keyboard event: which keys to forward, in order, and
    /// whether to keep the event from this machine.
    pub fn hook_proc(&mut self, e: KeyEvent) -> (r: (Vec<(&'static str, bool)>, bool))
        requires
            old(self).wf(),
        ensures
            final(self).wf(),
            final(self)@ == hooked(old(self)@, e).0,
            key_views(r.0@) == (if old(self)@.forwarding {
                hooked(old(self)@, e).1
            } else {
                seq![]
            }),
            r.1 == hooked(old(self)@, e).2,
    {
        let ghost h = self@;
        let mut out: Vec<(&'static str, bool)> = Vec::new();
        assert(key_views(out@) =~= seq![]);
        if e.injected {
            return (out, false);
        }
        if e.vk == VK_MENU && !e.down && self.synth_alt {
            self.synth_alt = false;
            forward_key(&mut out, self.forward, "AltLeft", false);
        }
        if !e.down {
            if let Some(code) = vk_to_code(e.vk) {
                if self.hook_held_remove(e.vk) {
                    forward_key(&mut out, self.forward, code, false);
                    return (out, should_suppress(e.vk, e.alt_down) && e.focused);
                }
            }
        }
        if !should_suppress(e.vk, e.alt_down) || !e.focused {
            assert(without(h.held, e.vk) == h.held || hook_code(e.vk) is None || e.down);
            return (out, false);
        }
        if let Some(code) = vk_to_code(e.vk) {
            if (e.vk == VK_TAB || e.vk == VK_ESCAPE) && e.down && !self.synth_alt {
                self.synth_alt = true;
                forward_key(&mut out, self.forward, "AltLeft", true);
            }
            if e.down {
                self.hook_held_insert(e.vk);
            }
            forward_key(&mut out, self.forward, code, e.down);
        }
        (out, true)
    }
}

/// The forwarded keys with their names as sequences.
pub open spec fn key_views(keys: Seq<(&'static str, bool)>) -> Seq<(Seq<char>, bool)> {
    keys.map_values(|k: (&'static str, bool)| (k.0@, k.1))
}

/// Forwards a key, if there is somebody to forward it to.
fn forward_key(out: &mut Vec<(&'static str, bool)>, forward: bool, code: &'static str, down: bool)
    ensures
        key_views(final(out)@) == (if forward {
            key_views(old(out)@).push((code@, down))
        } else {
            key_views(old(out)@)
        }),
{
    if forward {
        out.push((code, down));
        assert(key_views(out@) =~= key_views(old(out)@).push((code@, down)));
    }
}

/// Installs the hook; `hook` is the handle that the system gives for it, if it
/// gives one. Installing again only changes who is forwarded to. `false` if
/// there is no hook afterwards.
pub fn install(state: &mut HookState, hook: Option<isize>) -> (ok: bool)
    ensures
        ok == (old(state)@.handle != 0 || hook is Some),
        final(state)@ == (Hook {
            handle: if old(state)@.handle == 0 && hook is Some {
                hook->0
            } else {
                old(state)@.handle
            },
            forwarding: ok || old(state)@.forwarding,
            ..old(state)@
        }),
        (final(state)@, ok) == installed(old(state)@, hook),
{
    if state.hook != 0 {
        state.forward = true;
        return true;
    }
    match hook {
        Some(handle) => {
            state.hook = handle;
            state.forward = true;
            true
        },
        None => false,
    }
}

/// Removes the hook, and gives the handle to give back to the system if there
/// was one. Nothing is left of the session.
pub fn uninstall(state: &mut HookState) -> (hook: Option<isize>)
    ensures
        final(state)@ == idle_hook(),
        hook == (if old(state)@.handle != 0 {
            Some(old(state)@.handle)
        } else {
            None
        }),
{
    let hook: isize = state.hook;
    state.focus_root = 0;
    state.synth_alt = false;
    state.hook_held = Vec::new();
    state.hook = 0;
    state.forward = false;
    assert(state@ =~= idle_hook());
    if hook != 0 {
        Some(hook)
    } else {
        None
    }
}

/// Whether the hook is installed.
pub fn is_installed(state: &HookState) -> (yes: bool)
    ensures
        yes == (state@.handle != 0),
{
    state.hook != 0
}

/// Which keys are down on the remote machine once keys have been forwarded.
pub open spec fn remote_down(before: Set<Seq<char>>, keys: Seq<(Seq<char>, bool)>) -> Set<
    Seq<char>,
>
    decreases keys.len(),
{
    if keys.len() == 0 {
        before
    } else {
        let mid = remote_down(before, keys.drop_last());
        if keys.last().1 {
            mid.insert(keys.last().0)
        } else {
            mid.remove(keys.last().0)
        }
    }
}

/// The keys that the hook knows to be down on the remote machine.
pub open spec fn owed(h: Hook) -> Set<Seq<char>> {
    Set::new(
        |c: Seq<char>|
            (h.synth_alt && c == "AltLeft"@) || exists|vk: u32| #[trigger]
                h.held.contains(vk) && hook_code(vk) == Some(c),
    )
}

/// Only keys that can be kept from this machine are owed.
pub open spec fn held_have_codes(h: Hook) -> bool {
    forall|vk: u32| #[trigger] h.held.contains(vk) ==> hook_code(vk) is Some
}

proof fn lemma_codes_differ(a: u32, b: u32)
    ensures
        hook_code(a) is Some && hook_code(a) == hook_code(b) ==> a == b,
        hook_code(a) != Some("AltLeft"@),
{
    reveal_strlit("MetaLeft");
    reveal_strlit("MetaRight");
    reveal_strlit("Tab");
    reveal_strlit("Escape");
    reveal_strlit("AltLeft");
    assert("MetaLeft"@.len() == 8);
    assert("MetaRight"@.len() == 9);
    assert("Tab"@.len() == 3);
    assert("Escape"@.len() == 6);
    assert("AltLeft"@.len() == 7);
}

/// What is down on the remote machine because of the hook is exactly what the
/// hook knows it owes a release for: every event keeps that so.
pub proof fn law_owed_is_what_is_down(h: Hook, e: KeyEvent)
    requires
        h.held.no_duplicates(),
        held_have_codes(h),
    ensures
        held_have_codes(hooked(h, e).0),
        remote_down(owed(h), hooked(h, e).1) == owed(hooked(h, e).0),
{
    let (after, out, _) = hooked(h, e);
    lemma_stays_unique(h.held, e.vk);
    assert forall|a: u32, b: u32|
        #![trigger hook_code(a), hook_code(b)]
        (hook_code(a) is Some && hook_code(a) == hook_code(b) ==> a == b) && hook_code(a) != Some(
            "AltLeft"@,
        ) by {
        lemma_codes_differ(a, b);
    }
    reveal_with_fuel(remote_down, 4);
    if out.len() >= 1 {
        assert(out.drop_last().len() == out.len() - 1);
    }
    if out.len() == 1 {
        assert(out.drop_last() =~= seq![]);
    }
    if out.len() == 2 {
        assert(out.drop_last() =~= seq![out[0]]);
        assert(out.drop_last().drop_last() =~= seq![]);
    }
    let got = remote_down(owed(h), out);
    assert forall|c: Seq<char>| got.contains(c) <==> owed(after).contains(c) by {
        if owed(h).contains(c) && c != "AltLeft"@ {
            let vk = choose|vk: u32| #[trigger] h.held.contains(vk) && hook_code(vk) == Some(c);
            assert(with(h.held, e.vk).contains(vk));
            if vk != e.vk {
                assert(without(h.held, e.vk).contains(vk));
            }
        }
        if owed(after).contains(c) && c != "AltLeft"@ {
            let vk = choose|vk: u32| #[trigger] after.held.contains(vk) && hook_code(vk) == Some(c);
            assert(h.held.contains(vk) || vk == e.vk);
        }
        assert(with(h.held, e.vk).contains(e.vk));
    }
    assert(got =~= owed(after));
}

/// Once a press was forwarded, its release is forwarded unconditionally,
/// whether or not Alt is still held and the session window still in front.
pub proof fn law_release_is_always_forwarded(h: Hook, e: KeyEvent)
    requires
        h.held.contains(e.vk),
        hook_code(e.vk) is Some,
        !e.injected,
        !e.down,
    ensures
        hooked(h, e).1.last() == (hook_code(e.vk)->0, false),
{
}

/// Nothing but the reserved keys is ever kept from this machine, and nothing
/// at all while another window is in front or if it was injected.
pub proof fn law_other_keys_pass(h: Hook, e: KeyEvent)
    requires
        e.injected || !e.focused || hook_code(e.vk) is None,
    ensures
        !hooked(h, e).2,
{
}

/// Injected input changes nothing and is not forwarded: there is no loop.
pub proof fn law_injected_input_is_ignored(h: Hook, e: KeyEvent)
    requires
        e.injected,
    ensures
        hooked(h, e) == (h, Seq::<(Seq<char>, bool)>::empty(), false),
{
}

/// The keys that go to the remote machine are the ones that were pressed: the
/// name that stands for a virtual key has that key's scan code. Tab is 0x0f,
/// Escape 0x01, and the Windows keys carry the numbers of their virtual keys.
pub proof fn law_forwarded_keys_are_the_pressed_ones(vk: u32)
    ensures
        hook_code(vk) is Some <==> vk == 0x09 || vk == 0x1b || vk == 0x5b || vk == 0x5c,
        hook_code(vk) is Some ==> scan_code(hook_code(vk)->0) == Some(
            if vk == 0x09 {
                ScanCode { sc: 0x0f, ext: false }
            } else if vk == 0x1b {
                ScanCode { sc: 0x01, ext: false }
            } else {
                ScanCode { sc: vk as u16, ext: true }
            },
        ),
{
    law_upper_row_count_up(0);
    law_row_of_digits_count_up(0);
    law_windows_keys_count_up(0);
    law_windows_keys_count_up(1);
}

/// The combinations that the system reserves go to the remote machine and not
/// to this one while the session window is in front: the Windows keys, and Tab
/// and Escape while Alt is held.
pub proof fn law_reserved_combinations_go_to_the_remote(h: Hook, e: KeyEvent)
    requires
        !e.injected,
        e.focused,
        e.vk == 0x5b || e.vk == 0x5c || (e.vk == 0x09 || e.vk == 0x1b) && e.alt_down,
    ensures
        ({
            let (after, out, kept) = hooked(h, e);
            let name = if e.vk == 0x5b {
                "MetaLeft"@
            } else if e.vk == 0x5c {
                "MetaRight"@
            } else if e.vk == 0x09 {
                "Tab"@
            } else {
                "Escape"@
            };
            &&& kept
            &&& out.len() > 0 && out.last() == (name, e.down)
            &&& e.down ==> after.held.contains(e.vk)
        }),
{
    if e.down {
        let held = with(h.held, e.vk);
        if !h.held.contains(e.vk) {
            assert(held[h.held.len() as int] == e.vk);
        }
    }
}

/// The remote machine has Alt down for them: a press of it is made up before
/// the first Tab or Escape, once, and its release follows when the user lets
/// Alt go, which this machine sees too.
pub proof fn law_alt_is_made_up_once(h: Hook, e: KeyEvent)
    requires
        !e.injected,
    ensures
        (e.vk == 0x09 || e.vk == 0x1b) && e.down && e.alt_down && e.focused ==> {
            let (after, out, _) = hooked(h, e);
            &&& after.synth_alt
            &&& out.len() == (if h.synth_alt {
                1int
            } else {
                2
            })
            &&& !h.synth_alt ==> out[0] == ("AltLeft"@, true)
        },
        e.vk == 0x12 && !e.down ==> {
            let (after, out, kept) = hooked(h, e);
            &&& !after.synth_alt && !kept
            &&& out == (if h.synth_alt {
                seq![("AltLeft"@, false)]
            } else {
                seq![]
            })
        },
        e.vk == 0x5b || e.vk == 0x5c ==> hooked(h, e).0.synth_alt == h.synth_alt,
{
}

/// No other key is touched: what is neither Tab, Escape, Alt nor a Windows key
/// reaches this machine, is not forwarded and changes nothing. Neither is Tab
/// or Escape without Alt, nor any key while another window is in front, unless
/// its release is owed.
pub proof fn law_other_keys_are_left_alone(h: Hook, e: KeyEvent)
    requires
        (e.vk != 0x09 && e.vk != 0x1b && e.vk != 0x5b && e.vk != 0x5c) || !h.held.contains(e.vk)
            && (!e.focused || (e.vk == 0x09 || e.vk == 0x1b) && !e.alt_down),
        e.vk != 0x12,
    ensures
        hooked(h, e) == (h, Seq::<(Seq<char>, bool)>::empty(), false),
{
}

/// A hook that looks at another window, or at none.
pub open spec fn focused_on(h: Hook, child: isize, root: isize) -> Hook {
    match child {
        0 => Hook { focus_root: 0, ..h },
        _ => Hook { focus_root: root, ..h },
    }
}

/// Whether the window that the hook looks at is in front.
pub open spec fn has_focus(h: Hook, foreground: isize) -> bool {
    h.focus_root == foreground && foreground != 0
}

/// A hook that is asked to forward, given what the system made of it, and
/// whether it does.
pub open spec fn installed(h: Hook, hook: Option<isize>) -> (Hook, bool) {
    if h.handle != 0 {
        (Hook { forwarding: true, ..h }, true)
    } else {
        match hook {
            Some(handle) => (Hook { handle, forwarding: true, ..h }, true),
            None => (h, false),
        }
    }
}

/// The window above the picture has the focus exactly while it is in front; a
/// hook that looks at none never finds it there.
pub proof fn law_focus_is_the_front_window(h: Hook, child: isize, root: isize, front: isize)
    ensures
        child != 0 && root != 0 ==> (has_focus(focused_on(h, child, root), front) <==> front
            == root),
        !has_focus(focused_on(h, 0, root), front),
        focused_on(h, child, root).held == h.held,
        focused_on(h, child, root).forwarding == h.forwarding,
        focused_on(h, child, root).handle == h.handle,
{
}

/// A hook is put in place once and then kept: it forwards as soon as there is
/// one, and without one nothing changes.
pub proof fn law_hook_is_put_in_place_once(h: Hook, first: isize, second: Option<isize>)
    requires
        first != 0,
    ensures
        h.handle == 0 ==> {
            &&& installed(h, Some(first)).1
            &&& installed(h, Some(first)).0.handle == first
            &&& installed(h, Some(first)).0.forwarding
            &&& installed(h, None) == (h, false)
            &&& installed(installed(h, Some(first)).0, second) == installed(h, Some(first))
        },
        h.handle != 0 ==> installed(h, second).0.handle == h.handle && installed(h, second).1
            && installed(h, second).0.forwarding,
        installed(h, second).0.held == h.held,
        installed(h, second).0.focus_root == h.focus_root,
{
}

} // verus!
