//! The control messages of a session, on its reliable channel.

use vstd::prelude::*;

use crate::config::Permission;

verus! {

/// A control message. `C` is a screen coordinate.
#[derive(Debug)]
pub enum ControlMsg<C> {
    /// What the viewer may do from now on.
    Perm { value: Permission },
    /// The sender ends the session.
    Bye,
    /// The viewer needs a picture that it can start decoding from.
    KeyframeRequest,
    /// Where the host's pointer is.
    Cursor { x: C, y: C, shape: Option<u32>, visible: bool },
    /// At which size the viewer shows the picture.
    ViewSize { width: u32, height: u32 },
    /// Asks whether the peer is alive.
    Ping { seq: u32 },
    /// Answers that.
    Pong { seq: u32 },
    /// Clipboard text.
    Clipboard { text: String },
}

/// What a control message is.
pub ghost enum Ctl<C> {
    Perm(Permission),
    Bye,
    KeyframeRequest,
    Cursor(C, C, Option<u32>, bool),
    ViewSize(u32, u32),
    Ping(u32),
    Pong(u32),
    Clipboard(Seq<char>),
}

impl<C> View for ControlMsg<C> {
    type V = Ctl<C>;

    open spec fn view(&self) -> Ctl<C> {
        match self {
            ControlMsg::Perm { value } => Ctl::Perm(*value),
            ControlMsg::Bye => Ctl::Bye,
            ControlMsg::KeyframeRequest => Ctl::KeyframeRequest,
            ControlMsg::Cursor { x, y, shape, visible } => Ctl::Cursor(*x, *y, *shape, *visible),
            ControlMsg::ViewSize { width, height } => Ctl::ViewSize(*width, *height),
            ControlMsg::Ping { seq } => Ctl::Ping(*seq),
            ControlMsg::Pong { seq } => Ctl::Pong(*seq),
            ControlMsg::Clipboard { text } => Ctl::Clipboard(text@),
        }
    }
}

/// Whether a pointer is shown where a message does not say.
pub fn default_visible() -> (v: bool)
    ensures
        v,
{
    true
}

/// Whether a flag is set, and so need not be written down.
pub fn is_true(b: &bool) -> (v: bool)
    ensures
        v == *b,
{
    *b
}

/// A message is seen with everything in it, each in its place.
pub proof fn law_messages_are_seen_as_they_are<C>(
    p: Permission,
    x: C,
    y: C,
    shape: Option<u32>,
    visible: bool,
    n: u32,
    m: u32,
    text: String,
)
    ensures
        (ControlMsg::<C>::Perm { value: p })@ == Ctl::<C>::Perm(p),
        ControlMsg::<C>::Bye@ == Ctl::<C>::Bye,
        ControlMsg::<C>::KeyframeRequest@ == Ctl::<C>::KeyframeRequest,
        (ControlMsg::Cursor { x, y, shape, visible })@ == Ctl::Cursor(x, y, shape, visible),
        (ControlMsg::<C>::ViewSize { width: n, height: m })@ == Ctl::<C>::ViewSize(n, m),
        (ControlMsg::<C>::Ping { seq: n })@ == Ctl::<C>::Ping(n),
        (ControlMsg::<C>::Pong { seq: n })@ == Ctl::<C>::Pong(n),
        (ControlMsg::<C>::Clipboard { text })@ == Ctl::<C>::Clipboard(text@),
{
}

} // verus!
