//! What has come from the signaling server and is waiting.
//!
//! One event is dealt with at a time. While the user is being asked about a
//! viewer, and for a while after a wrong proof of the password, nothing else is
//! looked at: what comes meanwhile waits its turn.

use vstd::prelude::*;

use crate::config::{proves, Mode};
use crate::engine::{
    deeds, nonce_of, requested, Action, Core, Deed, Doing, Rules, BAD_PASSWORD_DELAY_MS,
};
use crate::signaling::Event;

verus! {

/// Whether the next event may be looked at.
#[derive(Debug, Clone, Copy, PartialEq, Eq, Structural)]
pub enum Hold {
    Open,
    /// Not before the user has decided.
    Decision,
    /// Not before this time.
    Until(u64),
}

/// What is waiting.
#[verifier::ext_equal]
pub ghost struct Line {
    pub queue: Seq<Event>,
    pub hold: Hold,
}

/// Whether nothing may be looked at now.
pub open spec fn is_closed(hold: Hold, now: u64) -> bool {
    match hold {
        Hold::Open => false,
        Hold::Decision => true,
        Hold::Until(t) => now < t,
    }
}

/// What something that is being done holds up.
pub open spec fn hold_for(act: Deed, now: u64) -> Hold {
    match act {
        Deed::Ask(_) => Hold::Decision,
        Deed::SendLater(ms, _) => if now + ms <= u64::MAX {
            Hold::Until((now + ms) as u64)
        } else {
            Hold::Until(u64::MAX)
        },
        _ => Hold::Open,
    }
}

/// What the last of these that holds anything up does.
pub open spec fn hold_after(acts: Seq<Deed>, now: u64) -> Hold
    decreases acts.len(),
{
    if acts.len() == 0 {
        Hold::Open
    } else if hold_for(acts.last(), now) != Hold::Open {
        hold_for(acts.last(), now)
    } else {
        hold_after(acts.drop_last(), now)
    }
}

/// Taking the next event, if one may be taken.
pub open spec fn taken(l: Line, now: u64) -> (Line, Option<Event>) {
    if is_closed(l.hold, now) {
        (l, None)
    } else if l.queue.len() == 0 {
        (Line { hold: Hold::Open, ..l }, None)
    } else {
        (Line { queue: l.queue.skip(1), hold: Hold::Open }, Some(l.queue[0]))
    }
}

/// What has come and is waiting.
#[derive(Debug)]
pub struct Inbox {
    queue: Vec<Event>,
    hold: Hold,
}

impl View for Inbox {
    type V = Line;

    closed spec fn view(&self) -> Line {
        Line { queue: self.queue@, hold: self.hold }
    }
}

impl Inbox {
    /// Nothing is waiting.
    pub fn new() -> (i: Self)
        ensures
            i@ == (Line { queue: seq![], hold: Hold::Open }),
    {
        let i = Inbox { queue: Vec::new(), hold: Hold::Open };
        assert(i@.queue =~= seq![]);
        i
    }

    /// Something has come.
    pub fn arrive(&mut self, ev: Event)
        ensures
            final(self)@ == (Line { queue: old(self)@.queue.push(ev), ..old(self)@ }),
    {
        self.queue.push(ev);
    }

    /// The next event to deal with, if one may be dealt with now.
    pub fn next(&mut self, now: u64) -> (r: Option<Event>)
        ensures
            (final(self)@, r) == taken(old(self)@, now),
    {
        let closed: bool = match self.hold {
            Hold::Open => false,
            Hold::Decision => true,
            Hold::Until(t) => now < t,
        };
        if closed {
            return None;
        }
        self.hold = Hold::Open;
        if self.queue.len() == 0 {
            return None;
        }
        let ev: Event = self.queue.remove(0);
        assert(self.queue@ =~= old(self)@.queue.skip(1));
        Some(ev)
    }

    /// An event has been dealt with, and this is to be done about it.
    pub fn handled(&mut self, acts: &Vec<Action>, now: u64)
        ensures
            final(self)@ == (Line { hold: hold_after(deeds(acts@), now), ..old(self)@ }),
    {
        let ghost all = deeds(acts@);
        let mut k: usize = acts.len();
        let mut hold: Hold = Hold::Open;
        let mut found: bool = false;
        assert(all.take(k as int) =~= all);
        while k > 0 && !found
            invariant
                k <= acts@.len(),
                all == deeds(acts@),
                !found ==> hold == Hold::Open,
                !found ==> hold_after(all, now) == hold_after(all.take(k as int), now),
                found ==> hold == hold_after(all, now),
            decreases k, (if found { 0int } else { 1int }),
        {
            k -= 1;
            assert(all.take(k + 1).drop_last() =~= all.take(k as int));
            assert(all.take(k + 1).last() == all[k as int]);
            assert(all[k as int] == acts@[k as int]@);
            match &acts[k] {
                Action::Ask { .. } => {
                    hold = Hold::Decision;
                    found = true;
                },
                Action::SendLater(ms, _) => {
                    hold = Hold::Until(now.saturating_add(*ms));
                    found = true;
                },
                _ => {},
            }
        }
        self.hold = hold;
    }

    /// The user has decided.
    pub fn decided(&mut self)
        ensures
            final(self)@ == (Line {
                hold: if old(self)@.hold == Hold::Decision {
                    Hold::Open
                } else {
                    old(self)@.hold
                },
                ..old(self)@
            }),
            final(self)@ == decided_line(old(self)@),
    {
        self.hold = match self.hold {
            Hold::Decision => Hold::Open,
            other => other,
        };
    }

    /// When the next event may be looked at, if that is only a matter of time.
    pub fn wake_at(&self) -> (r: Option<u64>)
        ensures
            r == (match self@.hold {
                Hold::Until(t) => Some(t),
                _ => None,
            }),
            forall|now: u64|
                r is Some && now >= r->0 ==> !#[trigger] is_closed(self@.hold, now),
            forall|now: u64|
                r is Some && now < r->0 ==> #[trigger] is_closed(self@.hold, now),
            r is None ==> forall|now: u64, later: u64|
                #[trigger] is_closed(self@.hold, now) == #[trigger] is_closed(self@.hold, later),
    {
        match self.hold {
            Hold::Until(t) => Some(t),
            _ => None,
        }
    }
}

/// Nothing is lost and nothing overtakes: what is taken was the first to wait,
/// and the rest stays as it was.
pub proof fn law_events_wait_their_turn(l: Line, now: u64)
    ensures
        match taken(l, now).1 {
            Some(ev) => seq![ev] + taken(l, now).0.queue == l.queue,
            None => taken(l, now).0.queue == l.queue,
        },
{
    if taken(l, now).1 is Some {
        assert(seq![l.queue[0]] + l.queue.skip(1) =~= l.queue);
    }
}

/// Guessing is slow: for two seconds after a wrong proof nothing is looked at,
/// and so no other proof is.
pub proof fn law_wrong_proof_closes_the_door(
    c: Core,
    r: Rules,
    from: Seq<char>,
    given: Seq<char>,
    decode: Seq<Seq<char>>,
    nonce: Seq<char>,
    l: Line,
    now: u64,
    later: u64,
)
    requires
        c.role == Doing::Idle,
        r.mode == Mode::Password,
        r.hash is Some,
        !proves(r.hash, nonce_of(c, from), given),
        l.hold == hold_after(requested(c, r, from, Some(given), decode, nonce).1, now),
        now + BAD_PASSWORD_DELAY_MS <= u64::MAX,
    ensures
        later < now + BAD_PASSWORD_DELAY_MS ==> taken(l, later).1 is None,
        later >= now + BAD_PASSWORD_DELAY_MS && l.queue.len() > 0 ==> taken(l, later).1 == Some(
            l.queue[0],
        ),
{
    let out = requested(c, r, from, Some(given), decode, nonce).1;
    assert(out.len() == 1);
    assert(out.last() is SendLater);
}

/// While the user is being asked about a viewer, nothing else is looked at,
/// however long that takes; so nobody else can come in between.
pub proof fn law_decision_comes_first(
    c: Core,
    r: Rules,
    from: Seq<char>,
    password: Option<Seq<char>>,
    decode: Seq<Seq<char>>,
    nonce: Seq<char>,
    l: Line,
    now: u64,
    later: u64,
)
    requires
        c.role == Doing::Idle,
        r.mode == Mode::Approve || r.hash is None,
        l.hold == hold_after(requested(c, r, from, password, decode, nonce).1, now),
    ensures
        taken(l, later) == (l, None::<Event>),
{
    let out = requested(c, r, from, password, decode, nonce).1;
    assert(out.last() is Ask);
}

/// Only a question to the user and an answer that is put off hold anything up:
/// the question until it is decided, the answer for as long as it is put off.
/// Whatever else is done before or after, the last of them counts.
pub proof fn law_questions_and_delays_hold_up(
    before: Seq<Deed>,
    act: Deed,
    after: Seq<Deed>,
    now: u64,
)
    requires
        forall|i: int|
            0 <= i < after.len() ==> !((#[trigger] after[i]) is Ask) && !(after[i] is SendLater),
    ensures
        act is Ask ==> hold_after(before.push(act) + after, now) == Hold::Decision,
        act is SendLater && now + act->SendLater_0 <= u64::MAX ==> hold_after(
            before.push(act) + after,
            now,
        ) == Hold::Until((now + act->SendLater_0) as u64),
        hold_after(after, now) == Hold::Open,
    decreases after.len(),
{
    let whole = before.push(act) + after;
    if after.len() == 0 {
        assert(whole =~= before.push(act));
        assert(whole.last() == act);
    } else {
        assert(whole.last() == after[after.len() - 1]);
        assert(whole.drop_last() =~= before.push(act) + after.drop_last());
        law_questions_and_delays_hold_up(before, act, after.drop_last(), now);
    }
}

/// What waits is looked at as soon as nothing holds it up: at once, or from the
/// very millisecond until which it was held up, but never while the user has
/// yet to decide.
pub proof fn law_waiting_ends_in_time(queue: Seq<Event>, until: u64, now: u64)
    requires
        queue.len() > 0,
    ensures
        taken(Line { queue, hold: Hold::Open }, now).1 == Some(queue[0]),
        taken(Line { queue, hold: Hold::Until(until) }, now).1 == (if now < until {
            None
        } else {
            Some(queue[0])
        }),
        taken(Line { queue, hold: Hold::Decision }, now).1 is None,
        taken(Line { queue, hold: Hold::Decision }, now).0.hold == Hold::Decision,
        now < until ==> taken(Line { queue, hold: Hold::Until(until) }, now).0.hold == Hold::Until(
            until,
        ),
        now >= until ==> taken(Line { queue, hold: Hold::Until(until) }, now).0.hold == Hold::Open,
{
}

/// What is waiting once the user has decided.
pub open spec fn decided_line(l: Line) -> Line {
    match l.hold {
        Hold::Decision => Line { hold: Hold::Open, queue: l.queue },
        _ => l,
    }
}

/// A decision lets the next event in, and shortens no other wait.
pub proof fn law_decision_opens_the_door(queue: Seq<Event>, until: u64, now: u64)
    requires
        queue.len() > 0,
    ensures
        taken(decided_line(Line { queue, hold: Hold::Decision }), now).1 == Some(queue[0]),
        decided_line(Line { queue, hold: Hold::Until(until) }) == (Line {
            queue,
            hold: Hold::Until(until),
        }),
        decided_line(Line { queue, hold: Hold::Open }) == (Line { queue, hold: Hold::Open }),
{
}

} // verus!
