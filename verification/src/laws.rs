//! What holds of every round: the consequences of the model that callers
//! rely on, each proved from the definitions.
use crate::contact::{contacts_of, Contact, TouchPoint};
use crate::model::Round;
use crate::radius::{Animation, Direction};
use crate::registry::{
    has_id, lemma_added_distinct, lemma_moved_distinct, lemma_removed_distinct, moved,
};
use crate::selection::{digest_input, encodable, lemma_digest_input_injective, pick_index};
use crate::state::State;
use vstd::prelude::*;
use vstd::utf8::encode_utf8;

verus! {

/// The draw is a function of the snapshot alone: two snapshots that agree in
/// the ids, positions and tags of their contacts, in order, give the same
/// index.
pub proof fn lemma_pick_is_pure(a: Seq<TouchPoint>, b: Seq<TouchPoint>)
    requires
        a.len() == b.len(),
        forall|i: int|
            0 <= i < a.len() ==> {
                &&& (#[trigger] a[i]).id == b[i].id
                &&& a[i].x == b[i].x
                &&& a[i].y == b[i].y
                &&& a[i].color@ == b[i].color@
            },
    ensures
        pick_index(contacts_of(a)) == pick_index(contacts_of(b)),
{
    assert(contacts_of(a) =~= contacts_of(b));
}

/// The digest is taken over every field of every contact, in order: two
/// snapshots with the same digest input agree in the ids, positions and tags
/// of their contacts, one by one. Tags of 2^64 bytes or more, which no memory
/// holds, are left aside.
pub proof fn lemma_digest_input_covers_snapshot(a: Seq<TouchPoint>, b: Seq<TouchPoint>)
    requires
        forall|i: int| 0 <= i < a.len() ==> encode_utf8((#[trigger] a[i]).color@).len() <= u64::MAX,
        forall|i: int| 0 <= i < b.len() ==> encode_utf8((#[trigger] b[i]).color@).len() <= u64::MAX,
        digest_input(contacts_of(a)) == digest_input(contacts_of(b)),
    ensures
        contacts_of(a) == contacts_of(b),
{
    lemma_digest_input_injective(contacts_of(a), contacts_of(b));
}

/// The draw among `n >= 1` contacts gives an index from `0` up to, and not
/// including, `n`.
pub proof fn lemma_pick_in_range(s: Seq<Contact>)
    requires
        s.len() >= 1,
    ensures
        0 <= pick_index(s) < s.len(),
{
}

/// The invariants of a round, spelled out: the registry is empty exactly
/// when the round is idle; a countdown runs only over enough contacts, and
/// over the snapshot it was started for; while the winner is shown or the
/// round resets the registry holds the winner alone; the radius is at its
/// initial value outside those two phases; and at most one timer is live.
pub proof fn lemma_invariants(r: Round)
    requires
        r.inv(),
    ensures
        r.contacts.len() == 0 <==> r.phase == State::Idle,
        r.phase == State::Selecting ==> r.contacts.len() >= r.config.min_contacts
            && r.contacts.len() >= 1 && r.contacts == r.captured,
        r.phase.frozen() ==> r.contacts.len() == 1,
        !r.phase.frozen() ==> r.radius() == r.config.initial_radius,
        r.debounce is Some ==> r.phase == State::Preparing,
        r.countdown is Some <==> r.phase == State::Selecting,
        r.phase_timer is Some <==> r.phase.frozen(),
        i32::MIN <= r.radius() <= i32::MAX,
{
}

/// The phase after a pointer input. A frozen round stays as it is. Otherwise
/// a contact that is new prepares the round; a contact that lifts prepares it
/// too, or leaves it idle if it was the last; and a move matters only to a
/// countdown, which it aborts if the contact is present and goes elsewhere.
pub proof fn lemma_phase_after_input(r: Round, c: Contact, id: int, x: int, y: int)
    requires
        r.inv(),
    ensures
        r.contact_down(c).phase == if r.phase.frozen() || has_id(r.contacts, c.id) {
            r.phase
        } else {
            State::Preparing
        },
        r.contact_up(id).phase == if r.phase.frozen() || !has_id(r.contacts, id) {
            r.phase
        } else if r.contacts.len() == 1 {
            State::Idle
        } else {
            State::Preparing
        },
        r.contact_move(id, x, y).phase == if r.phase == State::Selecting && moved(
            r.contacts,
            id,
            x,
            y,
        ) != r.contacts {
            State::Preparing
        } else {
            r.phase
        },
{
    lemma_added_distinct(r.contacts, c);
    lemma_removed_distinct(r.contacts, id);
    lemma_moved_distinct(r.contacts, id, x, y);
}

/// The phase after the timer of a phase has fired: a debounce that finds
/// enough contacts starts the countdown and otherwise leaves the round
/// preparing; the countdown always ends in the draw; the winner is shown
/// until the round resets; and the reset ends in `Idle`.
pub proof fn lemma_phase_after_timer(r: Round)
    requires
        r.inv(),
        r.due() == Some(0nat),
    ensures
        r.fired().phase == match r.phase {
            State::Idle => State::Idle,
            State::Preparing => if r.contacts.len() >= r.config.min_contacts {
                State::Selecting
            } else {
                State::Preparing
            },
            State::Selecting => State::Revealing,
            State::Revealing => State::Resetting,
            State::Resetting => State::Idle,
        },
        r.phase == State::Selecting ==> r.fired().contacts == seq![r.captured[pick_index(r.captured)]],
{
}

/// From `Idle`, one contact that touches down starts the preparation: the
/// debounce timer is armed and there is no countdown timer yet.
pub proof fn lemma_first_contact_prepares(r: Round, c: Contact)
    requires
        r.inv(),
        r.phase == State::Idle,
    ensures
        r.contact_down(c).phase == State::Preparing,
        r.contact_down(c).contacts == seq![c],
        r.contact_down(c).debounce == Some(r.config.debounce_ms as nat),
        r.contact_down(c).countdown is None,
{
}

/// While fewer contacts are present than a draw needs, no amount of waiting
/// leaves `Preparing`: when the debounce timer fires its guard declines.
pub proof fn lemma_too_few_contacts_stay_preparing(r: Round, elapsed: nat)
    requires
        r.inv(),
        r.phase == State::Preparing,
        r.contacts.len() < r.config.min_contacts,
    ensures
        r.advanced(elapsed).phase == State::Preparing,
        r.advanced(elapsed).contacts == r.contacts,
        r.advanced(elapsed).countdown is None,
{
    reveal_with_fuel(Round::advanced, 3);
}

/// With enough contacts present, the debounce timer starts the countdown
/// over the contacts as they are, the countdown ends in the draw, and the
/// registry then holds the contact that the draw picks from that snapshot,
/// alone. Here `elapsed` counts from a moment in `Preparing`.
pub proof fn lemma_debounce_then_countdown(r: Round, elapsed: nat)
    requires
        r.inv(),
        r.phase == State::Preparing,
        r.contacts.len() >= r.config.min_contacts,
    ensures
        r.debounce matches Some(wait) && wait <= r.config.debounce_ms && {
            let drawn = wait + r.config.countdown_ms;
            let shown = drawn + r.config.growth.duration_ms;
            &&& elapsed < wait ==> r.advanced(elapsed).phase == State::Preparing
            &&& wait <= elapsed < drawn ==> {
                &&& r.advanced(elapsed).phase == State::Selecting
                &&& r.advanced(elapsed).captured == r.contacts
                &&& r.advanced(elapsed).contacts == r.contacts
                &&& r.advanced(elapsed).countdown == Some((drawn - elapsed) as nat)
            }
            &&& drawn <= elapsed < shown ==> {
                &&& r.advanced(elapsed).phase == State::Revealing
                &&& r.advanced(elapsed).contacts == seq![r.contacts[pick_index(r.contacts)]]
            }
        },
{
    reveal_with_fuel(Round::advanced, 3);
    let wait = r.debounce->0;
    r.lemma_waited_inv(wait);
    r.waited(wait).lemma_fired_inv();
    r.waited(wait).fired().lemma_waited_inv(r.config.countdown_ms as nat);
}

/// A contact that lifts during the countdown aborts it: the countdown timer
/// is cancelled and never fires. The round prepares again with the debounce
/// timer armed afresh, or is idle if no contact is left, and no draw takes
/// place before a whole debounce and a whole countdown have passed anew.
pub proof fn lemma_removal_aborts_countdown(r: Round, id: int, elapsed: nat)
    requires
        r.inv(),
        r.phase == State::Selecting,
        has_id(r.contacts, id),
    ensures
        ({
            let after = r.contact_up(id);
            &&& after.contacts.len() == r.contacts.len() - 1
            &&& after.countdown is None
            &&& after.phase == if after.contacts.len() == 0 {
                State::Idle
            } else {
                State::Preparing
            }
            &&& after.contacts.len() > 0 ==> after.debounce == Some(r.config.debounce_ms as nat)
            &&& elapsed < r.config.debounce_ms + r.config.countdown_ms ==> {
                &&& !after.advanced(elapsed).phase.frozen()
                &&& after.advanced(elapsed).contacts == after.contacts
            }
        }),
{
    reveal_with_fuel(Round::advanced, 3);
    lemma_removed_distinct(r.contacts, id);
    let after = r.contact_up(id);
    r.lemma_contact_up_inv(id);
    if after.contacts.len() > 0 {
        after.lemma_waited_inv(r.config.debounce_ms as nat);
    }
}

/// While the winner is shown and while the round resets, pointer input is
/// ignored: the whole round, registry and phase included, stays as it is.
pub proof fn lemma_frozen_ignores_input(r: Round, c: Contact, id: int, x: int, y: int)
    requires
        r.phase.frozen(),
    ensures
        r.contact_down(c) == r,
        r.contact_move(id, x, y) == r,
        r.contact_up(id) == r,
{
}

/// Once the winner is shown, the rest of the round runs by itself: when the
/// growth window is over the round resets, and when the shrink window is over
/// as well the round is idle, the registry is empty and the radius is back at
/// exactly its initial value, whatever the steps and tick intervals are.
pub proof fn lemma_round_runs_out(r: Round, elapsed: nat)
    requires
        r.inv(),
        r.phase == State::Revealing,
    ensures
        r.phase_timer matches Some(grown) && {
            let done = grown + r.config.shrink.duration_ms;
            &&& elapsed < grown ==> r.advanced(elapsed).phase == State::Revealing
            &&& grown <= elapsed < done ==> r.advanced(elapsed).phase == State::Resetting
            &&& elapsed < done ==> r.advanced(elapsed).contacts == r.contacts
            &&& elapsed >= done ==> {
                &&& r.advanced(elapsed).phase == State::Idle
                &&& r.advanced(elapsed).contacts.len() == 0
                &&& r.advanced(elapsed).radius() == r.config.initial_radius
            }
        },
{
    reveal_with_fuel(Round::advanced, 3);
    let grown = r.phase_timer->0;
    r.lemma_waited_inv(grown);
    r.waited(grown).lemma_fired_inv();
    r.waited(grown).fired().lemma_waited_inv(r.config.shrink.duration_ms as nat);
}

/// Whenever a round is not showing a winner or resetting, however it got
/// there, its radius is exactly the initial radius.
pub proof fn lemma_radius_at_rest(r: Round, elapsed: nat)
    requires
        r.inv(),
        !r.advanced(elapsed).phase.frozen(),
    ensures
        r.advanced(elapsed).radius() == r.config.initial_radius,
{
    r.lemma_advanced_inv(elapsed);
    r.lemma_advanced_keeps_config(elapsed);
}

/// How the elapsed time is cut into calls makes no difference: letting
/// `first` and then `second` milliseconds pass leaves the round where letting
/// their sum pass at once leaves it.
pub proof fn lemma_time_adds_up(r: Round, first: nat, second: nat)
    requires
        r.inv(),
    ensures
        r.advanced(first).advanced(second) == r.advanced(first + second),
{
    r.lemma_advanced_twice(first, second);
}

/// The radius driver by itself is symmetric where its windows are matched:
/// if a whole growth window adds what a whole shrink window takes away, then
/// growing through the one and shrinking through the other brings the radius
/// back to exactly where it began.
pub proof fn lemma_matched_ramps_cancel(a: Animation)
    requires
        a.wf(),
        a.fits(Direction::Grow),
        a.span(Direction::Grow) + a.span(Direction::Shrink) == 0,
    ensures
        ({
            let grown = a.started(Direction::Grow).advanced(a.growth.duration_ms as nat);
            let shrunk = grown.started(Direction::Shrink).advanced(a.shrink.duration_ms as nat);
            &&& grown.value == a.value + a.span(Direction::Grow)
            &&& grown.run is None
            &&& shrunk.value == a.value
            &&& shrunk.run is None
        }),
{
    let up = a.started(Direction::Grow);
    up.lemma_advanced(a.growth.duration_ms as nat, a.value);
    let grown = up.advanced(a.growth.duration_ms as nat);
    let down = grown.started(Direction::Shrink);
    assert(down.window(Direction::Shrink).ticks_by(0) == 0);
    down.lemma_advanced(a.shrink.duration_ms as nat, grown.value);
}

} // verus!
