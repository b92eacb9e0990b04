//! Whole sessions: what a run of events leaves behind and sends out, and the
//! guarantees that hold of every run.

use vstd::prelude::*;
use crate::dispatch::{
    all_released, is_down, next_state, outcome_of, outcome_of_message, releases_below,
    releases_of, state_after_message, tracks_bound_notes, Outcome, Transition,
};
use crate::message::{NoteEvent, NoteKind};

verus! {

/// The press state after a run of events, taken in order.
pub open spec fn state_after(keys: Map<u8, u16>, state: Map<u8, bool>, events: Seq<NoteEvent>) -> Map<
    u8,
    bool,
>
    decreases events.len(),
{
    if events.len() == 0 {
        state
    } else {
        next_state(keys, state_after(keys, state, events.drop_last()), events.last())
    }
}

/// The transitions that an outcome sends out: one or none.
pub open spec fn emitted_by(outcome: Outcome) -> Seq<Transition> {
    match outcome {
        Outcome::Emit(transition) => seq![transition],
        _ => Seq::empty(),
    }
}

/// The transitions sent out over a run of events, in order.
pub open spec fn emitted(keys: Map<u8, u16>, state: Map<u8, bool>, events: Seq<NoteEvent>) -> Seq<
    Transition,
>
    decreases events.len(),
{
    if events.len() == 0 {
        Seq::empty()
    } else {
        emitted(keys, state, events.drop_last()) + emitted_by(
            outcome_of(keys, state_after(keys, state, events.drop_last()), events.last()),
        )
    }
}

/// Whether a transition is a key-down for `note`.
pub open spec fn presses(transition: Transition, note: u8) -> bool {
    transition.note == note && transition.down
}

/// Whether a transition is a key-up for `note`.
pub open spec fn releases(transition: Transition, note: u8) -> bool {
    transition.note == note && !transition.down
}

/// How many key-downs for `note` a run of transitions holds.
pub open spec fn count_presses(sent: Seq<Transition>, note: u8) -> nat
    decreases sent.len(),
{
    if sent.len() == 0 {
        0
    } else {
        count_presses(sent.drop_last(), note) + if presses(sent.last(), note) {
            1nat
        } else {
            0nat
        }
    }
}

/// How many key-ups for `note` a run of transitions holds.
pub open spec fn count_releases(sent: Seq<Transition>, note: u8) -> nat
    decreases sent.len(),
{
    if sent.len() == 0 {
        0
    } else {
        count_releases(sent.drop_last(), note) + if releases(sent.last(), note) {
            1nat
        } else {
            0nat
        }
    }
}

/// Whether a key-up for `note` stands strictly between the places `from`
/// and `to`.
pub open spec fn released_between(sent: Seq<Transition>, note: u8, from: int, to: int) -> bool {
    exists|k: int| from < k < to && 0 <= k < sent.len() && releases(#[trigger] sent[k], note)
}

/// A run of transitions holds a key-up for `note` exactly when it counts at
/// least one, and a key-down likewise.
pub proof fn lemma_counts_meet_places(sent: Seq<Transition>, note: u8)
    ensures
        count_releases(sent, note) > 0 <==> released_between(sent, note, -1, sent.len() as int),
        count_presses(sent, note) > 0 <==> exists|i: int|
            0 <= i < sent.len() && presses(#[trigger] sent[i], note),
    decreases sent.len(),
{
    if sent.len() > 0 {
        let front = sent.drop_last();
        lemma_counts_meet_places(front, note);
        let last = sent.len() - 1;
        if count_releases(sent, note) > 0 {
            if releases(sent.last(), note) {
                assert(releases(sent[last], note));
            } else {
                let k = choose|k: int|
                    -1 < k < front.len() && 0 <= k < front.len() && releases(
                        #[trigger] front[k],
                        note,
                    );
                assert(releases(sent[k], note));
            }
        }
        if released_between(sent, note, -1, sent.len() as int) {
            let k = choose|k: int|
                -1 < k < sent.len() && 0 <= k < sent.len() && releases(#[trigger] sent[k], note);
            if k < last {
                assert(releases(front[k], note));
            }
        }
        if count_presses(sent, note) > 0 {
            if presses(sent.last(), note) {
                assert(presses(sent[last], note));
            } else {
                let i = choose|i: int| 0 <= i < front.len() && presses(#[trigger] front[i], note);
                assert(presses(sent[i], note));
            }
        }
        if exists|i: int| 0 <= i < sent.len() && presses(#[trigger] sent[i], note) {
            let i = choose|i: int| 0 <= i < sent.len() && presses(#[trigger] sent[i], note);
            if i < last {
                assert(presses(front[i], note));
            }
        }
    }
}

/// A note-off for a note that drives a key leaves the note released,
/// whatever came before it, earlier note-offs included.
pub proof fn lemma_note_off_leaves_released(
    keys: Map<u8, u16>,
    state: Map<u8, bool>,
    events: Seq<NoteEvent>,
    note: u8,
)
    requires
        keys.contains_key(note),
        events.len() > 0,
        events.last().note == note,
        events.last().kind == NoteKind::NoteOff,
    ensures
        !is_down(state_after(keys, state, events), note),
{
}

/// A message of fewer than three bytes changes no state and sends nothing.
pub proof fn lemma_short_message_is_no_op(keys: Map<u8, u16>, state: Map<u8, bool>, bytes: Seq<u8>)
    requires
        bytes.len() < 3,
    ensures
        state_after_message(keys, state, bytes) == state,
        outcome_of_message(keys, state, bytes) == Outcome::Ignored,
        emitted_by(outcome_of_message(keys, state, bytes)) == Seq::<Transition>::empty(),
{
}

/// Only notes that drive a key are ever entered in the press state.
pub proof fn lemma_run_tracks_bound_notes(
    keys: Map<u8, u16>,
    state: Map<u8, bool>,
    events: Seq<NoteEvent>,
)
    requires
        tracks_bound_notes(keys, state),
    ensures
        tracks_bound_notes(keys, state_after(keys, state, events)),
    decreases events.len(),
{
    if events.len() > 0 {
        lemma_run_tracks_bound_notes(keys, state, events.drop_last());
    }
}

/// What the releases owed below a bound hold for one note.
proof fn lemma_releases_below_count(keys: Map<u8, u16>, state: Map<u8, bool>, bound: nat, note: u8)
    requires
        bound <= 256,
    ensures
        count_presses(releases_below(keys, state, bound), note) == 0,
        count_releases(releases_below(keys, state, bound), note) == if note < bound && is_down(
            state,
            note,
        ) && keys.contains_key(note) {
            1nat
        } else {
            0nat
        },
    decreases bound,
{
    if bound > 0 {
        let at = (bound - 1) as u8;
        let earlier = releases_below(keys, state, (bound - 1) as nat);
        lemma_releases_below_count(keys, state, (bound - 1) as nat, note);
        if is_down(state, at) && keys.contains_key(at) {
            let release = Transition { note: at, key: keys[at], down: false };
            assert(earlier.push(release).drop_last() =~= earlier);
        }
    }
}

/// When the session stops, exactly one key-up is sent for each pressed
/// note and none for a released one; no key-down is sent; and no note is
/// left pressed.
pub proof fn lemma_shutdown_releases_pressed_notes_once(
    keys: Map<u8, u16>,
    state: Map<u8, bool>,
    note: u8,
)
    requires
        tracks_bound_notes(keys, state),
    ensures
        count_releases(releases_of(keys, state), note) == if is_down(state, note) {
            1nat
        } else {
            0nat
        },
        count_presses(releases_of(keys, state), note) == 0,
        !is_down(all_released(state), note),
{
    lemma_releases_below_count(keys, state, 256, note);
}

/// A key-up found in a run of transitions is found in every run that
/// starts with the same transitions.
proof fn lemma_released_between_in_prefix(
    short: Seq<Transition>,
    long: Seq<Transition>,
    note: u8,
    from: int,
    to: int,
)
    requires
        short.len() <= long.len(),
        forall|k: int| 0 <= k < short.len() ==> short[k] == long[k],
        to <= short.len(),
    ensures
        released_between(short, note, from, to) == released_between(long, note, from, to),
{
    if released_between(short, note, from, to) {
        let k = choose|k: int|
            from < k < to && 0 <= k < short.len() && releases(#[trigger] short[k], note);
        assert(releases(long[k], note));
    }
    if released_between(long, note, from, to) {
        let k = choose|k: int|
            from < k < to && 0 <= k < long.len() && releases(#[trigger] long[k], note);
        assert(releases(short[k], note));
    }
}

/// The key-ups after a place, once one more transition has been sent.
proof fn lemma_released_between_after_push(
    sent: Seq<Transition>,
    last: Transition,
    note: u8,
    from: int,
)
    ensures
        released_between(sent.push(last), note, from, sent.len() as int + 1) == (released_between(
            sent,
            note,
            from,
            sent.len() as int,
        ) || (from < sent.len() && releases(last, note))),
{
    let longer = sent.push(last);
    let end = sent.len() as int;
    if released_between(longer, note, from, end + 1) {
        let k = choose|k: int|
            from < k < end + 1 && 0 <= k < longer.len() && releases(#[trigger] longer[k], note);
        if k < end {
            assert(releases(sent[k], note));
        }
    }
    if released_between(sent, note, from, end) {
        let k = choose|k: int|
            from < k < end && 0 <= k < sent.len() && releases(#[trigger] sent[k], note);
        assert(releases(longer[k], note));
    }
    if from < end && releases(last, note) {
        assert(releases(longer[end], note));
    }
}

/// What holds of one note after every run of events: the balance of
/// key-downs and key-ups, and how the press state follows from what was
/// sent.
proof fn lemma_run_keeps_balance(
    keys: Map<u8, u16>,
    state: Map<u8, bool>,
    events: Seq<NoteEvent>,
    note: u8,
)
    ensures
        ({
            let sent = emitted(keys, state, events);
            let end = state_after(keys, state, events);
            let was_down: nat = if is_down(state, note) {
                1
            } else {
                0
            };
            let is_down_now: nat = if is_down(end, note) {
                1
            } else {
                0
            };
            &&& count_presses(sent, note) + was_down <= count_releases(sent, note) + is_down_now
            &&& forall|i: int|
                0 <= i < sent.len() && presses(#[trigger] sent[i], note) && !released_between(
                    sent,
                    note,
                    i,
                    sent.len() as int,
                ) ==> is_down(end, note)
            &&& forall|i: int, j: int|
                0 <= i < j < sent.len() && presses(#[trigger] sent[i], note) && presses(
                    #[trigger] sent[j],
                    note,
                ) ==> released_between(sent, note, i, j)
            &&& is_down(end, note) ==> (is_down(state, note) && !released_between(
                sent,
                note,
                -1,
                sent.len() as int,
            )) || (exists|i: int|
                0 <= i < sent.len() && presses(#[trigger] sent[i], note) && !released_between(
                    sent,
                    note,
                    i,
                    sent.len() as int,
                ))
        }),
    decreases events.len(),
{
    let sent = emitted(keys, state, events);
    let end = state_after(keys, state, events);
    if events.len() == 0 {
        assert(!released_between(sent, note, -1, 0));
    } else {
        let earlier = events.drop_last();
        let before = emitted(keys, state, earlier);
        let middle = state_after(keys, state, earlier);
        let outcome = outcome_of(keys, middle, events.last());
        let n = before.len() as int;
        lemma_run_keeps_balance(keys, state, earlier, note);
        match outcome {
            Outcome::Emit(t) => {
                assert(sent =~= before.push(t));
                assert(sent.drop_last() =~= before);
                assert(t.note == events.last().note);
                assert forall|i: int|
                    0 <= i < sent.len() && presses(#[trigger] sent[i], note) && !released_between(
                        sent,
                        note,
                        i,
                        sent.len() as int,
                    ) implies is_down(end, note) by {
                    lemma_released_between_after_push(before, t, note, i);
                    if i < n {
                        assert(presses(before[i], note));
                    }
                }
                assert forall|i: int, j: int|
                    0 <= i < j < sent.len() && presses(#[trigger] sent[i], note) && presses(
                        #[trigger] sent[j],
                        note,
                    ) implies released_between(sent, note, i, j) by {
                    assert(presses(before[i], note));
                    if j < n {
                        assert(presses(before[j], note));
                    }
                    lemma_released_between_in_prefix(before, sent, note, i, j);
                }
                if is_down(end, note) {
                    if t.note == note {
                        assert(presses(sent[n], note));
                        assert(!released_between(sent, note, n, n + 1));
                    } else if is_down(state, note) && !released_between(before, note, -1, n) {
                        lemma_released_between_after_push(before, t, note, -1);
                    } else {
                        let i = choose|i: int|
                            0 <= i < before.len() && presses(#[trigger] before[i], note)
                                && !released_between(before, note, i, n);
                        lemma_released_between_after_push(before, t, note, i);
                        assert(presses(sent[i], note));
                    }
                }
            },
            _ => {
                assert(sent =~= before);
                assert(end == middle);
            },
        }
    }
}

/// Key-downs and key-ups for a note alternate: over any run of events,
/// from any press state, the key-downs sent for a note outnumber its
/// key-ups by one at most, and between two key-downs for a note a key-up
/// for it is sent.
pub proof fn lemma_key_downs_never_repeat(
    keys: Map<u8, u16>,
    state: Map<u8, bool>,
    events: Seq<NoteEvent>,
    note: u8,
)
    ensures
        count_presses(emitted(keys, state, events), note) <= count_releases(
            emitted(keys, state, events),
            note,
        ) + 1,
        forall|i: int, j: int|
            0 <= i < j < emitted(keys, state, events).len() && presses(
                #[trigger] emitted(keys, state, events)[i],
                note,
            ) && presses(#[trigger] emitted(keys, state, events)[j], note) ==> released_between(
                emitted(keys, state, events),
                note,
                i,
                j,
            ),
{
    lemma_run_keeps_balance(keys, state, events, note);
}

/// A note is pressed exactly when a key-down was sent for it and no key-up
/// for it has been sent since. This holds after any run of events that
/// starts with the note released.
pub proof fn lemma_pressed_iff_key_down_unanswered(
    keys: Map<u8, u16>,
    state: Map<u8, bool>,
    events: Seq<NoteEvent>,
    note: u8,
)
    requires
        !is_down(state, note),
    ensures
        is_down(state_after(keys, state, events), note) <==> exists|i: int|
            0 <= i < emitted(keys, state, events).len() && presses(
                #[trigger] emitted(keys, state, events)[i],
                note,
            ) && !released_between(
                emitted(keys, state, events),
                note,
                i,
                emitted(keys, state, events).len() as int,
            ),
{
    lemma_run_keeps_balance(keys, state, events, note);
}

/// No key is left down: over a whole session, the run of events followed
/// by the releases sent when it stops, every key-down for a note is
/// followed by a key-up for that note.
pub proof fn lemma_no_key_left_down(
    keys: Map<u8, u16>,
    state: Map<u8, bool>,
    events: Seq<NoteEvent>,
    note: u8,
)
    requires
        tracks_bound_notes(keys, state),
    ensures
        ({
            let whole = emitted(keys, state, events) + releases_of(
                keys,
                state_after(keys, state, events),
            );
            forall|i: int|
                0 <= i < whole.len() && presses(#[trigger] whole[i], note) ==> released_between(
                    whole,
                    note,
                    i,
                    whole.len() as int,
                )
        }),
{
    let sent = emitted(keys, state, events);
    let end = state_after(keys, state, events);
    let owed = releases_of(keys, end);
    let whole = sent + owed;
    let n = sent.len() as int;
    lemma_run_keeps_balance(keys, state, events, note);
    lemma_run_tracks_bound_notes(keys, state, events);
    lemma_shutdown_releases_pressed_notes_once(keys, end, note);
    lemma_counts_meet_places(owed, note);
    assert forall|i: int| 0 <= i < whole.len() && presses(#[trigger] whole[i], note) implies released_between(
        whole,
        note,
        i,
        whole.len() as int,
    ) by {
        if i < n {
            assert(presses(sent[i], note));
            if released_between(sent, note, i, n) {
                let k = choose|k: int|
                    i < k < n && 0 <= k < sent.len() && releases(#[trigger] sent[k], note);
                assert(releases(whole[k], note));
            } else {
                let k = choose|k: int|
                    -1 < k < owed.len() && 0 <= k < owed.len() && releases(
                        #[trigger] owed[k],
                        note,
                    );
                assert(releases(whole[n + k], note));
            }
        } else {
            assert(presses(owed[i - n], note));
        }
    }
}

} // verus!
