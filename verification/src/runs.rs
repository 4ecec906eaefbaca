use vstd::prelude::*;

use crate::bot::{
    delay_ns, elapsed, lane_actions, lane_next, lane_ok, pass_actions, release_actions, replays,
    BotModel, KeyAction, LaneState,
};

verus! {

/// What one pass of the bot does to one lane: an active pass sees whether
/// a note is under the lane at time `now` (with the click delay, the hold
/// mode and the lane's key of that pass); an idle pass (the bot disabled or
/// the game window in the background) releases the lane's key.
pub enum LanePass {
    Active { note: bool, now: u64, delay: int, hold: bool, key: u16 },
    Idle { key: u16 },
}

/// A lane's state after one pass.
pub open spec fn pass_next(ls: LaneState, p: LanePass) -> LaneState {
    match p {
        LanePass::Active { note, now, delay, hold, key } => lane_next(ls, note, now, delay, hold),
        LanePass::Idle { key } => LaneState { key_down: false, clicked: false, detected_at: ls.detected_at },
    }
}

/// The key events of a lane in one pass.
pub open spec fn pass_events(ls: LaneState, p: LanePass) -> Seq<KeyAction> {
    match p {
        LanePass::Active { note, now, delay, hold, key } => lane_actions(ls, note, now, delay, hold, key),
        LanePass::Idle { key } => if ls.key_down {
            seq![KeyAction { key, down: false }]
        } else {
            seq![]
        },
    }
}

/// The pass sees a note under the lane.
pub open spec fn sees_note(p: LanePass) -> bool {
    p matches LanePass::Active { note, .. } && note
}

/// The pass is idle or sees a note: it does not see the lane empty.
pub open spec fn keeps_note(p: LanePass) -> bool {
    p is Idle || sees_note(p)
}

/// Some event of `events` is a press.
pub open spec fn has_press(events: Seq<KeyAction>) -> bool {
    exists|i: int| 0 <= i < events.len() && (#[trigger] events[i]).down
}

/// A lane's state after the first `n` passes, from `ls`.
pub open spec fn state_after(ls: LaneState, passes: Seq<LanePass>, n: nat) -> LaneState
    decreases n,
{
    if n == 0 {
        ls
    } else {
        pass_next(state_after(ls, passes, (n - 1) as nat), passes[n - 1])
    }
}

/// A lane's key events during the first `n` passes, from `ls`, in order.
pub open spec fn events_upto(ls: LaneState, passes: Seq<LanePass>, n: nat) -> Seq<KeyAction>
    decreases n,
{
    if n == 0 {
        seq![]
    } else {
        events_upto(ls, passes, (n - 1) as nat) + pass_events(
            state_after(ls, passes, (n - 1) as nat),
            passes[n - 1],
        )
    }
}

/// Lane `i`'s part of a pass of the bot `m`: active with the brightness
/// `brightness[i]` at `now`, or idle.
pub open spec fn bot_lane_pass(m: BotModel, active: bool, brightness: Seq<u8>, now: u64, i: int) -> LanePass {
    if active {
        LanePass::Active {
            note: brightness[i] > m.threshold,
            now,
            delay: delay_ns(m.click_delay),
            hold: m.hold_notes,
            key: m.keys[i],
        }
    } else {
        LanePass::Idle { key: m.keys[i] }
    }
}

/// The key events of one pass of the bot (`Bot::react` when active,
/// `Bot::release_all` when idle) are those of its four lanes, lane by lane,
/// and each lane moves on as `pass_next` says; so every lane of the bot
/// runs through `LanePass`es.
pub proof fn lemma_bot_pass_is_lane_passes(m: BotModel, active: bool, brightness: Seq<u8>, now: u64)
    ensures
        (if active {
            pass_actions(m, brightness, now, 4)
        } else {
            release_actions(m, 4)
        }) == pass_events(m.lane_states[0], bot_lane_pass(m, active, brightness, now, 0)) + pass_events(
            m.lane_states[1],
            bot_lane_pass(m, active, brightness, now, 1),
        ) + pass_events(m.lane_states[2], bot_lane_pass(m, active, brightness, now, 2)) + pass_events(
            m.lane_states[3],
            bot_lane_pass(m, active, brightness, now, 3),
        ),
        forall|i: int|
            0 <= i < 4 ==> #[trigger] pass_next(m.lane_states[i], bot_lane_pass(m, active, brightness, now, i))
                == (if active {
                lane_next(m.lane_states[i], brightness[i] > m.threshold, now, delay_ns(m.click_delay), m.hold_notes)
            } else {
                LaneState { key_down: false, clicked: false, detected_at: m.lane_states[i].detected_at }
            }),
{
    reveal_with_fuel(pass_actions, 5);
    reveal_with_fuel(release_actions, 5);
    assert(seq![] + pass_events(m.lane_states[0], bot_lane_pass(m, active, brightness, now, 0)) =~= pass_events(
        m.lane_states[0],
        bot_lane_pass(m, active, brightness, now, 0),
    ));
}

/// Replays chain: replaying `a` from `down` to `mid` and then `b` from `mid`
/// to `end` replays `a + b` from `down` to `end`.
pub proof fn lemma_replays_concat(down: bool, a: Seq<KeyAction>, mid: bool, b: Seq<KeyAction>, end: bool)
    requires
        replays(down, a, mid),
        replays(mid, b, end),
    ensures
        replays(down, a + b, end),
    decreases a.len(),
{
    if a.len() > 0 {
        assert((a + b).drop_first() =~= a.drop_first() + b);
        lemma_replays_concat(a[0].down, a.drop_first(), mid, b, end);
    } else {
        assert(a + b =~= b);
    }
}

/// One pass keeps a lane well formed and its events replay its key.
pub proof fn lemma_pass_replays(ls: LaneState, p: LanePass)
    requires
        lane_ok(ls),
    ensures
        lane_ok(pass_next(ls, p)),
        replays(ls.key_down, pass_events(ls, p), pass_next(ls, p).key_down),
{
    match p {
        LanePass::Active { note, now, delay, hold, key } => {
            crate::bot::lemma_lane_step_keeps_lane_ok(ls, note, now, delay, hold);
            crate::bot::lemma_actions_replay(ls, note, now, delay, hold, key);
        },
        LanePass::Idle { key } => {
            reveal_with_fuel(replays, 2);
            if ls.key_down {
                assert(pass_events(ls, p).drop_first() =~= Seq::<KeyAction>::empty());
            }
        },
    }
}

/// Across any run of passes, a lane's key events alternate with what the
/// bot holds: never a second press before a release, never a release
/// without a press; from a released key (as the bot starts) the first event
/// is a press. The lane's state records whether its key is held.
pub proof fn lemma_run_alternates(ls: LaneState, passes: Seq<LanePass>, n: nat)
    requires
        lane_ok(ls),
        n <= passes.len(),
    ensures
        lane_ok(state_after(ls, passes, n)),
        replays(ls.key_down, events_upto(ls, passes, n), state_after(ls, passes, n).key_down),
    decreases n,
{
    if n > 0 {
        let k = (n - 1) as nat;
        lemma_run_alternates(ls, passes, k);
        lemma_pass_replays(state_after(ls, passes, k), passes[k as int]);
        lemma_replays_concat(
            ls.key_down,
            events_upto(ls, passes, k),
            state_after(ls, passes, k).key_down,
            pass_events(state_after(ls, passes, k), passes[k as int]),
            state_after(ls, passes, n).key_down,
        );
    }
}

/// Where a lane's recorded sighting came from: if, after `n` passes from a
/// lane with no sighting, the lane records a note seen at time `t`, then
/// some pass `j < n` saw a note at `t` on a lane with no sighting, and every
/// pass since was idle or saw the note.
pub proof fn lemma_sighting_origin(ls: LaneState, passes: Seq<LanePass>, n: nat)
    requires
        ls.detected_at is None,
        n <= passes.len(),
    ensures
        state_after(ls, passes, n).detected_at matches Some(t) ==> exists|j: int|
            0 <= j < n && #[trigger] sees_note(passes[j]) && passes[j]->Active_now == t && state_after(
                ls,
                passes,
                j as nat,
            ).detected_at is None && forall|m: int| j < m < n ==> keeps_note(#[trigger] passes[m]),
    decreases n,
{
    if n > 0 {
        let k = (n - 1) as nat;
        lemma_sighting_origin(ls, passes, k);
        let before = state_after(ls, passes, k);
        let p = passes[k as int];
        if let Some(t) = state_after(ls, passes, n).detected_at {
            if before.detected_at is None {
                assert(sees_note(p) && p->Active_now == t);
                assert(forall|m: int| k < m < n ==> keeps_note(#[trigger] passes[m]));
            } else {
                assert(before.detected_at == Some(t));
                assert(keeps_note(p));
                let j = choose|j: int|
                    0 <= j < k && #[trigger] sees_note(passes[j]) && passes[j]->Active_now == t && state_after(
                        ls,
                        passes,
                        j as nat,
                    ).detected_at is None && forall|m: int| j < m < k ==> keeps_note(#[trigger] passes[m]);
                assert(forall|m: int| j < m < n ==> keeps_note(#[trigger] passes[m]));
            }
        }
    }
}

/// A press needs a note seen without a break: if pass `k` of a run that
/// starts without a sighting presses a lane's key, then pass `k` sees the
/// note on a released lane, and some earlier pass `j` first saw it at a time
/// at least the click delay (of pass `k`) before, with every pass between
/// idle or seeing the note.
pub proof fn lemma_press_after_continuous_sighting(ls: LaneState, passes: Seq<LanePass>, k: nat)
    requires
        lane_ok(ls),
        ls.detected_at is None,
        k < passes.len(),
        has_press(pass_events(state_after(ls, passes, k), passes[k as int])),
    ensures
        sees_note(passes[k as int]),
        !state_after(ls, passes, k).key_down,
        exists|j: int|
            0 <= j < k && #[trigger] sees_note(passes[j]) && state_after(ls, passes, j as nat).detected_at is None
                && elapsed(passes[j]->Active_now, passes[k as int]->Active_now) >= passes[k as int]->Active_delay
                && forall|m: int| j < m < k ==> keeps_note(#[trigger] passes[m]),
{
    let s = state_after(ls, passes, k);
    let p = passes[k as int];
    let e = pass_events(s, p);
    let i = choose|i: int| 0 <= i < e.len() && (#[trigger] e[i]).down;
    lemma_run_alternates(ls, passes, k);
    match p {
        LanePass::Active { note, now, delay, hold, key } => {
            crate::bot::lemma_press_waits_for_delay(s, note, now, delay, hold, key, i);
        },
        LanePass::Idle { key } => {
            assert(!e[i].down);
        },
    }
    lemma_sighting_origin(ls, passes, k);
}

/// After a pass that presses a lane's key, the lane holds its key or has
/// tapped, and stays so while every pass sees the note.
proof fn lemma_pressed_lane_waits(ls: LaneState, passes: Seq<LanePass>, j: nat, n: nat)
    requires
        lane_ok(ls),
        j < n <= passes.len(),
        has_press(pass_events(state_after(ls, passes, j), passes[j as int])),
        forall|m: int| j < m < n ==> sees_note(#[trigger] passes[m]),
    ensures
        state_after(ls, passes, n).key_down || state_after(ls, passes, n).clicked,
    decreases n,
{
    if n == j + 1 {
        let s = state_after(ls, passes, j);
        let p = passes[j as int];
        let e = pass_events(s, p);
        let i = choose|i: int| 0 <= i < e.len() && (#[trigger] e[i]).down;
        if let LanePass::Active { note, now, delay, hold, key } = p {
            crate::bot::lemma_press_waits_for_delay(s, note, now, delay, hold, key, i);
        } else {
            assert(!e[i].down);
        }
    } else {
        lemma_pressed_lane_waits(ls, passes, j, (n - 1) as nat);
        assert(sees_note(passes[n - 1]));
    }
}

/// One press per note: once a pass presses a lane's key (a held press, or
/// a tap in tap mode), no later pass presses it again while every pass
/// since sees the note.
pub proof fn lemma_one_press_per_note(ls: LaneState, passes: Seq<LanePass>, j: nat, k: nat)
    requires
        lane_ok(ls),
        j < k < passes.len(),
        has_press(pass_events(state_after(ls, passes, j), passes[j as int])),
        forall|m: int| j < m <= k ==> sees_note(#[trigger] passes[m]),
    ensures
        !has_press(pass_events(state_after(ls, passes, k), passes[k as int])),
{
    lemma_pressed_lane_waits(ls, passes, j, k);
    assert(sees_note(passes[k as int]));
    let s = state_after(ls, passes, k);
    let p = passes[k as int];
    if let LanePass::Active { note, now, delay, hold, key } = p {
        assert(pass_events(s, p) =~= Seq::<KeyAction>::empty());
    }
}

/// In tap mode every press comes with its release in the same pass: a
/// lane's events in one active tap-mode pass are none, a release, or a
/// press and then a release.
pub proof fn lemma_tap_mode_pairs(ls: LaneState, note: bool, now: u64, delay: int, key: u16)
    ensures
        ({
            let e = pass_events(ls, LanePass::Active { note, now, delay, hold: false, key });
            ||| e.len() == 0
            ||| e == seq![KeyAction { key, down: false }]
            ||| e == seq![KeyAction { key, down: true }, KeyAction { key, down: false }]
        }),
{
}

} // verus!
