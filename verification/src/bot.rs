use vstd::prelude::*;

use crate::model::{clone_lanes, lanes_view, HitPoint, Shared};

verus! {

/// How long, in nanoseconds, a foreground-window check stays fresh.
pub const ROBLOX_CHECK_PERIOD_NS: u64 = 200_000_000;

/// How long, in milliseconds, the bot sleeps between passes while inactive.
pub const IDLE_SLEEP_MS: u64 = 5;

/// What the bot remembers about one lane between passes.
#[derive(Clone, Copy, Debug, PartialEq, Eq)]
pub struct LaneState {
    /// The bot holds the lane's key down.
    pub key_down: bool,
    /// The current note was already tapped (press and release), so it is
    /// not pressed again until it has passed.
    pub clicked: bool,
    /// When the current note was first seen, in nanoseconds on the caller's
    /// monotonic clock.
    pub detected_at: Option<u64>,
}

/// A key event for the operating system: press (`down`) or release.
#[derive(Clone, Copy, Debug, PartialEq, Eq)]
pub struct KeyAction {
    pub key: u16,
    pub down: bool,
}

/// What the caller does before the next pass.
#[derive(Clone, Copy, Debug, PartialEq, Eq)]
pub enum Pause {
    /// Sleep this many milliseconds.
    Sleep(u64),
    /// Give up the rest of the time slice.
    Yield,
}

/// A lane's state never claims both a tap and a held key, and a held key
/// or a tap always belongs to a seen note.
pub open spec fn lane_ok(ls: LaneState) -> bool {
    &&& ls.clicked ==> !ls.key_down && ls.detected_at is None
    &&& ls.key_down ==> ls.detected_at is Some
}

/// Time from `since` to `now`, zero if `now` is earlier.
pub open spec fn elapsed(since: u64, now: u64) -> int {
    if now >= since {
        now - since
    } else {
        0
    }
}

/// The click delay, in nanoseconds.
pub open spec fn delay_ns(click_delay: u32) -> int {
    click_delay * 1_000_000
}

/// The released, untapped, unseen lane.
pub open spec fn lane_reset() -> LaneState {
    LaneState { key_down: false, clicked: false, detected_at: None }
}

/// The next state of a lane after one pass, given whether a note is under
/// its hit points: a new note is timestamped; once the delay has passed the
/// key is pressed, and in tap mode (`!hold`) released at once; when the note
/// is gone everything is reset.
pub open spec fn lane_next(ls: LaneState, note: bool, now: u64, delay: int, hold: bool) -> LaneState {
    if note && !ls.key_down && !ls.clicked {
        match ls.detected_at {
            None => LaneState { detected_at: Some(now), ..ls },
            Some(t) => if elapsed(t, now) >= delay {
                if hold {
                    LaneState { key_down: true, ..ls }
                } else {
                    LaneState { key_down: false, clicked: true, detected_at: None }
                }
            } else {
                ls
            },
        }
    } else if !note {
        lane_reset()
    } else {
        ls
    }
}

/// The key events of a lane in one pass, in order.
pub open spec fn lane_actions(
    ls: LaneState,
    note: bool,
    now: u64,
    delay: int,
    hold: bool,
    key: u16,
) -> Seq<KeyAction> {
    if note && !ls.key_down && !ls.clicked {
        match ls.detected_at {
            None => seq![],
            Some(t) => if elapsed(t, now) >= delay {
                if hold {
                    seq![KeyAction { key, down: true }]
                } else {
                    seq![KeyAction { key, down: true }, KeyAction { key, down: false }]
                }
            } else {
                seq![]
            },
        }
    } else if !note && ls.key_down {
        seq![KeyAction { key, down: false }]
    } else {
        seq![]
    }
}

/// Replaying `actions` from key state `down` presses only released keys and
/// releases only pressed ones, and ends in key state `end`.
pub open spec fn replays(down: bool, actions: Seq<KeyAction>, end: bool) -> bool
    decreases actions.len(),
{
    if actions.len() == 0 {
        down == end
    } else {
        actions[0].down != down && replays(actions[0].down, actions.drop_first(), end)
    }
}

/// One pass over one lane: its next state and the key events to send, as
/// `lane_next` and `lane_actions` say.
pub fn lane_step(ls: LaneState, note: bool, now: u64, delay: u64, hold: bool, key: u16) -> (r: (
    LaneState,
    Vec<KeyAction>,
))
    ensures
        r.0 == lane_next(ls, note, now, delay as int, hold),
        r.1@ == lane_actions(ls, note, now, delay as int, hold, key),
{
    let mut actions: Vec<KeyAction> = Vec::new();
    if note && !ls.key_down && !ls.clicked {
        match ls.detected_at {
            None => (LaneState { key_down: ls.key_down, clicked: ls.clicked, detected_at: Some(now) }, actions),
            Some(t) => {
                let waited: u64 = if now >= t {
                    now - t
                } else {
                    0
                };
                if waited >= delay {
                    actions.push(KeyAction { key, down: true });
                    if hold {
                        (LaneState { key_down: true, clicked: ls.clicked, detected_at: ls.detected_at }, actions)
                    } else {
                        actions.push(KeyAction { key, down: false });
                        assert(actions@ =~= seq![KeyAction { key, down: true }, KeyAction { key, down: false }]);
                        (LaneState { key_down: false, clicked: true, detected_at: None }, actions)
                    }
                } else {
                    (ls, actions)
                }
            },
        }
    } else if !note {
        if ls.key_down {
            actions.push(KeyAction { key, down: false });
        }
        (LaneState { key_down: false, clicked: false, detected_at: None }, actions)
    } else {
        (ls, actions)
    }
}

/// A pass keeps every lane well formed.
pub proof fn lemma_lane_step_keeps_lane_ok(ls: LaneState, note: bool, now: u64, delay: int, hold: bool)
    requires
        lane_ok(ls),
    ensures
        lane_ok(lane_next(ls, note, now, delay, hold)),
{
}

/// The bot never presses a key it holds nor releases a key it does not
/// hold, and what it sends leaves the key in the state it records.
pub proof fn lemma_actions_replay(ls: LaneState, note: bool, now: u64, delay: int, hold: bool, key: u16)
    requires
        lane_ok(ls),
    ensures
        replays(
            ls.key_down,
            lane_actions(ls, note, now, delay, hold, key),
            lane_next(ls, note, now, delay, hold).key_down,
        ),
{
    reveal_with_fuel(replays, 3);
    let a = lane_actions(ls, note, now, delay, hold, key);
    if a.len() == 2 {
        assert(a.drop_first() =~= seq![a[1]]);
        assert(a.drop_first().drop_first() =~= Seq::<KeyAction>::empty());
    } else if a.len() == 1 {
        assert(a.drop_first() =~= Seq::<KeyAction>::empty());
    }
}

/// When no note is under a lane, its key ends up released and the lane is
/// ready for the next note.
pub proof fn lemma_no_note_releases(ls: LaneState, now: u64, delay: int, hold: bool)
    ensures
        lane_next(ls, false, now, delay, hold) == lane_reset(),
{
}

/// In tap mode a released key is never left held after a pass.
pub proof fn lemma_tap_mode_never_holds(ls: LaneState, note: bool, now: u64, delay: int)
    requires
        !ls.key_down,
    ensures
        !lane_next(ls, note, now, delay, false).key_down,
{
}

/// A press is sent only for a note that has been seen for at least the
/// click delay, on a lane whose key is up and whose note was not tapped.
pub proof fn lemma_press_waits_for_delay(
    ls: LaneState,
    note: bool,
    now: u64,
    delay: int,
    hold: bool,
    key: u16,
    k: int,
)
    requires
        0 <= k < lane_actions(ls, note, now, delay, hold, key).len(),
        lane_actions(ls, note, now, delay, hold, key)[k].down,
    ensures
        note,
        !ls.key_down,
        !ls.clicked,
        ls.detected_at is Some,
        elapsed(ls.detected_at->0, now) >= delay,
{
}

/// A tapped note is not pressed again while it stays under the lane.
pub proof fn lemma_one_tap_per_note(ls: LaneState, now: u64, delay: int, hold: bool, key: u16)
    requires
        ls.clicked,
    ensures
        lane_actions(ls, true, now, delay, hold, key).len() == 0,
        lane_next(ls, true, now, delay, hold) == ls,
{
}

/// The click delay is counted in whole milliseconds: `c` ms wait
/// `c * 1_000_000` ns, each further millisecond waits 1_000_000 ns more, and
/// no delay waits nothing.
pub proof fn lemma_delay_in_milliseconds(c: u32)
    ensures
        delay_ns(c) == c * 1_000_000,
        delay_ns(0) == 0,
        c < u32::MAX ==> delay_ns((c + 1) as u32) == delay_ns(c) + 1_000_000,
{
}

/// In a pass of the bot, a lane's key is pressed only once its note has
/// been seen for at least the click delay in milliseconds: `c` ms is
/// `c * 1_000_000` ns on the caller's clock.
pub proof fn lemma_press_waits_click_delay(
    ls: LaneState,
    note: bool,
    now: u64,
    click_delay: u32,
    hold: bool,
    key: u16,
    k: int,
)
    requires
        0 <= k < lane_actions(ls, note, now, delay_ns(click_delay), hold, key).len(),
        lane_actions(ls, note, now, delay_ns(click_delay), hold, key)[k].down,
    ensures
        ls.detected_at is Some,
        now >= ls.detected_at->0 ==> now - ls.detected_at->0 >= click_delay * 1_000_000,
        now < ls.detected_at->0 ==> click_delay == 0,
{
}

/// What a pass does in each situation of a lane: a first sighting of a
/// note records the time and sends nothing; a note seen for at least the
/// delay on a released, untapped lane is pressed (and held, or tapped in
/// tap mode); a held key whose note is gone is released; a note seen for
/// less than the delay waits.
pub proof fn lemma_lane_reactions(ls: LaneState, now: u64, delay: int, hold: bool, key: u16)
    requires
        lane_ok(ls),
    ensures
        !ls.key_down && !ls.clicked && ls.detected_at is None ==> {
            &&& lane_next(ls, true, now, delay, hold).detected_at == Some(now)
            &&& !lane_next(ls, true, now, delay, hold).key_down
            &&& lane_actions(ls, true, now, delay, hold, key).len() == 0
        },
        !ls.key_down && !ls.clicked && ls.detected_at is Some && elapsed(ls.detected_at->0, now) >= delay ==> {
            &&& lane_actions(ls, true, now, delay, hold, key).len() >= 1
            &&& lane_actions(ls, true, now, delay, hold, key)[0] == (KeyAction { key, down: true })
            &&& hold ==> lane_next(ls, true, now, delay, hold).key_down
            &&& !hold ==> lane_actions(ls, true, now, delay, hold, key) == seq![
                KeyAction { key, down: true },
                KeyAction { key, down: false },
            ] && lane_next(ls, true, now, delay, hold).clicked
        },
        !ls.key_down && !ls.clicked && ls.detected_at is Some && elapsed(ls.detected_at->0, now) < delay ==> {
            &&& lane_actions(ls, true, now, delay, hold, key).len() == 0
            &&& lane_next(ls, true, now, delay, hold) == ls
        },
        ls.key_down ==> lane_actions(ls, false, now, delay, hold, key) == seq![KeyAction { key, down: false }],
        !ls.key_down ==> lane_actions(ls, false, now, delay, hold, key).len() == 0,
{
}

/// The bot's view: lane states, game-window tracking, pass counter and the
/// settings copied from the shared state.
pub struct BotModel {
    pub lane_states: Seq<LaneState>,
    pub on_roblox: bool,
    pub roblox_checked_at: u64,
    pub iteration: u32,
    pub enabled: bool,
    pub roblox_only: bool,
    pub threshold: u8,
    pub lanes: Seq<Seq<HitPoint>>,
    pub keys: Seq<u16>,
    pub scan_interval: u32,
    pub click_delay: u32,
    pub hold_notes: bool,
}

/// The key events of lanes `0..n` in one pass, lane by lane.
pub open spec fn pass_actions(m: BotModel, brightness: Seq<u8>, now: u64, n: nat) -> Seq<KeyAction>
    decreases n,
{
    if n == 0 {
        seq![]
    } else {
        pass_actions(m, brightness, now, (n - 1) as nat) + lane_actions(
            m.lane_states[n - 1],
            brightness[n - 1] > m.threshold,
            now,
            delay_ns(m.click_delay),
            m.hold_notes,
            m.keys[n - 1],
        )
    }
}

/// The releases sent for the held keys of lanes `0..n`, lane by lane.
pub open spec fn release_actions(m: BotModel, n: nat) -> Seq<KeyAction>
    decreases n,
{
    if n == 0 {
        seq![]
    } else {
        release_actions(m, (n - 1) as nat) + if m.lane_states[n - 1].key_down {
            seq![KeyAction { key: m.keys[n - 1], down: false }]
        } else {
            seq![]
        }
    }
}

/// The bot decides, pass by pass, which keys to press and release; the
/// caller captures the screen, sends the key events and sleeps.
pub struct Bot {
    lane_states: [LaneState; 4],
    on_roblox: bool,
    roblox_checked_at: u64,
    iteration: u32,
    enabled: bool,
    roblox_only: bool,
    threshold: u8,
    lanes: [Vec<HitPoint>; 4],
    keys: [u16; 4],
    scan_interval: u32,
    click_delay: u32,
    hold_notes: bool,
}

impl Bot {
    #[verifier::type_invariant]
    spec fn lanes_well_formed(self) -> bool {
        forall|i: int| 0 <= i < 4 ==> lane_ok(#[trigger] self.lane_states@[i])
    }

    pub closed spec fn view(&self) -> BotModel {
        BotModel {
            lane_states: self.lane_states@,
            on_roblox: self.on_roblox,
            roblox_checked_at: self.roblox_checked_at,
            iteration: self.iteration,
            enabled: self.enabled,
            roblox_only: self.roblox_only,
            threshold: self.threshold,
            lanes: lanes_view(self.lanes),
            keys: self.keys@,
            scan_interval: self.scan_interval,
            click_delay: self.click_delay,
            hold_notes: self.hold_notes,
        }
    }

    /// The bot at start-up, at time `now`: no key held, nothing seen,
    /// disabled until the first read of the settings, game check on,
    /// threshold 160, keys Z X . /, no hit points, scan every 2 ms, no click
    /// delay, long notes held.
    pub fn new(now: u64) -> (b: Self)
        ensures
            b.view().lane_states == seq![lane_reset(), lane_reset(), lane_reset(), lane_reset()],
            !b.view().on_roblox,
            b.view().roblox_checked_at == now,
            b.view().iteration == 0,
            !b.view().enabled,
            b.view().roblox_only,
            b.view().threshold == 160,
            b.view().lanes == seq![Seq::<HitPoint>::empty(), Seq::empty(), Seq::empty(), Seq::empty()],
            b.view().keys == crate::model::default_keys(),
            b.view().scan_interval == 2,
            b.view().click_delay == 0,
            b.view().hold_notes,
    {
        let r = LaneState { key_down: false, clicked: false, detected_at: None };
        let b = Bot {
            lane_states: [r, r, r, r],
            on_roblox: false,
            roblox_checked_at: now,
            iteration: 0,
            enabled: false,
            roblox_only: true,
            threshold: 160,
            lanes: [Vec::new(), Vec::new(), Vec::new(), Vec::new()],
            keys: [0x5A, 0x58, 0xBE, 0xBF],
            scan_interval: 2,
            click_delay: 0,
            hold_notes: true,
        };
        assert(b.view().lane_states =~= seq![lane_reset(), lane_reset(), lane_reset(), lane_reset()]);
        assert(b.view().lanes =~= seq![Seq::<HitPoint>::empty(), Seq::empty(), Seq::empty(), Seq::empty()]);
        assert(b.view().keys =~= crate::model::default_keys());
        b
    }

    /// Starts a pass: counts it (wrapping) and says whether this pass reads
    /// the settings, which is every 64th.
    pub fn begin_pass(&mut self) -> (read_settings: bool)
        ensures
            final(self).view() == (BotModel {
                iteration: (if old(self).view().iteration == u32::MAX {
                    0
                } else {
                    old(self).view().iteration + 1
                }) as u32,
                ..old(self).view()
            }),
            read_settings == (final(self).view().iteration % 64 == 0),
    {
        proof {
            use_type_invariant(&*self);
        }
        self.iteration = self.iteration.wrapping_add(1);
        let it = self.iteration;
        assert(it & 63 == it % 64) by (bit_vector);
        self.iteration & 63 == 0
    }

    /// Copies the settings from the shared state.
    pub fn sync(&mut self, state: &Shared)
        ensures
            final(self).view() == (BotModel {
                enabled: state.enabled,
                hold_notes: state.hold_notes,
                roblox_only: state.roblox_check,
                threshold: state.threshold,
                scan_interval: state.scan_interval,
                click_delay: state.click_delay,
                keys: state.keys@,
                lanes: lanes_view(state.lanes),
                ..old(self).view()
            }),
    {
        proof {
            use_type_invariant(&*self);
        }
        self.enabled = state.enabled;
        self.hold_notes = state.hold_notes;
        self.roblox_only = state.roblox_check;
        self.threshold = state.threshold;
        self.scan_interval = state.scan_interval;
        self.click_delay = state.click_delay;
        self.keys = state.keys;
        self.lanes = clone_lanes(&state.lanes);
    }

    /// Whether the foreground window should be checked again at `now`: more
    /// than 200 ms have passed since the last check.
    pub fn roblox_check_due(&self, now: u64) -> (due: bool)
        ensures
            due == (elapsed(self.view().roblox_checked_at, now) > ROBLOX_CHECK_PERIOD_NS),
    {
        let waited: u64 = if now >= self.roblox_checked_at {
            now - self.roblox_checked_at
        } else {
            0
        };
        waited > ROBLOX_CHECK_PERIOD_NS
    }

    /// Records the result of a foreground-window check made at `now`.
    pub fn record_roblox(&mut self, on_roblox: bool, now: u64)
        ensures
            final(self).view() == (BotModel { on_roblox, roblox_checked_at: now, ..old(self).view() }),
    {
        proof {
            use_type_invariant(&*self);
        }
        self.on_roblox = on_roblox;
        self.roblox_checked_at = now;
    }

    /// Whether the game window was last seen in the foreground.
    pub fn on_roblox(&self) -> (on: bool)
        ensures
            on == self.view().on_roblox,
    {
        self.on_roblox
    }

    /// Whether the bot plays this pass: it is enabled, and the game window
    /// is in the foreground or that check is off.
    pub fn is_active(&self) -> (active: bool)
        ensures
            active == (self.view().enabled && !(self.view().roblox_only && !self.view().on_roblox)),
    {
        self.enabled && !(self.roblox_only && !self.on_roblox)
    }

    /// The hit points whose brightness the caller measures.
    pub fn lanes(&self) -> (lanes: &[Vec<HitPoint>; 4])
        ensures
            lanes_view(*lanes) == self.view().lanes,
    {
        &self.lanes
    }

    /// The state of lane `lane`.
    pub fn lane_state(&self, lane: usize) -> (ls: LaneState)
        requires
            lane < 4,
        ensures
            ls == self.view().lane_states[lane as int],
            lane_ok(ls),
    {
        proof {
            use_type_invariant(self);
        }
        self.lane_states[lane]
    }

    /// The pass of an inactive bot: every held key is released, in lane
    /// order, and no lane keeps a tapped note; when each note was seen is
    /// kept.
    pub fn release_all(&mut self) -> (actions: Vec<KeyAction>)
        ensures
            actions@ == release_actions(old(self).view(), 4),
            forall|i: int|
                0 <= i < 4 ==> #[trigger] final(self).view().lane_states[i] == (LaneState {
                    key_down: false,
                    clicked: false,
                    detected_at: old(self).view().lane_states[i].detected_at,
                }),
            final(self).view() == (BotModel {
                lane_states: final(self).view().lane_states,
                ..old(self).view()
            }),
            forall|i: int| 0 <= i < 4 ==> lane_ok(#[trigger] final(self).view().lane_states[i]),
    {
        proof {
            use_type_invariant(&*self);
        }
        let ghost m = self.view();
        let mut states = self.lane_states;
        let mut actions: Vec<KeyAction> = Vec::new();
        for i in 0..4
            invariant
                m == old(self).view(),
                self.view() == m,
                actions@ == release_actions(m, i as nat),
                forall|j: int|
                    0 <= j < i ==> #[trigger] states@[j] == (LaneState {
                        key_down: false,
                        clicked: false,
                        detected_at: m.lane_states[j].detected_at,
                    }),
                forall|j: int| i <= j < 4 ==> #[trigger] states@[j] == m.lane_states[j],
        {
            let ls = states[i];
            if ls.key_down {
                actions.push(KeyAction { key: self.keys[i], down: false });
            }
            states[i] = LaneState { key_down: false, clicked: false, detected_at: ls.detected_at };
            assert(release_actions(m, (i + 1) as nat) == release_actions(m, i as nat) + (if m.lane_states[i as int].key_down {
                seq![KeyAction { key: m.keys[i as int], down: false }]
            } else {
                seq![]
            }));
        }
        self.lane_states = states;
        actions
    }

    /// The pass of an active bot, given the brightness under each lane at
    /// time `now`: each lane sees a note when its brightness is above the
    /// threshold and steps as `lane_next` says; the key events come lane by
    /// lane.
    pub fn react(&mut self, brightness: [u8; 4], now: u64) -> (actions: Vec<KeyAction>)
        ensures
            actions@ == pass_actions(old(self).view(), brightness@, now, 4),
            forall|i: int|
                0 <= i < 4 ==> #[trigger] final(self).view().lane_states[i] == lane_next(
                    old(self).view().lane_states[i],
                    brightness@[i] > old(self).view().threshold,
                    now,
                    delay_ns(old(self).view().click_delay),
                    old(self).view().hold_notes,
                ),
            final(self).view() == (BotModel {
                lane_states: final(self).view().lane_states,
                ..old(self).view()
            }),
            forall|i: int| 0 <= i < 4 ==> lane_ok(#[trigger] final(self).view().lane_states[i]),
    {
        proof {
            use_type_invariant(&*self);
        }
        let ghost m = self.view();
        let delay: u64 = self.click_delay as u64 * 1_000_000;
        let mut states = self.lane_states;
        let mut actions: Vec<KeyAction> = Vec::new();
        for i in 0..4
            invariant
                m == old(self).view(),
                self.view() == m,
                delay == delay_ns(m.click_delay),
                actions@ == pass_actions(m, brightness@, now, i as nat),
                forall|j: int|
                    0 <= j < i ==> #[trigger] states@[j] == lane_next(
                        m.lane_states[j],
                        brightness@[j] > m.threshold,
                        now,
                        delay as int,
                        m.hold_notes,
                    ),
                forall|j: int| i <= j < 4 ==> #[trigger] states@[j] == m.lane_states[j],
                forall|j: int| 0 <= j < 4 ==> lane_ok(#[trigger] states@[j]),
        {
            let note = brightness[i] > self.threshold;
            let (next, mut lane_events) = lane_step(states[i], note, now, delay, self.hold_notes, self.keys[i]);
            proof {
                lemma_lane_step_keeps_lane_ok(states@[i as int], note, now, delay as int, m.hold_notes);
            }
            actions.append(&mut lane_events);
            states[i] = next;
        }
        self.lane_states = states;
        actions
    }

    /// What to do before the next pass of an active bot: sleep the scan
    /// interval, or yield when it is zero.
    pub fn scan_pause(&self) -> (p: Pause)
        ensures
            p == (if self.view().scan_interval > 0 {
                Pause::Sleep(self.view().scan_interval as u64)
            } else {
                Pause::Yield
            }),
    {
        if self.scan_interval > 0 {
            Pause::Sleep(self.scan_interval as u64)
        } else {
            Pause::Yield
        }
    }
}

/// What to do before the next pass of an inactive bot: sleep 5 ms.
pub fn idle_pause() -> (p: Pause)
    ensures
        p == Pause::Sleep(IDLE_SLEEP_MS),
{
    Pause::Sleep(IDLE_SLEEP_MS)
}

} // verus!
