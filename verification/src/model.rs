use vstd::prelude::*;

verus! {

/// A screen position whose pixel brightness signals a note on its lane.
#[derive(Clone, Copy, Debug, PartialEq, Eq)]
pub struct HitPoint {
    pub x: i32,
    pub y: i32,
    pub color: [u8; 3],
}

impl HitPoint {
    /// A hit point at `(x, y)`, drawn in red.
    pub fn new(x: i32, y: i32) -> (p: Self)
        ensures
            p.x == x,
            p.y == y,
            p.color@ == seq![255u8, 0u8, 0u8],
    {
        Self { x, y, color: [255, 0, 0] }
    }
}

/// The hit points of the four lanes, as sequences.
pub open spec fn lanes_view(lanes: [Vec<HitPoint>; 4]) -> Seq<Seq<HitPoint>> {
    lanes@.map_values(|v: Vec<HitPoint>| v@)
}

/// Copies the hit points of the four lanes.
pub fn clone_lanes(lanes: &[Vec<HitPoint>; 4]) -> (copy: [Vec<HitPoint>; 4])
    ensures
        lanes_view(copy) == lanes_view(*lanes),
{
    let a = lanes[0].clone();
    let b = lanes[1].clone();
    let c = lanes[2].clone();
    let d = lanes[3].clone();
    assert(a@ =~= lanes@[0]@);
    assert(b@ =~= lanes@[1]@);
    assert(c@ =~= lanes@[2]@);
    assert(d@ =~= lanes@[3]@);
    let copy = [a, b, c, d];
    assert(lanes_view(copy) =~= lanes_view(*lanes));
    copy
}

/// What a saved configuration holds: everything the user sets.
pub struct Settings {
    pub lanes: Seq<Seq<HitPoint>>,
    pub keys: Seq<u16>,
    pub enabled: bool,
    pub show_hit_points: bool,
    pub hold_notes: bool,
    pub roblox_check: bool,
    pub threshold: u8,
    pub scan_interval: u32,
    pub click_delay: u32,
}

/// The whole shared state: the user's settings and whether the game window
/// was last seen in the foreground.
pub struct SharedModel {
    pub settings: Settings,
    pub on_roblox: bool,
}

/// The state shared by the bot, the overlay and the editor.
pub struct Shared {
    pub lanes: [Vec<HitPoint>; 4],
    pub keys: [u16; 4],
    pub enabled: bool,
    pub show_hit_points: bool,
    pub hold_notes: bool,
    pub roblox_check: bool,
    pub on_roblox: bool,
    pub threshold: u8,
    pub scan_interval: u32,
    pub click_delay: u32,
}

/// The default key of each lane: Z, X, period and slash.
pub open spec fn default_keys() -> Seq<u16> {
    seq![0x5Au16, 0x58u16, 0xBEu16, 0xBFu16]
}

impl Shared {
    pub open spec fn view(&self) -> SharedModel {
        SharedModel {
            settings: Settings {
                lanes: lanes_view(self.lanes),
                keys: self.keys@,
                enabled: self.enabled,
                show_hit_points: self.show_hit_points,
                hold_notes: self.hold_notes,
                roblox_check: self.roblox_check,
                threshold: self.threshold,
                scan_interval: self.scan_interval,
                click_delay: self.click_delay,
            },
            on_roblox: self.on_roblox,
        }
    }

    /// The start-up state: one hit point per lane at height 600, spaced
    /// 150 apart from x = 200; keys Z X . /; disabled; hit points shown;
    /// long notes held; game check on; threshold 160; scan every 2 ms;
    /// no click delay.
    pub fn new() -> (s: Self)
        ensures
            s.lanes@.len() == 4,
            forall|i: int|
                0 <= i < 4 ==> {
                    &&& (#[trigger] s.lanes@[i])@.len() == 1
                    &&& s.lanes@[i]@[0].x == 200 + 150 * i
                    &&& s.lanes@[i]@[0].y == 600
                    &&& s.lanes@[i]@[0].color@ == seq![255u8, 0u8, 0u8]
                },
            s.keys@ == default_keys(),
            !s.enabled,
            s.show_hit_points,
            s.hold_notes,
            s.roblox_check,
            !s.on_roblox,
            s.threshold == 160,
            s.scan_interval == 2,
            s.click_delay == 0,
    {
        let s = Self {
            lanes: [
                vec![HitPoint::new(200, 600)],
                vec![HitPoint::new(350, 600)],
                vec![HitPoint::new(500, 600)],
                vec![HitPoint::new(650, 600)],
            ],
            keys: [0x5A, 0x58, 0xBE, 0xBF],
            enabled: false,
            show_hit_points: true,
            hold_notes: true,
            roblox_check: true,
            on_roblox: false,
            threshold: 160,
            scan_interval: 2,
            click_delay: 0,
        };
        assert(s.keys@ =~= default_keys());
        s
    }
}

/// The part of the shared state that is saved to and loaded from a file.
pub struct Config {
    pub lanes: [Vec<HitPoint>; 4],
    pub keys: [u16; 4],
    pub enabled: bool,
    pub show_hit_points: bool,
    pub hold_notes: bool,
    pub roblox_check: bool,
    pub threshold: u8,
    pub scan_interval: u32,
    pub click_delay: u32,
}

/// The shared state with its settings replaced by `c`.
pub open spec fn with_settings(s: SharedModel, c: Settings) -> SharedModel {
    SharedModel { settings: c, on_roblox: s.on_roblox }
}

impl Config {
    pub open spec fn view(&self) -> Settings {
        Settings {
            lanes: lanes_view(self.lanes),
            keys: self.keys@,
            enabled: self.enabled,
            show_hit_points: self.show_hit_points,
            hold_notes: self.hold_notes,
            roblox_check: self.roblox_check,
            threshold: self.threshold,
            scan_interval: self.scan_interval,
            click_delay: self.click_delay,
        }
    }

    /// The settings of `state`, to be saved.
    pub fn get(state: &Shared) -> (c: Self)
        ensures
            c.view() == state.view().settings,
    {
        let c = Self {
            lanes: clone_lanes(&state.lanes),
            keys: state.keys,
            enabled: state.enabled,
            show_hit_points: state.show_hit_points,
            hold_notes: state.hold_notes,
            roblox_check: state.roblox_check,
            threshold: state.threshold,
            scan_interval: state.scan_interval,
            click_delay: state.click_delay,
        };
        c
    }

    /// Loads these settings into `state`; whether the game window is in
    /// the foreground is left as it was.
    pub fn set(&self, state: &mut Shared)
        ensures
            final(state).view() == with_settings(old(state).view(), self.view()),
    {
        state.lanes = clone_lanes(&self.lanes);
        state.keys = self.keys;
        state.enabled = self.enabled;
        state.show_hit_points = self.show_hit_points;
        state.hold_notes = self.hold_notes;
        state.roblox_check = self.roblox_check;
        state.threshold = self.threshold;
        state.scan_interval = self.scan_interval;
        state.click_delay = self.click_delay;
    }
}

/// Loading a configuration and saving it again gives back that configuration.
pub proof fn lemma_load_then_save(s: SharedModel, c: Settings)
    ensures
        with_settings(s, c).settings == c,
{
}

/// Saving the configuration of a state and loading it back into the same
/// state changes nothing.
pub proof fn lemma_save_then_load(s: SharedModel)
    ensures
        with_settings(s, s.settings) == s,
{
}

/// Of two loads, the later one decides the settings; neither touches the
/// game-window flag.
pub proof fn lemma_load_twice(s: SharedModel, c1: Settings, c2: Settings)
    ensures
        with_settings(with_settings(s, c1), c2) == with_settings(s, c2),
        with_settings(s, c1).on_roblox == s.on_roblox,
{
}

} // verus!
