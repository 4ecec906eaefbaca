use vstd::prelude::*;
use vstd::string::StrSliceExecFns;
use vstd::string::StringExecFns;

use crate::keys::{char_code, egui_code, get_char_code, get_code_name, get_egui_code, code_name, Key};

verus! {

/// An input event of the editor window, as far as key binding reads it.
pub enum InputEvent {
    /// A key went down (`pressed`) or up.
    Key { key: Key, pressed: bool },
    /// Text was typed.
    Text(String),
    /// Anything else.
    Other,
}

/// What one event says about a pending key binding: `Some(None)` cancels
/// it (Escape), `Some(Some(code))` binds `code`, `None` says nothing.
pub open spec fn event_choice(e: InputEvent) -> Option<Option<u16>> {
    match e {
        InputEvent::Key { key, pressed } => if !pressed {
            None
        } else if key == Key::Escape {
            Some(None)
        } else {
            match egui_code(key) {
                Some(code) => Some(Some(code)),
                None => None,
            }
        },
        InputEvent::Text(text) => if text@.len() > 0 {
            match char_code(text@[0]) {
                Some(code) => Some(Some(code)),
                None => None,
            }
        } else {
            None
        },
        InputEvent::Other => None,
    }
}

/// The first event of `events` that says something about a pending key
/// binding decides it.
pub open spec fn keybind_choice(events: Seq<InputEvent>) -> Option<Option<u16>>
    decreases events.len(),
{
    if events.len() == 0 {
        None
    } else {
        match event_choice(events[0]) {
            Some(choice) => Some(choice),
            None => keybind_choice(events.drop_first()),
        }
    }
}

fn choice_of(e: &InputEvent) -> (c: Option<Option<u16>>)
    ensures
        c == event_choice(*e),
{
    match e {
        InputEvent::Key { key, pressed } => {
            if !*pressed {
                None
            } else if matches!(key, Key::Escape) {
                Some(None)
            } else {
                match get_egui_code(*key) {
                    Some(code) => Some(Some(code)),
                    None => None,
                }
            }
        },
        InputEvent::Text(text) => {
            let t = text.as_str();
            if t.unicode_len() > 0 {
                match get_char_code(t.get_char(0)) {
                    Some(code) => Some(Some(code)),
                    None => None,
                }
            } else {
                None
            }
        },
        InputEvent::Other => None,
    }
}

/// What a frame's input events say about a pending key binding, as
/// `keybind_choice` says.
pub fn select_keybind(events: &Vec<InputEvent>) -> (choice: Option<Option<u16>>)
    ensures
        choice == keybind_choice(events@),
{
    let mut i: usize = 0;
    assert(events@.subrange(0, events@.len() as int) =~= events@);
    while i < events.len()
        invariant
            i <= events@.len(),
            keybind_choice(events@) == keybind_choice(events@.subrange(i as int, events@.len() as int)),
        decreases events@.len() - i,
    {
        let ghost rest = events@.subrange(i as int, events@.len() as int);
        assert(rest[0] == events@[i as int]);
        assert(rest.drop_first() =~= events@.subrange(i + 1, events@.len() as int));
        let c = choice_of(&events[i]);
        if c.is_some() {
            return c;
        }
        i = i + 1;
    }
    assert(events@.subrange(i as int, events@.len() as int).len() == 0);
    None
}

/// The colour of the dot that shows the game-window check.
#[derive(Clone, Copy, Debug, PartialEq, Eq)]
pub enum Indicator {
    /// The game window is in the foreground.
    Green,
    /// The game window is not in the foreground.
    Red,
}

/// The dot shown beside the game-window check: none while the check is
/// off, else green when the game window is in the foreground and red when
/// it is not.
pub fn roblox_indicator(roblox_check: bool, on_roblox: bool) -> (dot: Option<Indicator>)
    ensures
        dot == (if !roblox_check {
            None
        } else if on_roblox {
            Some(Indicator::Green)
        } else {
            Some(Indicator::Red)
        }),
{
    if roblox_check && on_roblox {
        Some(Indicator::Green)
    } else if roblox_check {
        Some(Indicator::Red)
    } else {
        None
    }
}

/// The editor's own state: which lanes move together when a hit point is
/// dragged, and which lane, if any, waits for a new key.
pub struct GuiState {
    linked: [bool; 4],
    lane: Option<usize>,
}

impl GuiState {
    #[verifier::type_invariant]
    spec fn lane_in_range(self) -> bool {
        self.lane matches Some(l) ==> l < 4
    }

    /// Which lanes move together.
    pub closed spec fn linked_view(&self) -> Seq<bool> {
        self.linked@
    }

    /// The lane waiting for a new key, if any.
    pub closed spec fn pending(&self) -> Option<usize> {
        self.lane
    }

    /// The editor at start-up: all lanes linked, no key being bound.
    pub fn new() -> (g: Self)
        ensures
            g.linked_view() == seq![true, true, true, true],
            g.pending() is None,
    {
        let g = GuiState { linked: [true; 4], lane: None };
        assert(g.linked_view() =~= seq![true, true, true, true]);
        g
    }

    /// The lane waiting for a new key, if any; it is always below 4.
    pub fn pending_lane(&self) -> (lane: Option<usize>)
        ensures
            lane == self.pending(),
            lane matches Some(l) ==> l < 4,
    {
        proof {
            use_type_invariant(self);
        }
        self.lane
    }

    /// Whether lane `lane` moves with the others.
    pub fn is_linked(&self, lane: usize) -> (linked: bool)
        requires
            lane < 4,
        ensures
            linked == self.linked_view()[lane as int],
    {
        self.linked[lane]
    }

    /// All four link flags.
    pub fn linked(&self) -> (linked: [bool; 4])
        ensures
            linked@ == self.linked_view(),
    {
        self.linked
    }

    /// Links or unlinks lane `lane`.
    pub fn set_linked(&mut self, lane: usize, linked: bool)
        requires
            lane < 4,
        ensures
            final(self).linked_view() == old(self).linked_view().update(lane as int, linked),
            final(self).pending() == old(self).pending(),
    {
        proof {
            use_type_invariant(&*self);
        }
        self.linked[lane] = linked;
    }

    /// The key button of lane `lane` was clicked: that lane waits for a new
    /// key, unless another lane already does.
    pub fn request_keybind(&mut self, lane: usize)
        requires
            lane < 4,
        ensures
            final(self).pending() == (if old(self).pending() is None {
                Some(lane)
            } else {
                old(self).pending()
            }),
            final(self).linked_view() == old(self).linked_view(),
    {
        proof {
            use_type_invariant(&*self);
        }
        if self.lane.is_none() {
            self.lane = Some(lane);
        }
    }

    /// The text on the key button of lane `lane`: "..." while it waits for
    /// a key, else the name of its key.
    pub fn key_label(&self, lane: usize, keys: &[u16; 4]) -> (label: String)
        requires
            lane < 4,
        ensures
            label@ == (if self.pending() == Some(lane) {
                seq!['.', '.', '.']
            } else {
                code_name(keys@[lane as int])
            }),
    {
        let waiting = match self.lane {
            Some(l) => l == lane,
            None => false,
        };
        if waiting {
            let s = String::from_str("...");
            proof {
                reveal_strlit("...");
            }
            s
        } else {
            get_code_name(keys[lane])
        }
    }

    /// Applies a frame's input events to a pending key binding: the first
    /// event that decides (see `keybind_choice`) either binds its key to
    /// the waiting lane or, for Escape, cancels; either way the lane stops
    /// waiting. Without a waiting lane nothing changes.
    pub fn on_set_keybind(&mut self, keys: &mut [u16; 4], events: &Vec<InputEvent>)
        ensures
            final(self).linked_view() == old(self).linked_view(),
            match old(self).pending() {
                None => final(self).pending() is None && final(keys)@ == old(keys)@,
                Some(lane) => match keybind_choice(events@) {
                    Some(Some(code)) => final(self).pending() is None && final(keys)@ == old(
                        keys,
                    )@.update(lane as int, code),
                    Some(None) => final(self).pending() is None && final(keys)@ == old(keys)@,
                    None => final(self).pending() == old(self).pending() && final(keys)@ == old(
                        keys,
                    )@,
                },
            },
    {
        proof {
            use_type_invariant(&*self);
        }
        let lane = match self.lane {
            Some(l) => l,
            None => {
                return;
            },
        };
        match select_keybind(events) {
            Some(Some(code)) => {
                keys[lane] = code;
                self.lane = None;
            },
            Some(None) => {
                self.lane = None;
            },
            None => {},
        }
    }
}

/// Events that decide nothing are skipped: the first deciding event of a
/// frame decides, whatever follows it.
pub proof fn lemma_first_deciding_event_wins(a: Seq<InputEvent>, b: Seq<InputEvent>)
    ensures
        (forall|i: int| 0 <= i < a.len() ==> #[trigger] event_choice(a[i]) is None) ==> keybind_choice(a + b)
            == keybind_choice(b),
        a.len() > 0 && event_choice(a[0]) is Some ==> keybind_choice(a + b) == event_choice(a[0]),
    decreases a.len(),
{
    if a.len() > 0 {
        assert((a + b)[0] == a[0]);
        assert((a + b).drop_first() =~= a.drop_first() + b);
        if forall|i: int| 0 <= i < a.len() ==> #[trigger] event_choice(a[i]) is None {
            assert(event_choice(a[0]) is None);
            assert forall|i: int| 0 <= i < a.drop_first().len() implies #[trigger] event_choice(a.drop_first()[i])
                is None by {
                assert(a.drop_first()[i] == a[i + 1]);
            }
        }
        lemma_first_deciding_event_wins(a.drop_first(), b);
    } else {
        assert(a + b =~= b);
    }
}

/// What single events decide: Escape cancels; a released key, other input
/// and empty text decide nothing; a pressed bindable key binds its code;
/// typed text binds the code of its first character, if it has one.
pub proof fn lemma_event_meanings(key: Key, text: String)
    ensures
        event_choice(InputEvent::Key { key: Key::Escape, pressed: true }) == Some(None::<u16>),
        event_choice(InputEvent::Key { key, pressed: false }) is None,
        event_choice(InputEvent::Other) is None,
        key != Key::Escape ==> event_choice(InputEvent::Key { key, pressed: true }) == match egui_code(key) {
            Some(code) => Some(Some(code)),
            None => None,
        },
        text@.len() == 0 ==> event_choice(InputEvent::Text(text)) is None,
        text@.len() > 0 ==> event_choice(InputEvent::Text(text)) == match char_code(text@[0]) {
            Some(code) => Some(Some(code)),
            None => None,
        },
{
}

} // verus!
