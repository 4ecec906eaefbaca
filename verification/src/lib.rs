//! Decision logic of a rhythm-game key presser: hit points on four lanes,
//! the per-lane press/release state machine, key-code naming, the overlay
//! marks, and the configuration that the editor saves and loads.

pub mod bot;
pub mod edit;
pub mod gui;
pub mod keys;
pub mod model;
pub mod overlay;
pub mod runs;
pub mod screen;
pub mod title;

pub use bot::{
    idle_pause, lane_step, Bot, KeyAction, LaneState, Pause, IDLE_SLEEP_MS,
    ROBLOX_CHECK_PERIOD_NS,
};
pub use model::{clone_lanes, Config, HitPoint, Shared};
pub use keys::{get_char_code, get_code_name, get_egui_code, Key};
pub use edit::{
    add_hit_point, apply_linked_drag, can_remove, check_drag_fits, check_frame, end_frame,
    remove_hit_point,
};
pub use gui::{roblox_indicator, select_keybind, GuiState, Indicator, InputEvent};
pub use screen::{
    capture_region, get_brightnesses, lane_brightness, pixel_brightness, region_fits, Region,
    INVALID_PIXEL,
};
pub use overlay::{
    crosshair, crosshair_fits, mark_color, overlay_marks, Mark, Segment, MARK_GAP, MARK_LEN,
    OVERLAY_KEY_COLOR,
};
pub use title::{contains_text, is_roblox_title};
