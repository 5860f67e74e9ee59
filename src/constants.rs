//! Display geometry and game rules.
use vstd::prelude::*;

verus! {

/// Display width in pixels.
pub const DISPLAY_WIDTH: u16 = 480;

/// Display height in pixels.
pub const DISPLAY_HEIGHT: u16 = 272;

/// Width and height of the mute button in the lower left corner.
pub const SILENT_BTN_SIZE: u16 = 40;

/// Width and height of every target.
pub const TARGET_SIZE: u16 = 50;

/// Element width of the small seven-segment displays (score and countdown).
pub const ELEMENT_WIDTH_SMALL: u16 = 12;

/// Gap between digits of the small seven-segment displays.
pub const ELEMENT_GAP_SMALL: u16 = 3;

/// Element width of the large seven-segment displays of the game-over screen.
pub const ELEMENT_WIDTH_BIG: u16 = 24;

/// Gap between digits of the large seven-segment displays.
pub const ELEMENT_GAP_BIG: u16 = 3;

/// Ratio of a segment's length to a digit's element width.
pub const HEIGHT_TO_WIDTH_SCALING: u16 = 2;

/// Extra space around the "HS-" prefix of the highscore display.
pub const HS_SPACE_SIZE: u16 = 6;

/// Colours of the score display.
pub const RED: u16 = 0xFC00;

pub const GREEN: u16 = 0x83E0;

pub const BLACK: u16 = 0x8000;

/// Length of a round, in countdown steps.
pub const GAME_TIME: u16 = 30;

/// Ticks between two countdown steps.
pub const COUNTDOWN_STEP: u64 = 1000;

/// Number of evil targets kept on screen.
pub const MAX_EVIL_TARGETS: usize = 4;

/// Number of hero targets kept on screen.
pub const MAX_HERO_TARGETS: usize = 6;

/// Penalty for hitting a hero target.
pub const HERO_POINTS: u16 = 70;

/// Reward for hitting an evil target.
pub const EVIL_POINTS: u16 = 50;

/// Reward for hitting a super-evil target.
pub const SUPER_EVIL_POINTS: u16 = 100;

/// Lifetime of a super-evil target.
pub const SUPER_EVIL_LIFETIME: u64 = 2000;

/// Bounds of the lifetime drawn for an ordinary target.
pub const LIFETIME_MIN: u64 = 3000;

pub const LIFETIME_MAX: u64 = 5000;

/// Bounds of the hiding duration drawn for the super-evil target.
pub const SUPER_HIDING_MIN: u64 = 5000;

pub const SUPER_HIDING_MAX: u64 = 10000;

/// Microphone magnitude above which a shot counts.
pub const VOLUME_THRESHOLD: u16 = 2000;

/// Candidate positions drawn before placement gives up.
pub const MAX_PLACEMENT_ATTEMPTS: u32 = 1000;

} // verus!
