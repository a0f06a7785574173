//! Search for better movement scripts by randomised local changes.
//!
//! A movement script is a list of lines. Most are frame bulks: runs of frames
//! that share their settings. The search changes a copy of the script at
//! random, has it simulated, and keeps the copy when its trajectory is better,
//! or worse but favoured by chance. Simulating and judging are the caller's
//! part; this library decides everything else, and proves what it decides.
//!
//! - [`types`] and [`script`]: the script, and the splitting of frame bulks
//!   at a frame without losing or gaining a frame.
//! - [`agreement`]: when two scripts ask the same of the simulation up to
//!   some frame.
//! - [`random`] and [`mutation`]: the random changes to one frame or to one
//!   frame bulk, and the first frame each may affect.
//! - [`editor`]: the script under search with its simulated history, local
//!   and remote.
//! - [`minimizer`]: dropping what a finished script does not need.
//! - [`tracking`]: why the minimized script moves the player as the script
//!   did.

pub mod agreement;
pub mod editor;
pub mod minimizer;
pub mod mutation;
pub mod random;
pub mod script;
pub mod tracking;
pub mod types;
