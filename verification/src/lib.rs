//! Keyframe-aligned editing of media files.
//!
//! The library decides; it never touches a file or a process. A caller probes
//! a file with an outside tool, hands the tool's output to the library, gets a
//! plan back, runs the steps of the plan in order and joins the pieces.

pub mod cli;
pub mod commands;
pub mod error;
pub mod fragment;
pub mod json;
pub mod operations;
pub mod tool;
pub mod util;
pub mod video;

pub use error::CutError;
pub use fragment::{evaluate, MediaFragment};
pub use operations::concat::concat_files;
pub use operations::cut::{extract_segment, plan, ExtractionPlan, PlanStep, StepKind};
pub use operations::keyframes::{
    find_closest_keyframes, get_keyframes, match_point, KeyframeMatch, Role,
};
pub use operations::split::{split_at, split_every};
pub use util::{get_file_length, Span, Timestamp};
