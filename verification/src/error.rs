use vstd::prelude::*;
use vstd::string::StringExecFns;
use crate::operations::keyframes::Role;
use crate::util::text::{decimal, decimal_text, micros, micros_text};
use crate::util::Timestamp;

verus! {

/// Everything that can go wrong between a request and its output file.
#[derive(Debug, PartialEq, Eq)]
pub enum CutError {
    /// The probing tool exited with the code in `exit`, or, where `exit` is
    /// `None`, printed something that cannot be read; `detail` holds the tool's
    /// diagnostics or the text that could not be read.
    ProbeFailure { exit: Option<u8>, detail: String },
    /// The keyframe sequence has no keyframe on the side of `target` that the
    /// search for `role` needs.
    NoBracketingKeyframe { role: Role, target: Option<Timestamp> },
    /// The copying or transcoding tool exited with `code`.
    ExternalToolFailure { code: u8, stderr: String },
    /// The joining tool exited with `code`.
    ConcatFailure { code: u8 },
    /// A span starts after its end, or a match does not lie between its own
    /// keyframes.
    InvalidSpan,
}

impl CutError {
    /// What went wrong, in words for the user. The diagnostics of an outside
    /// tool are handed on as they came.
    pub open spec fn message_text(self) -> Seq<char> {
        match self {
            CutError::ProbeFailure { exit: Some(code), detail } => "ffprobe exited with code "@
                + decimal_text(code as nat) + ": \n"@ + detail@,
            CutError::ProbeFailure { exit: None, detail } => "Could not read what ffprobe printed: "@
                + detail@,
            CutError::NoBracketingKeyframe { role: Role::Start, target: Some(t) } =>
                "Could not find start keyframe "@ + micros_text(t),
            CutError::NoBracketingKeyframe { role: Role::End, target: Some(t) } =>
                "Could not find end keyframe "@ + micros_text(t),
            CutError::NoBracketingKeyframe { role: _, target: None } => "Could not find any keyframe"@,
            CutError::ExternalToolFailure { code, stderr } => "ffmpeg command failed with code: "@
                + decimal_text(code as nat) + "\n"@ + stderr@,
            CutError::ConcatFailure { code } => "ffmpeg command failed with code: "@ + decimal_text(
                code as nat,
            ),
            CutError::InvalidSpan => "The span starts after its end"@,
        }
    }

    /// Writes what went wrong.
    pub fn message(&self) -> (r: String)
        ensures
            r@ == self.message_text(),
    {
        match self {
            CutError::ProbeFailure { exit: Some(code), detail } => {
                let mut r = String::from_str("ffprobe exited with code ");
                r.append(decimal(*code as u128).as_str());
                r.append(": \n");
                r.append(detail.as_str());
                r
            },
            CutError::ProbeFailure { exit: None, detail } => {
                let mut r = String::from_str("Could not read what ffprobe printed: ");
                r.append(detail.as_str());
                r
            },
            CutError::NoBracketingKeyframe { role: Role::Start, target: Some(t) } => {
                let mut r = String::from_str("Could not find start keyframe ");
                r.append(micros(*t).as_str());
                r
            },
            CutError::NoBracketingKeyframe { role: Role::End, target: Some(t) } => {
                let mut r = String::from_str("Could not find end keyframe ");
                r.append(micros(*t).as_str());
                r
            },
            CutError::NoBracketingKeyframe { role: _, target: None } => String::from_str(
                "Could not find any keyframe",
            ),
            CutError::ExternalToolFailure { code, stderr } => {
                let mut r = String::from_str("ffmpeg command failed with code: ");
                r.append(decimal(*code as u128).as_str());
                r.append("\n");
                r.append(stderr.as_str());
                r
            },
            CutError::ConcatFailure { code } => {
                let mut r = String::from_str("ffmpeg command failed with code: ");
                r.append(decimal(*code as u128).as_str());
                r
            },
            CutError::InvalidSpan => String::from_str("The span starts after its end"),
        }
    }
}

/// The failure of a probe that ended with `code` and the diagnostics
/// `stderr`.
pub open spec fn probe_exit(code: u8, stderr: Seq<char>, e: CutError) -> bool {
    e matches CutError::ProbeFailure { exit, detail } && exit == Some(code) && detail@ == stderr
}

/// The failure of a probe that printed `detail`, which cannot be read.
pub open spec fn unreadable(detail: Seq<char>, e: CutError) -> bool {
    e matches CutError::ProbeFailure { exit, detail: d } && exit is None && d@ == detail
}

} // verus!
