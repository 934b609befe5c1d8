use vstd::prelude::*;
use crate::error::{probe_exit, unreadable, CutError};
use crate::json::{
    json_document, json_member, member, member_text, parse_document, read_member_text,
};
use crate::tool::{ToolCommand, ToolCommandView, ToolOutput};
use crate::util::extensions::{exit_of, CommandOutputExt};
use crate::util::seconds::{parse_seconds, timestamp_of};

pub mod extensions;
pub mod lines;
pub mod seconds;
pub mod text;

verus! {

/// A point inside a media stream: microseconds since the start of the stream.
pub type Timestamp = u128;

/// A requested stretch of a stream. `None` at the start stands for the
/// beginning of the stream, `None` at the end for its end.
pub type Span = (Option<Timestamp>, Option<Timestamp>);

/// The run of the probing tool that describes the container of `path` as a
/// JSON document.
pub open spec fn length_probe_of(path: Seq<char>) -> ToolCommandView {
    ToolCommandView {
        program: "ffprobe"@,
        args: seq!["-loglevel"@, "error"@, "-of"@, "json"@, "-i"@, path, "-show_format"@],
    }
}

/// The run of the probing tool that measures `path`.
pub fn length_probe(path: &str) -> (r: ToolCommand)
    ensures
        r@ == length_probe_of(path@),
{
    let mut command = ToolCommand::new("ffprobe");
    command.arg("-loglevel");
    command.arg("error");
    command.arg("-of");
    command.arg("json");
    command.arg("-i");
    command.arg(path);
    command.arg("-show_format");
    assert(command@.args =~= length_probe_of(path@).args);
    command
}

/// The duration that the probing tool reported in the JSON document
/// `stdout`: the document has a member `format`, and that a member
/// `duration`, a string. Anything else is `None`.
pub open spec fn duration_text(stdout: Seq<char>) -> Option<Seq<char>> {
    match json_document(stdout) {
        None => None,
        Some(document) => match json_member(document, "format"@) {
            None => None,
            Some(format) => member_text(format, "duration"@),
        },
    }
}

/// `r` is what the output of the probing tool for the length comes to: the
/// tool's failure with its code and diagnostics; for a document without a
/// duration, the failure that reports the whole output as unreadable; for a
/// duration that stands for no timestamp, the failure that reports it; else
/// the duration.
pub open spec fn is_length_of_probe(output: ToolOutput, r: Result<Timestamp, CutError>) -> bool {
    match exit_of(output.code) {
        Err(code) => r matches Err(e) && probe_exit(code, output.stderr@, e),
        Ok(()) => match duration_text(output.stdout@) {
            None => r matches Err(e) && unreadable(output.stdout@, e),
            Some(duration) => is_length_of(duration, r),
        },
    }
}

/// `r` is what the text of a duration comes to.
pub open spec fn is_length_of(duration: Seq<char>, r: Result<Timestamp, CutError>) -> bool {
    match timestamp_of(duration) {
        Some(length) => r == Ok::<Timestamp, CutError>(length),
        None => r matches Err(e) && unreadable(duration, e),
    }
}

/// Reads the length of a stream out of the duration that the probing tool
/// printed.
pub fn length_from_duration(duration: &str) -> (r: Result<Timestamp, CutError>)
    ensures
        is_length_of(duration@, r),
{
    match parse_seconds(duration) {
        Some(length) => Ok(length),
        None => Err(CutError::ProbeFailure { exit: None, detail: duration.to_owned() }),
    }
}

/// Reads the length of a stream out of the output of the probing tool.
pub fn get_file_length(output: &ToolOutput) -> (r: Result<Timestamp, CutError>)
    ensures
        is_length_of_probe(*output, r),
{
    match output.to_exitcode() {
        Err(code) => Err(
            CutError::ProbeFailure { exit: Some(code), detail: output.stderr.clone() },
        ),
        Ok(()) => {
            let unread = Err(
                CutError::ProbeFailure { exit: None, detail: output.stdout.clone() },
            );
            let document = match parse_document(output.stdout.as_str()) {
                Ok(document) => document,
                Err(_) => {
                    return unread;
                },
            };
            let format = match member(&document, "format") {
                Some(format) => format,
                None => {
                    return unread;
                },
            };
            match read_member_text(format, "duration") {
                Some(duration) => length_from_duration(duration),
                None => unread,
            }
        },
    }
}

} // verus!
