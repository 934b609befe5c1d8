use vstd::prelude::*;
use vstd::string::StringExecFns;
use crate::error::CutError;
use crate::tool::{texts, ToolCommand, ToolCommandView};
use crate::util::extensions::{path_with_extension, with_extension_of, CommandExit};

verus! {

/// Everything needed to join files into one: the list to write, where to
/// write it, and the run of the joining tool that reads it.
#[derive(Debug, PartialEq, Eq)]
pub struct ConcatJob {
    /// The path of the list; it is scratch and is removed after the run.
    pub manifest: String,
    /// The text of the list.
    pub listing: String,
    /// The run of the joining tool.
    pub command: ToolCommand,
}

/// The list that the joining tool reads: one line for each file, in order.
pub open spec fn listing_of(files: Seq<Seq<char>>) -> Seq<char>
    decreases files.len(),
{
    if files.len() == 0 {
        Seq::empty()
    } else {
        listing_of(files.drop_last()) + "file '"@ + files.last() + "'\n"@
    }
}

/// Where the list for the result `dest` is written: beside it, with the
/// extension `txt`.
pub open spec fn manifest_of(dest: Seq<char>) -> Seq<char> {
    with_extension_of(dest, "txt"@)
}

/// The run of the joining tool that joins the files of the list `manifest`
/// into `dest`: streams are copied, nothing is encoded again, an output that
/// exists is overwritten without a question, only errors are printed.
pub open spec fn concat_command(manifest: Seq<char>, dest: Seq<char>) -> ToolCommandView {
    ToolCommandView {
        program: "ffmpeg"@,
        args: seq![
            "-loglevel"@,
            "error"@,
            "-y"@,
            "-f"@,
            "concat"@,
            "-i"@,
            manifest,
            "-c"@,
            "copy"@,
            dest,
        ],
    }
}

/// Prepares the joining of `files`, in their order, into `dest`.
pub fn concat_files(files: &[String], dest: &str) -> (r: ConcatJob)
    ensures
        r.manifest@ == manifest_of(dest@),
        r.listing@ == listing_of(texts(files@)),
        r.command@ == concat_command(manifest_of(dest@), dest@),
{
    proof {
        reveal_strlit("txt");
    }
    let manifest = path_with_extension(dest, "txt");
    let mut listing = String::new();
    let mut i: usize = 0;
    while i < files.len()
        invariant
            i <= files.len(),
            listing@ == listing_of(texts(files@).take(i as int)),
        decreases files.len() - i,
    {
        listing.append("file '");
        listing.append(files[i].as_str());
        listing.append("'\n");
        proof {
            let next = texts(files@).take(i + 1);
            assert(next.drop_last() =~= texts(files@).take(i as int));
            assert(next.last() == files@[i as int]@);
        }
        i += 1;
    }
    proof {
        assert(texts(files@).take(files.len() as int) =~= texts(files@));
    }
    let mut command = ToolCommand::new("ffmpeg");
    command.arg("-loglevel");
    command.arg("error");
    command.arg("-y");
    command.arg("-f");
    command.arg("concat");
    command.arg("-i");
    command.arg(manifest.as_str());
    command.arg("-c");
    command.arg("copy");
    command.arg(dest);
    assert(command@.args =~= concat_command(manifest_of(dest@), dest@).args);
    ConcatJob { manifest, listing, command }
}

/// What the exit of the joining tool means.
pub fn concat_outcome(exit: CommandExit) -> (r: Result<(), CutError>)
    ensures
        r == match exit {
            Ok(()) => Ok::<(), CutError>(()),
            Err(code) => Err::<(), CutError>(CutError::ConcatFailure { code }),
        },
{
    match exit {
        Ok(()) => Ok(()),
        Err(code) => Err(CutError::ConcatFailure { code }),
    }
}

} // verus!
