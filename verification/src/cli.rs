use vstd::prelude::*;
use vstd::string::StringExecFns;
use crate::operations::concat::{concat_command, concat_files, listing_of, manifest_of, ConcatJob};
use crate::operations::split::{
    halves, parts, request_views, split_at, split_every, RequestView, SegmentRequest,
};
use crate::tool::texts;
use crate::util::extensions::{prefixed, PathExt};
use crate::util::Timestamp;

verus! {

/// Extract a specific part of the video into a new file.
#[derive(Debug, PartialEq, Eq)]
pub struct CutArgs {
    /// Input file
    pub input: String,
    /// Start time of the segment
    pub start_time: Timestamp,
    /// End time of the segment
    pub end_time: Timestamp,
    /// File to output to (if not specified default prefix will be added to source name)
    pub output: Option<String>,
}

/// Merge several files together in sequence.
#[derive(Debug, PartialEq, Eq)]
pub struct SequenceArgs {
    /// Output file
    pub output: String,
    /// Input files to merge together in order of appearance
    pub input: Vec<String>,
}

/// Split video file at specific point, or interval.
#[derive(Debug, PartialEq, Eq)]
pub struct SplitArgs {
    /// Use time as interval to cut the video into equal parts
    pub interval: bool,
    /// File to operate on
    pub source: String,
    /// Time to split at
    pub time: Timestamp,
    /// File to name the outputs after (if not specified they are named after the source)
    pub output: Option<String>,
}

/// Probe file to see information about, useful to check keyframe frequency.
#[derive(Debug, PartialEq, Eq)]
pub struct ProbeArgs {
    /// Print only keyframes (the output can be very long)
    pub keyframes: bool,
    /// File to probe
    pub input: String,
}

/// What the program is asked to do.
#[derive(Debug, PartialEq, Eq)]
pub enum CliCommands {
    /// Chain together multiple commands delimited by ';'
    Chain { args: Vec<String> },
    /// Extract a specific part of the video into a new file
    Cut(CutArgs),
    /// Merge several files together in sequence
    Sequence(SequenceArgs),
    /// Split video file at specific point, or interval
    Split(SplitArgs),
    /// Probe file to see information about, useful to check keyframe frequency
    Probe(ProbeArgs),
}

/// The command line, once it is read.
#[derive(Debug, PartialEq, Eq)]
pub struct Cli {
    pub cmd: CliCommands,
}

/// What a command comes to.
#[derive(Debug, PartialEq, Eq)]
pub enum Action {
    /// Extract each span, in order.
    Extract(Vec<SegmentRequest>),
    /// Join files.
    Concat(ConcatJob),
    /// Probe a file and print what was found.
    Probe(ProbeArgs),
}

/// The command lines of a chain: `current` is the command line that is
/// being read, `rest` what is still to come. A semicolon alone ends a
/// command line, and the next begins with the name of the program.
pub open spec fn chain_from(
    current: Seq<Seq<char>>,
    rest: Seq<Seq<char>>,
    argv0: Seq<char>,
) -> Seq<Seq<Seq<char>>>
    decreases rest.len(),
{
    if rest.len() == 0 {
        seq![current]
    } else if rest.first() == ";"@ {
        seq![current] + chain_from(seq![argv0], rest.drop_first(), argv0)
    } else {
        chain_from(current.push(rest.first()), rest.drop_first(), argv0)
    }
}

/// The command lines of the chain `args`, each with the name of the program
/// in front.
pub open spec fn chain_of(args: Seq<Seq<char>>, argv0: Seq<char>) -> Seq<Seq<Seq<char>>> {
    chain_from(seq![argv0], args, argv0)
}

/// The views of a sequence of command lines.
pub open spec fn line_texts(lines: Seq<Vec<String>>) -> Seq<Seq<Seq<char>>> {
    Seq::new(lines.len(), |i: int| texts(lines[i]@))
}

/// Splits the arguments of a chain into command lines.
pub fn chain_commands(args: &[String], argv0: &str) -> (r: Vec<Vec<String>>)
    ensures
        line_texts(r@) == chain_of(texts(args@), argv0@),
{
    let mut lines: Vec<Vec<String>> = Vec::new();
    let mut current: Vec<String> = Vec::new();
    current.push(String::from_str(argv0));
    let separator = String::from_str(";");
    let mut i: usize = 0;
    proof {
        assert(texts(args@).skip(0) =~= texts(args@));
        assert(texts(current@) =~= seq![argv0@]);
        assert(line_texts(lines@) + chain_of(texts(args@), argv0@) =~= chain_of(
            texts(args@),
            argv0@,
        ));
    }
    while i < args.len()
        invariant
            i <= args.len(),
            separator@ == ";"@,
            chain_of(texts(args@), argv0@) == line_texts(lines@) + chain_from(
                texts(current@),
                texts(args@).skip(i as int),
                argv0@,
            ),
        decreases args.len() - i,
    {
        let ghost rest = texts(args@).skip(i as int);
        let ghost done = line_texts(lines@);
        let ghost line = texts(current@);
        proof {
            assert(rest.first() == args@[i as int]@);
            assert(rest.drop_first() =~= texts(args@).skip(i + 1));
        }
        if args[i] == separator {
            lines.push(current);
            current = Vec::new();
            current.push(String::from_str(argv0));
            proof {
                assert(texts(current@) =~= seq![argv0@]);
                assert(line_texts(lines@) =~= done + seq![line]);
                assert(done + (seq![line] + chain_from(seq![argv0@], rest.drop_first(), argv0@))
                    =~= (done + seq![line]) + chain_from(seq![argv0@], rest.drop_first(), argv0@));
            }
        } else {
            current.push(args[i].clone());
            proof {
                assert(texts(current@) =~= line.push(rest.first()));
            }
        }
        i += 1;
    }
    let ghost done = line_texts(lines@);
    let ghost line = texts(current@);
    proof {
        assert(texts(args@).skip(args.len() as int).len() == 0);
    }
    lines.push(current);
    proof {
        assert(line_texts(lines@) =~= done + seq![line]);
    }
    lines
}

impl Cli {
    /// Whether the command needs the length of its source before it can be
    /// handled: a split into parts of one interval each does.
    pub open spec fn wants_length(self) -> bool {
        self.cmd matches CliCommands::Split(args) && args.interval
    }

    /// Whether the command can be handled: a chain is split into its
    /// command lines first, and an interval lasts some time.
    pub open spec fn can_be_handled(self) -> bool {
        match self.cmd {
            CliCommands::Chain { args: _ } => false,
            CliCommands::Split(args) => args.interval ==> args.time > 0,
            _ => true,
        }
    }

    /// The source whose length the command needs, where it needs one.
    pub fn length_source(&self) -> (r: Option<&str>)
        ensures
            r is Some == self.wants_length(),
            r matches Some(source) ==> self.cmd matches CliCommands::Split(args) && source@
                == args.source@,
    {
        match &self.cmd {
            CliCommands::Split(args) => if args.interval {
                Some(args.source.as_str())
            } else {
                None
            },
            _ => None,
        }
    }

    /// Whether the command can be handled.
    pub fn is_handled(&self) -> (r: bool)
        ensures
            r == self.can_be_handled(),
    {
        match &self.cmd {
            CliCommands::Chain { args: _ } => false,
            CliCommands::Split(args) => !args.interval || args.time > 0,
            _ => true,
        }
    }
}

/// `action` is what the command `cmd` comes to, for a source of the length
/// `file_length`: a cut is one extraction, a split several, a sequence a
/// joining of its inputs, and a probe stays a probe.
pub open spec fn is_action_of(cmd: Cli, file_length: Timestamp, action: Action) -> bool {
    match cmd.cmd {
        CliCommands::Chain { args: _ } => false,
        CliCommands::Cut(args) => action matches Action::Extract(requests) && request_views(
            requests@,
        ) == seq![args.request_view()],
        CliCommands::Split(args) => action matches Action::Extract(requests) && request_views(
            requests@,
        ) == args.request_views(file_length),
        CliCommands::Sequence(args) => {
            &&& action matches Action::Concat(job)
            &&& job.manifest@ == manifest_of(args.output@)
            &&& job.listing@ == listing_of(texts(args.input@))
            &&& job.command@ == concat_command(manifest_of(args.output@), args.output@)
        },
        CliCommands::Probe(args) => action matches Action::Probe(same) && same == args,
    }
}

/// Decides what a command comes to. The length of the source counts only
/// where the command needs it.
pub fn handle_command(cmd: Cli, file_length: Timestamp) -> (r: Action)
    requires
        cmd.can_be_handled(),
    ensures
        is_action_of(cmd, file_length, r),
{
    match cmd.cmd {
        CliCommands::Chain { args: _ } => vstd::pervasive::unreached(),
        CliCommands::Cut(args) => {
            let mut requests: Vec<SegmentRequest> = Vec::new();
            requests.push(args.request());
            assert(request_views(requests@) =~= seq![args.request_view()]);
            Action::Extract(requests)
        },
        CliCommands::Split(args) => Action::Extract(args.requests(file_length)),
        CliCommands::Sequence(args) => Action::Concat(args.job()),
        CliCommands::Probe(args) => Action::Probe(args),
    }
}

impl CutArgs {
    /// The extraction that is asked for: from the start time to the end time
    /// of the input, into the output or, without one, into a file beside the
    /// input with the prefix `cut.`.
    pub open spec fn request_view(self) -> RequestView {
        RequestView {
            source: self.input@,
            dest: match self.output {
                Some(output) => output@,
                None => prefixed(self.input@, "cut."@),
            },
            span: (Some(self.start_time), Some(self.end_time)),
        }
    }

    /// The extraction that is asked for.
    pub fn request(&self) -> (r: SegmentRequest)
        ensures
            r@ == self.request_view(),
    {
        let dest = match &self.output {
            Some(output) => output.clone(),
            None => self.input.with_prefix("cut."),
        };
        SegmentRequest {
            source: self.input.clone(),
            dest,
            span: (Some(self.start_time), Some(self.end_time)),
        }
    }
}

impl SplitArgs {
    /// The file that the outputs are named after.
    pub open spec fn format(self) -> Seq<char> {
        match self.output {
            Some(output) => output@,
            None => self.source@,
        }
    }

    /// The extractions that are asked for, for a source of the length
    /// `file_length`: its parts of one interval each, or its two halves
    /// around the time.
    pub open spec fn request_views(self, file_length: Timestamp) -> Seq<RequestView> {
        if self.interval {
            parts(self.source@, self.format(), self.time, file_length)
        } else {
            halves(self.source@, self.format(), self.time)
        }
    }

    /// The extractions that are asked for. The length of the source counts
    /// only where the time is an interval.
    pub fn requests(&self, file_length: Timestamp) -> (r: Vec<SegmentRequest>)
        requires
            self.interval ==> self.time > 0,
        ensures
            request_views(r@) == self.request_views(file_length),
    {
        let format: &str = match &self.output {
            Some(output) => output.as_str(),
            None => self.source.as_str(),
        };
        if self.interval {
            split_every(self.source.as_str(), format, self.time, file_length)
        } else {
            split_at(self.source.as_str(), format, self.time)
        }
    }
}

impl SequenceArgs {
    /// The joining of the inputs, in their order, into the output.
    pub fn job(&self) -> (r: ConcatJob)
        ensures
            r.manifest@ == manifest_of(self.output@),
            r.listing@ == listing_of(texts(self.input@)),
            r.command@ == concat_command(manifest_of(self.output@), self.output@),
    {
        concat_files(self.input.as_slice(), self.output.as_str())
    }
}

} // verus!
