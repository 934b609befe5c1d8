use vstd::prelude::*;
use vstd::string::StringExecFns;
use crate::error::CutError;
use crate::operations::keyframes::{match_of, match_point, KeyframeMatch, Role};
use crate::operations::concat::{concat_command, concat_files, listing_of, manifest_of, ConcatJob};
use crate::tool::{texts, ToolCommand, ToolCommandView, ToolOutput};
use crate::util::extensions::{exit_of, CommandOutputExt};
use crate::util::text::{micros, micros_text};
use crate::util::extensions::{prefixed, PathExt};
use crate::util::{Span, Timestamp};

verus! {

/// What a step does to the stretch it reads.
#[derive(Debug, Clone, Copy, PartialEq, Eq, Structural)]
pub enum StepKind {
    /// Copies from keyframe to keyframe; nothing is encoded again.
    AlignedCopy,
    /// Encodes again, so that the stretch may begin and end anywhere.
    UnalignedTranscode,
}

/// One run of the copying tool: read `span` of `source`, write it to `dest`.
/// Where `piece` is set, `dest` is a part of the result; else it is scratch
/// that a later step reads.
#[derive(Debug, PartialEq, Eq)]
pub struct PlanStep {
    pub kind: StepKind,
    pub source: String,
    pub dest: String,
    pub span: (Timestamp, Timestamp),
    pub piece: bool,
}

/// A `PlanStep` as plain values.
pub struct StepView {
    pub kind: StepKind,
    pub source: Seq<char>,
    pub dest: Seq<char>,
    pub span: (Timestamp, Timestamp),
    pub piece: bool,
}

impl View for PlanStep {
    type V = StepView;

    open spec fn view(&self) -> StepView {
        StepView {
            kind: self.kind,
            source: self.source@,
            dest: self.dest@,
            span: self.span,
            piece: self.piece,
        }
    }
}

/// The steps that extract one span, in the order in which they must run, and
/// the path of the result.
#[derive(Debug, PartialEq, Eq)]
pub struct ExtractionPlan {
    pub steps: Vec<PlanStep>,
    pub output: String,
}

/// The views of a sequence of steps.
pub open spec fn step_views(steps: Seq<PlanStep>) -> Seq<StepView> {
    Seq::new(steps.len(), |i: int| steps[i]@)
}

/// The end of the stream is known and lies after the boundary keyframe that
/// an open end was matched to: what follows that keyframe belongs to the
/// span, and no keyframe closes it.
pub open spec fn falls_short(end: KeyframeMatch, stream_end: Option<Timestamp>) -> bool {
    match (end, stream_end) {
        (KeyframeMatch::Boundary(k), Some(len)) => k < len,
        _ => false,
    }
}

/// Where the span ends: at the target of the end match, or at the end of the
/// stream where the boundary falls short of it.
pub open spec fn end_target(end: KeyframeMatch, stream_end: Option<Timestamp>) -> Timestamp {
    match (end, stream_end) {
        (KeyframeMatch::Boundary(k), Some(len)) => if k < len {
            len
        } else {
            k
        },
        _ => end.target(),
    }
}

/// A copy from keyframe to keyframe.
pub open spec fn copy_step(
    source: Seq<char>,
    dest: Seq<char>,
    span: (Timestamp, Timestamp),
    piece: bool,
) -> StepView {
    StepView { kind: StepKind::AlignedCopy, source, dest, span, piece }
}

/// A transcode; its result is always a piece.
pub open spec fn transcode_step(
    source: Seq<char>,
    dest: Seq<char>,
    span: (Timestamp, Timestamp),
) -> StepView {
    StepView { kind: StepKind::UnalignedTranscode, source, dest, span, piece: true }
}

/// The steps for the head of a span that starts between two keyframes: copy
/// the stretch between them to scratch, then cut the scratch, whose time
/// starts at zero, from the target on.
pub open spec fn head_steps(source: Seq<char>, dest: Seq<char>, start: KeyframeMatch) -> Seq<
    StepView,
> {
    match start {
        KeyframeMatch::Between(before, t, after) => seq![
            copy_step(source, prefixed(dest, "head_extra."@), (before, after), false),
            transcode_step(
                prefixed(dest, "head_extra."@),
                prefixed(dest, "head."@),
                ((t - before) as Timestamp, (after - before) as Timestamp),
            ),
        ],
        _ => Seq::empty(),
    }
}

/// The steps for the tail of a span. An end between two keyframes is cut out
/// of a scratch copy of the stretch between them, up to the target. A
/// boundary that falls short of the end of the stream is followed by a
/// transcode of the source from the boundary keyframe to that end.
pub open spec fn tail_steps(
    source: Seq<char>,
    dest: Seq<char>,
    end: KeyframeMatch,
    stream_end: Option<Timestamp>,
) -> Seq<StepView> {
    match end {
        KeyframeMatch::Between(before, t, after) => seq![
            copy_step(source, prefixed(dest, "tail_extra."@), (before, after), false),
            transcode_step(
                prefixed(dest, "tail_extra."@),
                prefixed(dest, "tail."@),
                (0, (t - before) as Timestamp),
            ),
        ],
        KeyframeMatch::Boundary(k) => if falls_short(end, stream_end) {
            seq![transcode_step(source, prefixed(dest, "tail."@), (k, stream_end.unwrap()))]
        } else {
            Seq::empty()
        },
        KeyframeMatch::Exact(_) => Seq::empty(),
    }
}

/// The steps that extract the span between two matches from `source`.
///
/// - A match that does not lie between its own keyframes, or a start after
///   the end, is refused.
/// - Two aligned ends need one copy, from `source` straight to `dest`.
/// - Else, where the keyframe after the start is not after the keyframe
///   before the end: a head where the start is unaligned, a copy of the
///   middle between these two keyframes, and a tail where the end is
///   unaligned, each to a file named after `dest`.
/// - Else both ends lie between the same two keyframes: the stretch between
///   the outer keyframes is copied to scratch and the span is cut out of it,
///   straight to `dest`. A start keyframe after a boundary that falls short of
///   the end of the stream is refused.
pub open spec fn planned(
    source: Seq<char>,
    dest: Seq<char>,
    start: KeyframeMatch,
    end: KeyframeMatch,
    stream_end: Option<Timestamp>,
) -> Result<Seq<StepView>, CutError> {
    if !start.well_formed() || !end.well_formed() || start.target() > end_target(end, stream_end) {
        Err(CutError::InvalidSpan)
    } else if start.is_aligned() && end.is_aligned() && !falls_short(end, stream_end) {
        Ok(seq![copy_step(source, dest, (start.target(), end.target()), true)])
    } else if start.keyframe_after() <= end.keyframe_before() {
        Ok(
            head_steps(source, dest, start) + seq![
                copy_step(
                    source,
                    prefixed(dest, "mid."@),
                    (start.keyframe_after(), end.keyframe_before()),
                    true,
                ),
            ] + tail_steps(source, dest, end, stream_end),
        )
    } else if falls_short(end, stream_end) {
        Err(CutError::InvalidSpan)
    } else {
        Ok(
            seq![
                copy_step(
                    source,
                    prefixed(dest, "temp."@),
                    (start.keyframe_before(), end.keyframe_after()),
                    false,
                ),
                transcode_step(
                    prefixed(dest, "temp."@),
                    dest,
                    (
                        (start.target() - start.keyframe_before()) as Timestamp,
                        (end.target() - start.keyframe_before()) as Timestamp,
                    ),
                ),
            ],
        )
    }
}

fn new_step(
    kind: StepKind,
    source: &str,
    dest: String,
    span: (Timestamp, Timestamp),
    piece: bool,
) -> (r: PlanStep)
    ensures
        r@ == (StepView { kind, source: source@, dest: dest@, span, piece }),
{
    PlanStep { kind, source: String::from_str(source), dest, span, piece }
}

fn push_head(steps: &mut Vec<PlanStep>, source: &str, dest: &str, start: KeyframeMatch)
    requires
        start.well_formed(),
    ensures
        step_views(final(steps)@) == step_views(old(steps)@) + head_steps(source@, dest@, start),
{
    match start {
        KeyframeMatch::Between(before, t, after) => {
            let scratch = dest.with_prefix("head_extra.");
            let head = dest.with_prefix("head.");
            steps.push(new_step(StepKind::AlignedCopy, source, scratch.clone(), (before, after), false));
            steps.push(
                new_step(
                    StepKind::UnalignedTranscode,
                    scratch.as_str(),
                    head,
                    (t - before, after - before),
                    true,
                ),
            );
        },
        KeyframeMatch::Exact(_) => {},
        KeyframeMatch::Boundary(_) => {},
    }
    assert(step_views(steps@) =~= step_views(old(steps)@) + head_steps(source@, dest@, start));
}

fn push_tail(
    steps: &mut Vec<PlanStep>,
    source: &str,
    dest: &str,
    end: KeyframeMatch,
    stream_end: Option<Timestamp>,
)
    requires
        end.well_formed(),
    ensures
        step_views(final(steps)@) == step_views(old(steps)@) + tail_steps(
            source@,
            dest@,
            end,
            stream_end,
        ),
{
    match end {
        KeyframeMatch::Between(before, t, after) => {
            let scratch = dest.with_prefix("tail_extra.");
            let tail = dest.with_prefix("tail.");
            steps.push(new_step(StepKind::AlignedCopy, source, scratch.clone(), (before, after), false));
            steps.push(
                new_step(StepKind::UnalignedTranscode, scratch.as_str(), tail, (0, t - before), true),
            );
        },
        KeyframeMatch::Boundary(k) => match stream_end {
            Some(len) => if k < len {
                steps.push(
                    new_step(
                        StepKind::UnalignedTranscode,
                        source,
                        dest.with_prefix("tail."),
                        (k, len),
                        true,
                    ),
                );
            },
            None => {},
        },
        KeyframeMatch::Exact(_) => {},
    }
    assert(step_views(steps@) =~= step_views(old(steps)@) + tail_steps(
        source@,
        dest@,
        end,
        stream_end,
    ));
}

/// Plans the extraction of the span between two matches of one keyframe
/// sequence. `stream_end` is the end of the stream where the caller has
/// measured it.
pub fn plan(
    source: &str,
    dest: &str,
    start: KeyframeMatch,
    end: KeyframeMatch,
    stream_end: Option<Timestamp>,
) -> (r: Result<ExtractionPlan, CutError>)
    ensures
        match r {
            Ok(p) => planned(source@, dest@, start, end, stream_end) == Ok::<
                Seq<StepView>,
                CutError,
            >(step_views(p.steps@)) && p.output@ == dest@,
            Err(e) => planned(source@, dest@, start, end, stream_end) == Err::<
                Seq<StepView>,
                CutError,
            >(e),
        },
{
    // before, target, after, and whether the match lies between its keyframes
    let (start_before, start_target, start_after, start_between) = match start {
        KeyframeMatch::Exact(t) => (t, t, t, false),
        KeyframeMatch::Boundary(t) => (t, t, t, false),
        KeyframeMatch::Between(before, t, after) => (before, t, after, true),
    };
    let (end_before, end_at, end_after, end_between) = match end {
        KeyframeMatch::Exact(t) => (t, t, t, false),
        KeyframeMatch::Boundary(t) => (t, t, t, false),
        KeyframeMatch::Between(before, t, after) => (before, t, after, true),
    };
    // the end of the stream, where the boundary falls short of it
    let rest: Option<Timestamp> = match (end, stream_end) {
        (KeyframeMatch::Boundary(k), Some(len)) => if k < len {
            Some(len)
        } else {
            None
        },
        _ => None,
    };
    let finish: Timestamp = match rest {
        Some(len) => len,
        None => end_at,
    };
    if (start_between && !(start_before < start_target && start_target < start_after)) || (
    end_between && !(end_before < end_at && end_at < end_after)) || start_target > finish {
        return Err(CutError::InvalidSpan);
    }
    let ghost want = planned(source@, dest@, start, end, stream_end);
    assert(finish == end_target(end, stream_end));
    assert(rest.is_some() == falls_short(end, stream_end));
    let mut steps: Vec<PlanStep> = Vec::new();
    if !start_between && !end_between && rest.is_none() {
        steps.push(
            new_step(
                StepKind::AlignedCopy,
                source,
                String::from_str(dest),
                (start_target, end_at),
                true,
            ),
        );
    } else if start_after <= end_before {
        push_head(&mut steps, source, dest, start);
        steps.push(
            new_step(
                StepKind::AlignedCopy,
                source,
                dest.with_prefix("mid."),
                (start_after, end_before),
                true,
            ),
        );
        push_tail(&mut steps, source, dest, end, stream_end);
    } else if rest.is_some() {
        return Err(CutError::InvalidSpan);
    } else {
        let scratch = dest.with_prefix("temp.");
        steps.push(
            new_step(
                StepKind::AlignedCopy,
                source,
                scratch.clone(),
                (start_before, end_after),
                false,
            ),
        );
        steps.push(
            new_step(
                StepKind::UnalignedTranscode,
                scratch.as_str(),
                String::from_str(dest),
                (start_target - start_before, end_at - start_before),
                true,
            ),
        );
    }
    proof {
        assert(want is Ok);
        assert(step_views(steps@) =~= want.unwrap());
    }
    Ok(ExtractionPlan { steps, output: String::from_str(dest) })
}

/// The arguments that make the copying tool copy `span` of `source` to
/// `dest` from keyframe to keyframe: video and audio are copied, an output
/// that exists is overwritten without a question, only errors are printed.
pub open spec fn aligned_args(source: Seq<char>, dest: Seq<char>, span: (Timestamp, Timestamp)) -> Seq<
    Seq<char>,
> {
    seq![
        "-i"@,
        source,
        "-vcodec"@,
        "copy"@,
        "-loglevel"@,
        "error"@,
        "-y"@,
        "-acodec"@,
        "copy"@,
        "-ss"@,
        micros_text(span.0),
        "-to"@,
        micros_text(span.1),
        dest,
    ]
}

/// The arguments that make the copying tool encode `span` of `source` again
/// into `dest`: only the audio is copied.
pub open spec fn not_aligned_args(
    source: Seq<char>,
    dest: Seq<char>,
    span: (Timestamp, Timestamp),
) -> Seq<Seq<char>> {
    seq![
        "-i"@,
        source,
        "-loglevel"@,
        "error"@,
        "-y"@,
        "-acodec"@,
        "copy"@,
        "-ss"@,
        micros_text(span.0),
        "-to"@,
        micros_text(span.1),
        dest,
    ]
}

fn common_args(command: &mut ToolCommand, dest: &str, span: (Timestamp, Timestamp))
    ensures
        final(command)@.program == old(command)@.program,
        final(command)@.args == old(command)@.args + seq![
            "-loglevel"@,
            "error"@,
            "-y"@,
            "-acodec"@,
            "copy"@,
            "-ss"@,
            micros_text(span.0),
            "-to"@,
            micros_text(span.1),
            dest@,
        ],
{
    command.arg("-loglevel");
    command.arg("error");
    command.arg("-y");
    command.arg("-acodec");
    command.arg("copy");
    command.arg("-ss");
    command.arg(micros(span.0).as_str());
    command.arg("-to");
    command.arg(micros(span.1).as_str());
    command.arg(dest);
    assert(command@.args =~= old(command)@.args + seq![
        "-loglevel"@,
        "error"@,
        "-y"@,
        "-acodec"@,
        "copy"@,
        "-ss"@,
        micros_text(span.0),
        "-to"@,
        micros_text(span.1),
        dest@,
    ]);
}

/// The run of the copying tool that extracts a span which is aligned on
/// keyframes.
pub fn segment_aligned(source: &str, dest: &str, span: (Timestamp, Timestamp)) -> (r: ToolCommand)
    ensures
        r@.program == "ffmpeg"@,
        r@.args == aligned_args(source@, dest@, span),
{
    let mut command = ToolCommand::new("ffmpeg");
    command.arg("-i");
    command.arg(source);
    command.arg("-vcodec");
    command.arg("copy");
    common_args(&mut command, dest, span);
    assert(command@.args =~= aligned_args(source@, dest@, span));
    command
}

/// The run of the copying tool that extracts a span which is not aligned on
/// keyframes, and so has to be encoded again.
pub fn segment_not_aligned(source: &str, dest: &str, span: (Timestamp, Timestamp)) -> (r:
    ToolCommand)
    ensures
        r@.program == "ffmpeg"@,
        r@.args == not_aligned_args(source@, dest@, span),
{
    let mut command = ToolCommand::new("ffmpeg");
    command.arg("-i");
    command.arg(source);
    common_args(&mut command, dest, span);
    assert(command@.args =~= not_aligned_args(source@, dest@, span));
    command
}

/// The run of the copying tool that a step stands for.
pub open spec fn step_command(step: StepView) -> ToolCommandView {
    ToolCommandView {
        program: "ffmpeg"@,
        args: match step.kind {
            StepKind::AlignedCopy => aligned_args(step.source, step.dest, step.span),
            StepKind::UnalignedTranscode => not_aligned_args(step.source, step.dest, step.span),
        },
    }
}

impl PlanStep {
    /// The run of the copying tool that carries this step out.
    pub fn command(&self) -> (r: ToolCommand)
        ensures
            r@ == step_command(self@),
    {
        match self.kind {
            StepKind::AlignedCopy => segment_aligned(
                self.source.as_str(),
                self.dest.as_str(),
                self.span,
            ),
            StepKind::UnalignedTranscode => segment_not_aligned(
                self.source.as_str(),
                self.dest.as_str(),
                self.span,
            ),
        }
    }
}

/// The paths of the pieces among `steps`, in order.
pub open spec fn piece_paths(steps: Seq<StepView>) -> Seq<Seq<char>>
    decreases steps.len(),
{
    if steps.len() == 0 {
        Seq::empty()
    } else if steps.last().piece {
        piece_paths(steps.drop_last()).push(steps.last().dest)
    } else {
        piece_paths(steps.drop_last())
    }
}

/// The paths that `steps` write, in order: all of them where `pieces_too` is
/// set, else only those that hold no piece.
pub open spec fn paths_written(steps: Seq<StepView>, pieces_too: bool) -> Seq<Seq<char>>
    decreases steps.len(),
{
    if steps.len() == 0 {
        Seq::empty()
    } else if pieces_too || !steps.last().piece {
        paths_written(steps.drop_last(), pieces_too).push(steps.last().dest)
    } else {
        paths_written(steps.drop_last(), pieces_too)
    }
}

/// The files that are left over once the result stands: the scratch, and the
/// pieces too where they had to be joined.
pub open spec fn leftovers(steps: Seq<StepView>) -> Seq<Seq<char>> {
    paths_written(steps, piece_paths(steps).len() > 1)
}

impl ExtractionPlan {
    /// The paths of the pieces, in the order in which they make up the
    /// result.
    pub fn pieces(&self) -> (r: Vec<String>)
        ensures
            texts(r@) == piece_paths(step_views(self.steps@)),
    {
        let mut r: Vec<String> = Vec::new();
        let mut i: usize = 0;
        while i < self.steps.len()
            invariant
                i <= self.steps.len(),
                texts(r@) == piece_paths(step_views(self.steps@).take(i as int)),
            decreases self.steps.len() - i,
        {
            proof {
                let next = step_views(self.steps@).take(i + 1);
                assert(next.drop_last() =~= step_views(self.steps@).take(i as int));
                assert(next.last() == self.steps@[i as int]@);
            }
            if self.steps[i].piece {
                let ghost before = texts(r@);
                r.push(self.steps[i].dest.clone());
                assert(texts(r@) =~= before.push(self.steps@[i as int].dest@));
            }
            i += 1;
        }
        proof {
            assert(step_views(self.steps@).take(self.steps.len() as int) =~= step_views(
                self.steps@,
            ));
        }
        r
    }

    /// The files to remove once the result stands, or once a step has
    /// failed.
    pub fn temp_artifacts(&self) -> (r: Vec<String>)
        ensures
            texts(r@) == leftovers(step_views(self.steps@)),
    {
        let pieces_too: bool = self.pieces().len() > 1;
        let mut r: Vec<String> = Vec::new();
        let mut i: usize = 0;
        while i < self.steps.len()
            invariant
                i <= self.steps.len(),
                texts(r@) == paths_written(step_views(self.steps@).take(i as int), pieces_too),
            decreases self.steps.len() - i,
        {
            proof {
                let next = step_views(self.steps@).take(i + 1);
                assert(next.drop_last() =~= step_views(self.steps@).take(i as int));
                assert(next.last() == self.steps@[i as int]@);
            }
            if pieces_too || !self.steps[i].piece {
                let ghost before = texts(r@);
                r.push(self.steps[i].dest.clone());
                assert(texts(r@) =~= before.push(self.steps@[i as int].dest@));
            }
            i += 1;
        }
        proof {
            assert(step_views(self.steps@).take(self.steps.len() as int) =~= step_views(
                self.steps@,
            ));
        }
        r
    }

    /// The joining of the pieces into the result, where there is more than
    /// one piece; a single piece is the result.
    pub fn assembly(&self) -> (r: Option<ConcatJob>)
        ensures
            r is Some == (piece_paths(step_views(self.steps@)).len() > 1),
            match r {
                Some(job) => {
                    &&& job.manifest@ == manifest_of(self.output@)
                    &&& job.listing@ == listing_of(piece_paths(step_views(self.steps@)))
                    &&& job.command@ == concat_command(manifest_of(self.output@), self.output@)
                },
                None => true,
            },
    {
        let pieces = self.pieces();
        if pieces.len() > 1 {
            Some(concat_files(pieces.as_slice(), self.output.as_str()))
        } else {
            None
        }
    }
}

/// What the end of a step's run means: a code other than zero is a failure
/// that carries the code and what the tool wrote to its error stream.
pub fn segment_outcome(output: &ToolOutput) -> (r: Result<(), CutError>)
    ensures
        match exit_of(output.code) {
            Ok(()) => r is Ok,
            Err(code) => r matches Err(CutError::ExternalToolFailure { code: c, stderr })
                && c == code && stderr@ == output.stderr@,
        },
{
    match output.to_exitcode() {
        Ok(()) => Ok(()),
        Err(code) => Err(CutError::ExternalToolFailure { code, stderr: output.stderr.clone() }),
    }
}

/// A span whose start lies after its end.
pub open spec fn inverted(span: Span) -> bool {
    match span {
        (Some(start), Some(end)) => start > end,
        _ => false,
    }
}

/// The steps that extract `span` from a stream with the given keyframes: the
/// span must not be inverted, both ends must find their keyframes, the start
/// first, and the matches are planned.
pub open spec fn extraction_of(
    source: Seq<char>,
    dest: Seq<char>,
    span: Span,
    keyframes: Seq<Timestamp>,
    stream_end: Option<Timestamp>,
) -> Result<Seq<StepView>, CutError> {
    if inverted(span) {
        Err(CutError::InvalidSpan)
    } else {
        match match_of(keyframes, span.0, Role::Start) {
            Err(e) => Err(e),
            Ok(start) => match match_of(keyframes, span.1, Role::End) {
                Err(e) => Err(e),
                Ok(end) => planned(source, dest, start, end, stream_end),
            },
        }
    }
}

/// Plans the extraction of `span` from `source` into `dest`, given the
/// keyframes that were found around the span and, where it was measured, the
/// end of the stream.
pub fn extract_segment(
    source: &str,
    dest: &str,
    span: Span,
    keyframes: &[Timestamp],
    stream_end: Option<Timestamp>,
) -> (r: Result<ExtractionPlan, CutError>)
    ensures
        match r {
            Ok(p) => extraction_of(source@, dest@, span, keyframes@, stream_end) == Ok::<
                Seq<StepView>,
                CutError,
            >(step_views(p.steps@)) && p.output@ == dest@,
            Err(e) => extraction_of(source@, dest@, span, keyframes@, stream_end) == Err::<
                Seq<StepView>,
                CutError,
            >(e),
        },
{
    let is_inverted: bool = match span {
        (Some(start), Some(end)) => start > end,
        _ => false,
    };
    if is_inverted {
        return Err(CutError::InvalidSpan);
    }
    let start = match match_point(keyframes, span.0, Role::Start) {
        Ok(m) => m,
        Err(e) => {
            return Err(e);
        },
    };
    let end = match match_point(keyframes, span.1, Role::End) {
        Ok(m) => m,
        Err(e) => {
            return Err(e);
        },
    };
    plan(source, dest, start, end, stream_end)
}

/// The time that the pieces among `steps` cover together.
pub open spec fn pieces_duration(steps: Seq<StepView>) -> int
    decreases steps.len(),
{
    if steps.len() == 0 {
        0
    } else {
        pieces_duration(steps.drop_last()) + if steps.last().piece {
            steps.last().span.1 - steps.last().span.0
        } else {
            0
        }
    }
}

/// How many of `steps` write a piece.
pub open spec fn pieces_count(steps: Seq<StepView>) -> nat
    decreases steps.len(),
{
    if steps.len() == 0 {
        0
    } else {
        pieces_count(steps.drop_last()) + if steps.last().piece {
            1nat
        } else {
            0nat
        }
    }
}

proof fn lemma_pieces_concat(a: Seq<StepView>, b: Seq<StepView>)
    ensures
        pieces_duration(a + b) == pieces_duration(a) + pieces_duration(b),
        pieces_count(a + b) == pieces_count(a) + pieces_count(b),
        piece_paths(a + b) == piece_paths(a) + piece_paths(b),
    decreases b.len(),
{
    if b.len() == 0 {
        assert(a + b =~= a);
        assert(piece_paths(a) + piece_paths(b) =~= piece_paths(a));
    } else {
        assert((a + b).drop_last() =~= a + b.drop_last());
        lemma_pieces_concat(a, b.drop_last());
        assert(piece_paths(a + b) =~= piece_paths(a) + piece_paths(b));
    }
}

proof fn lemma_pieces_one(s: StepView)
    ensures
        pieces_duration(seq![s]) == if s.piece {
            s.span.1 - s.span.0
        } else {
            0
        },
        pieces_count(seq![s]) == if s.piece {
            1nat
        } else {
            0nat
        },
        piece_paths(seq![s]) == if s.piece {
            seq![s.dest]
        } else {
            Seq::<Seq<char>>::empty()
        },
{
    assert(seq![s].drop_last() =~= Seq::<StepView>::empty());
    assert(pieces_duration(Seq::<StepView>::empty()) == 0);
    assert(pieces_count(Seq::<StepView>::empty()) == 0);
    assert(piece_paths(Seq::<StepView>::empty()) =~= Seq::<Seq<char>>::empty());
    assert(piece_paths(seq![s]) =~= if s.piece {
        seq![s.dest]
    } else {
        Seq::<Seq<char>>::empty()
    });
}

proof fn lemma_pieces_two(s: StepView, t: StepView)
    ensures
        pieces_duration(seq![s, t]) == pieces_duration(seq![s]) + pieces_duration(seq![t]),
        pieces_count(seq![s, t]) == pieces_count(seq![s]) + pieces_count(seq![t]),
        piece_paths(seq![s, t]) == piece_paths(seq![s]) + piece_paths(seq![t]),
{
    assert(seq![s, t] =~= seq![s] + seq![t]);
    lemma_pieces_concat(seq![s], seq![t]);
}

/// A plan is never empty and always writes a piece; no step reads a stretch
/// that ends before it starts; and the pieces together last exactly as long
/// as the span that was asked for, from the target of the start to the target
/// of the end.
pub proof fn law_plan_covers_span(
    source: Seq<char>,
    dest: Seq<char>,
    start: KeyframeMatch,
    end: KeyframeMatch,
    stream_end: Option<Timestamp>,
)
    requires
        planned(source, dest, start, end, stream_end) is Ok,
    ensures
        ({
            let steps = planned(source, dest, start, end, stream_end).unwrap();
            &&& steps.len() >= 1
            &&& pieces_count(steps) >= 1
            &&& forall|i: int| 0 <= i < steps.len() ==> (#[trigger] steps[i]).span.0 <= steps[i].span.1
            &&& pieces_duration(steps) == end_target(end, stream_end) - start.target()
        }),
{
    let steps = planned(source, dest, start, end, stream_end).unwrap();
    if start.is_aligned() && end.is_aligned() && !falls_short(end, stream_end) {
        lemma_pieces_one(steps[0]);
        assert(steps =~= seq![steps[0]]);
    } else if start.keyframe_after() <= end.keyframe_before() {
        let head = head_steps(source, dest, start);
        let mid = copy_step(
            source,
            prefixed(dest, "mid."@),
            (start.keyframe_after(), end.keyframe_before()),
            true,
        );
        let tail = tail_steps(source, dest, end, stream_end);
        lemma_pieces_concat(head, seq![mid]);
        lemma_pieces_concat(head + seq![mid], tail);
        lemma_pieces_one(mid);
        if head.len() > 0 {
            lemma_pieces_two(head[0], head[1]);
            lemma_pieces_one(head[0]);
            lemma_pieces_one(head[1]);
            assert(head =~= seq![head[0], head[1]]);
        }
        if tail.len() == 2 {
            lemma_pieces_two(tail[0], tail[1]);
            lemma_pieces_one(tail[0]);
            lemma_pieces_one(tail[1]);
            assert(tail =~= seq![tail[0], tail[1]]);
        } else if tail.len() == 1 {
            lemma_pieces_one(tail[0]);
            assert(tail =~= seq![tail[0]]);
        }
    } else {
        lemma_pieces_two(steps[0], steps[1]);
        lemma_pieces_one(steps[0]);
        lemma_pieces_one(steps[1]);
        assert(steps =~= seq![steps[0], steps[1]]);
    }
}

/// The pieces of a plan in their order: the result itself where one piece
/// is enough, else a head where the start is unaligned, the middle, and a
/// tail where the end is unaligned or falls short of the end of the stream.
pub open spec fn planned_pieces(
    dest: Seq<char>,
    start: KeyframeMatch,
    end: KeyframeMatch,
    stream_end: Option<Timestamp>,
) -> Seq<Seq<char>> {
    if start.is_aligned() && end.is_aligned() && !falls_short(end, stream_end) {
        seq![dest]
    } else if start.keyframe_after() <= end.keyframe_before() {
        (if start is Between {
            seq![prefixed(dest, "head."@)]
        } else {
            Seq::empty()
        }) + seq![prefixed(dest, "mid."@)] + (if end is Between || falls_short(end, stream_end) {
            seq![prefixed(dest, "tail."@)]
        } else {
            Seq::empty()
        })
    } else {
        seq![dest]
    }
}

/// The pieces of a plan are the result itself, or head, middle and tail in
/// this order; there are as many as steps that write a piece, and more than
/// one wherever an end is unaligned and the middle is not inverted.
pub proof fn law_plan_pieces(
    source: Seq<char>,
    dest: Seq<char>,
    start: KeyframeMatch,
    end: KeyframeMatch,
    stream_end: Option<Timestamp>,
)
    requires
        planned(source, dest, start, end, stream_end) is Ok,
    ensures
        ({
            let steps = planned(source, dest, start, end, stream_end).unwrap();
            &&& piece_paths(steps) == planned_pieces(dest, start, end, stream_end)
            &&& piece_paths(steps).len() == pieces_count(steps)
        }),
{
    let steps = planned(source, dest, start, end, stream_end).unwrap();
    lemma_piece_paths_len(steps);
    if start.is_aligned() && end.is_aligned() && !falls_short(end, stream_end) {
        lemma_pieces_one(steps[0]);
        assert(steps =~= seq![steps[0]]);
    } else if start.keyframe_after() <= end.keyframe_before() {
        let head = head_steps(source, dest, start);
        let mid = copy_step(
            source,
            prefixed(dest, "mid."@),
            (start.keyframe_after(), end.keyframe_before()),
            true,
        );
        let tail = tail_steps(source, dest, end, stream_end);
        lemma_pieces_concat(head, seq![mid]);
        lemma_pieces_concat(head + seq![mid], tail);
        lemma_pieces_one(mid);
        if head.len() > 0 {
            lemma_pieces_two(head[0], head[1]);
            lemma_pieces_one(head[0]);
            lemma_pieces_one(head[1]);
            assert(head =~= seq![head[0], head[1]]);
        } else {
            assert(head =~= Seq::<StepView>::empty());
        }
        if tail.len() == 2 {
            lemma_pieces_two(tail[0], tail[1]);
            lemma_pieces_one(tail[0]);
            lemma_pieces_one(tail[1]);
            assert(tail =~= seq![tail[0], tail[1]]);
        } else if tail.len() == 1 {
            lemma_pieces_one(tail[0]);
            assert(tail =~= seq![tail[0]]);
        } else {
            assert(tail =~= Seq::<StepView>::empty());
        }
        assert(piece_paths(steps) =~= planned_pieces(dest, start, end, stream_end));
    } else {
        lemma_pieces_two(steps[0], steps[1]);
        lemma_pieces_one(steps[0]);
        lemma_pieces_one(steps[1]);
        assert(steps =~= seq![steps[0], steps[1]]);
        assert(piece_paths(steps) =~= planned_pieces(dest, start, end, stream_end));
    }
}

proof fn lemma_piece_paths_len(steps: Seq<StepView>)
    ensures
        piece_paths(steps).len() == pieces_count(steps),
    decreases steps.len(),
{
    if steps.len() > 0 {
        lemma_piece_paths_len(steps.drop_last());
    }
}

/// Two ends that lie on keyframes need no transcoding: the plan is one copy
/// from the source straight to the result.
pub proof fn law_plan_aligned(
    source: Seq<char>,
    dest: Seq<char>,
    start: KeyframeMatch,
    end: KeyframeMatch,
)
    requires
        start.is_aligned(),
        end.is_aligned(),
        start.target() <= end.target(),
    ensures
        planned(source, dest, start, end, None) == Ok::<Seq<StepView>, CutError>(
            seq![copy_step(source, dest, (start.target(), end.target()), true)],
        ),
{
}

/// A span from one keyframe of a sorted sequence to another is extracted by
/// one copy, without transcoding.
pub proof fn law_extraction_on_keyframes(
    source: Seq<char>,
    dest: Seq<char>,
    keyframes: Seq<Timestamp>,
    i: int,
    j: int,
    stream_end: Option<Timestamp>,
)
    requires
        crate::operations::keyframes::sorted(keyframes),
        0 <= i <= j < keyframes.len(),
    ensures
        extraction_of(source, dest, (Some(keyframes[i]), Some(keyframes[j])), keyframes, stream_end)
            == Ok::<Seq<StepView>, CutError>(
            seq![copy_step(source, dest, (keyframes[i], keyframes[j]), true)],
        ),
{
    crate::operations::keyframes::law_match_keyframe(keyframes, i, Role::Start);
    crate::operations::keyframes::law_match_keyframe(keyframes, j, Role::End);
}

/// Where the extraction of a span is planned, the pieces together last from
/// the start that was asked for to the end that was asked for; an open start
/// is the first keyframe, an open end the last keyframe or, where the stream
/// is known to go on after it, the end of the stream.
pub proof fn law_extraction_covers_span(
    source: Seq<char>,
    dest: Seq<char>,
    span: Span,
    keyframes: Seq<Timestamp>,
    stream_end: Option<Timestamp>,
)
    requires
        extraction_of(source, dest, span, keyframes, stream_end) is Ok,
    ensures
        keyframes.len() >= 1,
        pieces_duration(extraction_of(source, dest, span, keyframes, stream_end).unwrap()) == (
        match span.1 {
            Some(end) => end,
            None => match stream_end {
                Some(len) => if keyframes.last() < len {
                    len
                } else {
                    keyframes.last()
                },
                None => keyframes.last(),
            },
        }) - (match span.0 {
            Some(start) => start,
            None => keyframes.first(),
        }),
{
    let start = match_of(keyframes, span.0, Role::Start).unwrap();
    let end = match_of(keyframes, span.1, Role::End).unwrap();
    law_plan_covers_span(source, dest, start, end, stream_end);
}

} // verus!
