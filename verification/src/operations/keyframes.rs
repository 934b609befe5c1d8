use vstd::prelude::*;
use vstd::string::StringExecFns;
use crate::error::{probe_exit, unreadable, CutError};
use crate::json::{
    items, json_document, json_items, json_member, member, member_text, parse_document,
    read_member_text,
};
use crate::tool::{texts, ToolCommand, ToolCommandView, ToolOutput};
use crate::util::extensions::{exit_of, CommandOutputExt};
use crate::util::seconds::{parse_seconds, timestamp_of};
use crate::util::text::{micros, micros_text};
use crate::util::{Span, Timestamp};

verus! {

/// Which end of a span a target belongs to.
#[derive(Debug, Clone, Copy, PartialEq, Eq, Structural)]
pub enum Role {
    Start,
    End,
}

/// How a target lies among the keyframes of a stream.
#[derive(Debug, Clone, Copy, Eq, PartialEq, PartialOrd)]
pub enum KeyframeMatch {
    /// The target is a keyframe.
    Exact(Timestamp),
    /// No target was asked for: the first or the last keyframe that is known
    /// stands for that end of the stream.
    Boundary(Timestamp),
    /// The target lies between two keyframes: before, target, after.
    Between(Timestamp, Timestamp, Timestamp),
}

impl KeyframeMatch {
    /// The point that was asked for.
    pub open spec fn target(self) -> Timestamp {
        match self {
            KeyframeMatch::Exact(t) => t,
            KeyframeMatch::Boundary(t) => t,
            KeyframeMatch::Between(_, t, _) => t,
        }
    }

    /// The keyframe at or before the target.
    pub open spec fn keyframe_before(self) -> Timestamp {
        match self {
            KeyframeMatch::Exact(t) => t,
            KeyframeMatch::Boundary(t) => t,
            KeyframeMatch::Between(before, _, _) => before,
        }
    }

    /// The keyframe at or after the target.
    pub open spec fn keyframe_after(self) -> Timestamp {
        match self {
            KeyframeMatch::Exact(t) => t,
            KeyframeMatch::Boundary(t) => t,
            KeyframeMatch::Between(_, _, after) => after,
        }
    }

    /// The target lies on a keyframe.
    pub open spec fn is_aligned(self) -> bool {
        !(self is Between)
    }

    /// A target between two keyframes lies strictly between them.
    pub open spec fn well_formed(self) -> bool {
        match self {
            KeyframeMatch::Between(before, t, after) => before < t < after,
            _ => true,
        }
    }
}

/// Ascending order; equal neighbours are allowed.
pub open spec fn sorted(keyframes: Seq<Timestamp>) -> bool {
    forall|i: int, j: int| 0 <= i <= j < keyframes.len() ==> keyframes[i] <= keyframes[j]
}

/// How far around a span the keyframes are looked for by default: five
/// seconds.
pub const PADDING: Timestamp = 5_000_000;

/// The stretch of a stream to probe for the keyframes around `span`: the
/// span widened by `padding` on both sides, as far as the stream and the
/// numbers go. An open end stays open.
pub open spec fn padded(span: Span, padding: Timestamp) -> Span {
    (
        match span.0 {
            Some(start) => Some(
                if start >= padding {
                    (start - padding) as Timestamp
                } else {
                    0
                },
            ),
            None => None,
        },
        match span.1 {
            Some(end) => Some(
                if end + padding <= u128::MAX {
                    (end + padding) as Timestamp
                } else {
                    u128::MAX
                },
            ),
            None => None,
        },
    )
}

/// Widens `span` by `padding` on both sides.
pub fn probe_window(span: Span, padding: Timestamp) -> (r: Span)
    ensures
        r == padded(span, padding),
{
    (
        match span.0 {
            Some(start) => Some(start.saturating_sub(padding)),
            None => None,
        },
        match span.1 {
            Some(end) => Some(end.saturating_add(padding)),
            None => None,
        },
    )
}

/// The window to probe once more after the failure `e` of a search inside
/// `window`: the whole stream, where the failure was a missing keyframe and
/// the window did not cover the whole stream yet. Any other failure, and a
/// missing keyframe in the whole stream, stands.
pub open spec fn wider_window(e: CutError, window: Span) -> Option<Span> {
    if e is NoBracketingKeyframe && (window.0 is Some || window.1 is Some) {
        Some((None, None))
    } else {
        None
    }
}

/// Decides whether a failed search is worth a second probe, and of what.
pub fn widen_window(e: &CutError, window: Span) -> (r: Option<Span>)
    ensures
        r == wider_window(*e, window),
{
    match e {
        CutError::NoBracketingKeyframe { role: _, target: _ } => {
            if window.0.is_some() || window.1.is_some() {
                Some((None, None))
            } else {
                None
            }
        },
        _ => None,
    }
}

/// The stretch `window` as the probing tool reads it: the start, then a
/// percent sign and the end; an open end is left out.
pub open spec fn interval_text(window: Span) -> Seq<char> {
    (match window.0 {
        Some(start) => micros_text(start),
        None => Seq::empty(),
    }) + (match window.1 {
        Some(end) => "%"@ + micros_text(end),
        None => Seq::empty(),
    })
}

/// The run of the probing tool that lists, as a JSON document, the time of
/// every keyframe of the first video stream of `path` inside `window`; a
/// window that is open on both sides is the whole stream.
pub open spec fn keyframes_probe_of(path: Seq<char>, window: Span) -> ToolCommandView {
    ToolCommandView {
        program: "ffprobe"@,
        args: seq![
            "-loglevel"@,
            "error"@,
            "-select_streams"@,
            "v:0"@,
            "-skip_frame"@,
            "nokey"@,
            "-show_frames"@,
            "-show_entries"@,
            "frame=pts_time"@,
            "-of"@,
            "json"@,
        ] + (if window.0 is None && window.1 is None {
            Seq::empty()
        } else {
            seq!["-read_intervals"@, interval_text(window)]
        }) + seq![path],
    }
}

/// The run of the probing tool that finds the keyframes of `path` inside
/// `window`.
pub fn keyframes_probe(path: &str, window: Span) -> (r: ToolCommand)
    ensures
        r@ == keyframes_probe_of(path@, window),
{
    let mut command = ToolCommand::new("ffprobe");
    command.arg("-loglevel");
    command.arg("error");
    command.arg("-select_streams");
    command.arg("v:0");
    command.arg("-skip_frame");
    command.arg("nokey");
    command.arg("-show_frames");
    command.arg("-show_entries");
    command.arg("frame=pts_time");
    command.arg("-of");
    command.arg("json");
    if window.0.is_some() || window.1.is_some() {
        let mut interval = String::new();
        match window.0 {
            Some(start) => {
                interval.append(micros(start).as_str());
            },
            None => {},
        }
        match window.1 {
            Some(end) => {
                interval.append("%");
                interval.append(micros(end).as_str());
            },
            None => {},
        }
        assert(interval@ =~= interval_text(window));
        command.arg("-read_intervals");
        command.arg(interval.as_str());
    }
    command.arg(path);
    assert(command@.args =~= keyframes_probe_of(path@, window).args);
    command
}

proof fn lemma_insert_to_multiset(s: Seq<Timestamp>, p: int, x: Timestamp)
    requires
        0 <= p <= s.len(),
    ensures
        s.insert(p, x).to_multiset() =~= s.to_multiset().insert(x),
{
    broadcast use vstd::seq_lib::group_to_multiset_ensures;

    let t = s.insert(p, x);
    assert(t.remove(p) =~= s);
    assert(t[p] == x);
    vstd::seq_lib::to_multiset_remove(t, p);
    assert(t.contains(x));
    assert(t.to_multiset().count(x) > 0);
    assert(t.to_multiset() =~= t.to_multiset().remove(x).insert(x));
}

/// Sorts timestamps into ascending order.
pub fn sort_timestamps(values: &[Timestamp]) -> (r: Vec<Timestamp>)
    ensures
        sorted(r@),
        r@.to_multiset() == values@.to_multiset(),
{
    broadcast use vstd::seq_lib::group_to_multiset_ensures;

    let mut r: Vec<Timestamp> = Vec::new();
    let mut i: usize = 0;
    assert(values@.take(0) =~= Seq::<Timestamp>::empty());
    while i < values.len()
        invariant
            i <= values.len(),
            sorted(r@),
            r@.to_multiset() == values@.take(i as int).to_multiset(),
        decreases values.len() - i,
    {
        let x: Timestamp = values[i];
        let mut p: usize = r.len();
        while p > 0 && r[p - 1] > x
            invariant
                p <= r.len(),
                sorted(r@),
                forall|j: int| p <= j < r.len() ==> r@[j] > x,
            decreases p,
        {
            p -= 1;
        }
        let ghost before = r@;
        r.insert(p, x);
        proof {
            let after = before.insert(p as int, x);
            lemma_insert_to_multiset(before, p as int, x);
            assert(values@.take(i + 1) =~= values@.take(i as int).push(x));
            vstd::seq_lib::to_multiset_build(values@.take(i as int), x);
            assert(r@ == after);
            assert(r@.to_multiset() =~= values@.take(i + 1).to_multiset());
            assert forall|a: int, b: int| 0 <= a <= b < after.len() implies after[a] <= after[b] by {
                if a < p && b >= p {
                    assert(before[a] <= before[p - 1]);
                }
            }
        }
        i += 1;
    }
    assert(values@.take(values.len() as int) =~= values@);
    r
}

/// The times of the frames that the probing tool listed in the JSON document
/// `stdout`: the document has a member `frames`, an array, and each of its
/// elements has a member `pts_time`, a string. Anything else is `None`.
pub open spec fn frame_times(stdout: Seq<char>) -> Option<Seq<Seq<char>>> {
    match json_document(stdout) {
        None => None,
        Some(document) => match json_member(document, "frames"@) {
            None => None,
            Some(frames) => match json_items(frames) {
                None => None,
                Some(list) => if forall|i: int|
                    0 <= i < list.len() ==> member_text(#[trigger] list[i], "pts_time"@) is Some {
                    Some(Seq::new(list.len(), |i: int| member_text(list[i], "pts_time"@).unwrap()))
                } else {
                    None
                },
            },
        },
    }
}

/// Reads the times of the frames out of the JSON document that the probing
/// tool printed.
pub fn read_frame_times(stdout: &str) -> (r: Option<Vec<String>>)
    ensures
        match r {
            Some(times) => frame_times(stdout@) == Some(texts(times@)),
            None => frame_times(stdout@) is None,
        },
{
    let document = match parse_document(stdout) {
        Ok(document) => document,
        Err(_) => {
            return None;
        },
    };
    let frames = match member(&document, "frames") {
        Some(frames) => frames,
        None => {
            return None;
        },
    };
    let list = match items(frames) {
        Some(list) => list,
        None => {
            return None;
        },
    };
    let mut times: Vec<String> = Vec::new();
    let mut i: usize = 0;
    while i < list.len()
        invariant
            i <= list.len(),
            times.len() == i,
            json_document(stdout@) == Some(document),
            json_member(document, "frames"@) == Some(*frames),
            json_items(*frames) == Some(list@),
            forall|j: int|
                0 <= j < i ==> member_text(#[trigger] list@[j], "pts_time"@) == Some(times@[j]@),
        decreases list.len() - i,
    {
        match read_member_text(&list[i], "pts_time") {
            Some(time) => {
                times.push(String::from_str(time));
            },
            None => {
                return None;
            },
        }
        i += 1;
    }
    assert(texts(times@) =~= Seq::new(
        list@.len(),
        |i: int| member_text(list@[i], "pts_time"@).unwrap(),
    ));
    Some(times)
}

/// Every text stands for a timestamp.
pub open spec fn all_readable(times: Seq<Seq<char>>) -> bool {
    forall|i: int| 0 <= i < times.len() ==> timestamp_of(#[trigger] times[i]) is Some
}

/// The timestamps that the texts stand for, in their order.
pub open spec fn timestamps_of(times: Seq<Seq<char>>) -> Seq<Timestamp> {
    Seq::new(times.len(), |i: int| timestamp_of(times[i]).unwrap())
}

/// The text at `i` is the first that stands for no timestamp.
pub open spec fn first_unreadable(times: Seq<Seq<char>>, i: int) -> bool {
    &&& 0 <= i < times.len()
    &&& timestamp_of(times[i]) is None
    &&& forall|j: int| 0 <= j < i ==> timestamp_of(#[trigger] times[j]) is Some
}

/// `r` is what the times of the frames `times` come to: their timestamps in
/// ascending order, or, where a text stands for no timestamp, the failure
/// that reports the first such text.
pub open spec fn is_keyframes_of(times: Seq<Seq<char>>, r: Result<Vec<Timestamp>, CutError>) -> bool {
    match r {
        Ok(keyframes) => {
            &&& all_readable(times)
            &&& sorted(keyframes@)
            &&& keyframes@.to_multiset() == timestamps_of(times).to_multiset()
        },
        Err(e) => exists|i: int| first_unreadable(times, i) && unreadable(#[trigger] times[i], e),
    }
}

/// Turns the times of the frames, as the probing tool printed them, into a
/// keyframe sequence.
pub fn keyframes_from_times(times: &[String]) -> (r: Result<Vec<Timestamp>, CutError>)
    ensures
        is_keyframes_of(texts(times@), r),
{
    let mut found: Vec<Timestamp> = Vec::new();
    let mut i: usize = 0;
    while i < times.len()
        invariant
            i <= times.len(),
            found.len() == i,
            forall|j: int|
                0 <= j < i ==> timestamp_of(#[trigger] texts(times@)[j]) == Some(found@[j]),
        decreases times.len() - i,
    {
        match parse_seconds(times[i].as_str()) {
            Some(t) => {
                found.push(t);
            },
            None => {
                let e = CutError::ProbeFailure { exit: None, detail: times[i].clone() };
                assert(first_unreadable(texts(times@), i as int));
                assert(unreadable(texts(times@)[i as int], e));
                return Err(e);
            },
        }
        i += 1;
    }
    assert(found@ =~= timestamps_of(texts(times@)));
    Ok(sort_timestamps(found.as_slice()))
}

/// `r` is what the output of the probing tool for keyframes comes to: the
/// tool's failure with its code and diagnostics; for a document without
/// frame times, the failure that reports the whole output as unreadable;
/// else what the times come to.
pub open spec fn is_keyframes_of_probe(output: ToolOutput, r: Result<Vec<Timestamp>, CutError>) -> bool {
    match exit_of(output.code) {
        Err(code) => r matches Err(e) && probe_exit(code, output.stderr@, e),
        Ok(()) => match frame_times(output.stdout@) {
            None => r matches Err(e) && unreadable(output.stdout@, e),
            Some(times) => is_keyframes_of(times, r),
        },
    }
}

/// Reads the keyframes of a stream out of the output of the probing tool.
pub fn get_keyframes(output: &ToolOutput) -> (r: Result<Vec<Timestamp>, CutError>)
    ensures
        is_keyframes_of_probe(*output, r),
{
    match output.to_exitcode() {
        Err(code) => Err(
            CutError::ProbeFailure { exit: Some(code), detail: output.stderr.clone() },
        ),
        Ok(()) => match read_frame_times(output.stdout.as_str()) {
            None => Err(CutError::ProbeFailure { exit: None, detail: output.stdout.clone() }),
            Some(times) => keyframes_from_times(times.as_slice()),
        },
    }
}

/// The last position whose keyframe is not after `target`.
pub open spec fn last_not_after(keyframes: Seq<Timestamp>, target: Timestamp) -> Option<int>
    decreases keyframes.len(),
{
    if keyframes.len() == 0 {
        None
    } else if keyframes.last() <= target {
        Some(keyframes.len() - 1)
    } else {
        last_not_after(keyframes.drop_last(), target)
    }
}

/// The first position whose keyframe is not before `target`.
pub open spec fn first_not_before(keyframes: Seq<Timestamp>, target: Timestamp) -> Option<int>
    decreases keyframes.len(),
{
    if keyframes.len() == 0 {
        None
    } else if keyframes.first() >= target {
        Some(0)
    } else {
        match first_not_before(keyframes.drop_first(), target) {
            Some(i) => Some(i + 1),
            None => None,
        }
    }
}

/// The greatest of `values` that is not after `target`, in whatever order
/// the values stand.
pub open spec fn greatest_not_after(values: Seq<Timestamp>, target: Timestamp) -> Option<Timestamp>
    decreases values.len(),
{
    if values.len() == 0 {
        None
    } else {
        let rest = greatest_not_after(values.drop_last(), target);
        let v = values.last();
        if v <= target && (rest is None || rest.unwrap() <= v) {
            Some(v)
        } else {
            rest
        }
    }
}

/// The least of `values` that is not before `target`, in whatever order the
/// values stand.
pub open spec fn least_not_before(values: Seq<Timestamp>, target: Timestamp) -> Option<Timestamp>
    decreases values.len(),
{
    if values.len() == 0 {
        None
    } else {
        let rest = least_not_before(values.drop_last(), target);
        let v = values.last();
        if v >= target && (rest is None || rest.unwrap() >= v) {
            Some(v)
        } else {
            rest
        }
    }
}

/// `greatest_not_after` is one of the values, is not after the target, and
/// no value that is not after the target is greater; it is `None` only where
/// every value is after the target.
pub proof fn lemma_greatest_not_after(values: Seq<Timestamp>, target: Timestamp)
    ensures
        match greatest_not_after(values, target) {
            Some(m) => {
                &&& values.contains(m)
                &&& m <= target
                &&& forall|i: int|
                    0 <= i < values.len() && values[i] <= target ==> values[i] <= m
            },
            None => forall|i: int| 0 <= i < values.len() ==> values[i] > target,
        },
    decreases values.len(),
{
    if values.len() > 0 {
        let rest = values.drop_last();
        lemma_greatest_not_after(rest, target);
        assert forall|i: int| 0 <= i < rest.len() implies values[i] == rest[i] by {}
        match greatest_not_after(rest, target) {
            Some(m) => {
                let i = choose|i: int| 0 <= i < rest.len() && rest[i] == m;
                assert(values[i] == m);
            },
            None => {},
        }
        assert(values[values.len() - 1] == values.last());
    }
}

/// `least_not_before` is one of the values, is not before the target, and no
/// value that is not before the target is less; it is `None` only where
/// every value is before the target.
pub proof fn lemma_least_not_before(values: Seq<Timestamp>, target: Timestamp)
    ensures
        match least_not_before(values, target) {
            Some(m) => {
                &&& values.contains(m)
                &&& m >= target
                &&& forall|i: int|
                    0 <= i < values.len() && values[i] >= target ==> values[i] >= m
            },
            None => forall|i: int| 0 <= i < values.len() ==> values[i] < target,
        },
    decreases values.len(),
{
    if values.len() > 0 {
        let rest = values.drop_last();
        lemma_least_not_before(rest, target);
        assert forall|i: int| 0 <= i < rest.len() implies values[i] == rest[i] by {}
        match least_not_before(rest, target) {
            Some(m) => {
                let i = choose|i: int| 0 <= i < rest.len() && rest[i] == m;
                assert(values[i] == m);
            },
            None => {},
        }
        assert(values[values.len() - 1] == values.last());
    }
}

/// The keyframe at the position `at`, where there is one.
pub open spec fn keyframe_at(keyframes: Seq<Timestamp>, at: Option<int>) -> Option<Timestamp> {
    match at {
        Some(i) => Some(keyframes[i]),
        None => None,
    }
}

/// Once values are sorted, the last position that is not after a target
/// holds the greatest value that is not after it, and the first position
/// that is not before it holds the least value that is not before it.
pub proof fn law_closest_in_sorted(
    keyframes: Seq<Timestamp>,
    values: Seq<Timestamp>,
    target: Timestamp,
)
    requires
        sorted(keyframes),
        keyframes.to_multiset() == values.to_multiset(),
    ensures
        keyframe_at(keyframes, last_not_after(keyframes, target)) == greatest_not_after(
            values,
            target,
        ),
        keyframe_at(keyframes, first_not_before(keyframes, target)) == least_not_before(
            values,
            target,
        ),
{
    broadcast use vstd::seq_lib::group_to_multiset_ensures;

    lemma_last_not_after(keyframes, target);
    lemma_first_not_before(keyframes, target);
    lemma_greatest_not_after(values, target);
    lemma_least_not_before(values, target);
    assert forall|x: Timestamp| keyframes.contains(x) == values.contains(x) by {
        assert(keyframes.contains(x) <==> keyframes.to_multiset().count(x) > 0);
        assert(values.contains(x) <==> values.to_multiset().count(x) > 0);
    }
    assert forall|i: int| 0 <= i < values.len() implies keyframes.contains(#[trigger] values[i]) by {
        assert(values.contains(values[i]));
    }
    assert forall|i: int| 0 <= i < keyframes.len() implies values.contains(
        #[trigger] keyframes[i],
    ) by {
        assert(keyframes.contains(keyframes[i]));
    }
    match last_not_after(keyframes, target) {
        Some(p) => {
            let k = keyframes[p];
            let j = choose|j: int| 0 <= j < values.len() && values[j] == k;
            let m = greatest_not_after(values, target).unwrap();
            let q = choose|q: int| 0 <= q < keyframes.len() && keyframes[q] == m;
            if q > p {
                assert(keyframes[q] > target);
            } else {
                assert(keyframes[q] <= keyframes[p]);
            }
            assert(values[j] <= m);
        },
        None => {
            if greatest_not_after(values, target) is Some {
                let m = greatest_not_after(values, target).unwrap();
                let q = choose|q: int| 0 <= q < keyframes.len() && keyframes[q] == m;
                assert(keyframes[q] > target);
            }
        },
    }
    match first_not_before(keyframes, target) {
        Some(p) => {
            let k = keyframes[p];
            let j = choose|j: int| 0 <= j < values.len() && values[j] == k;
            let m = least_not_before(values, target).unwrap();
            let q = choose|q: int| 0 <= q < keyframes.len() && keyframes[q] == m;
            if q < p {
                assert(keyframes[q] < target);
            } else {
                assert(keyframes[p] <= keyframes[q]);
            }
            assert(values[j] >= m);
        },
        None => {
            if least_not_before(values, target) is Some {
                let m = least_not_before(values, target).unwrap();
                let q = choose|q: int| 0 <= q < keyframes.len() && keyframes[q] == m;
                assert(keyframes[q] < target);
            }
        },
    }
}

/// The failure of a search for `role`.
pub open spec fn no_bracket(role: Role, target: Option<Timestamp>) -> CutError {
    CutError::NoBracketingKeyframe { role, target }
}

/// The match of `target` among `keyframes`.
///
/// Without a target the match is the boundary of the sequence on the side of
/// `role`. A start is searched from the back for a keyframe that is not after
/// it, an end from the front for one that is not before it; a target that is
/// no keyframe needs a neighbour on its other side as well.
pub open spec fn match_of(keyframes: Seq<Timestamp>, target: Option<Timestamp>, role: Role) -> Result<
    KeyframeMatch,
    CutError,
> {
    match target {
        None => if keyframes.len() == 0 {
            Err(no_bracket(role, target))
        } else {
            Ok(
                KeyframeMatch::Boundary(
                    match role {
                        Role::Start => keyframes.first(),
                        Role::End => keyframes.last(),
                    },
                ),
            )
        },
        Some(t) => match role {
            Role::Start => match last_not_after(keyframes, t) {
                Some(i) => if keyframes[i] == t {
                    Ok(KeyframeMatch::Exact(t))
                } else if i + 1 < keyframes.len() {
                    Ok(KeyframeMatch::Between(keyframes[i], t, keyframes[i + 1]))
                } else {
                    Err(no_bracket(role, target))
                },
                None => Err(no_bracket(role, target)),
            },
            Role::End => match first_not_before(keyframes, t) {
                Some(i) => if keyframes[i] == t {
                    Ok(KeyframeMatch::Exact(t))
                } else if i >= 1 {
                    Ok(KeyframeMatch::Between(keyframes[i - 1], t, keyframes[i]))
                } else {
                    Err(no_bracket(role, target))
                },
                None => Err(no_bracket(role, target)),
            },
        },
    }
}

/// `last_not_after` names the last position that is not after the target, or
/// `None` where every keyframe is after it.
pub proof fn lemma_last_not_after(keyframes: Seq<Timestamp>, target: Timestamp)
    ensures
        match last_not_after(keyframes, target) {
            Some(i) => 0 <= i < keyframes.len() && keyframes[i] <= target && forall|j: int|
                i < j < keyframes.len() ==> keyframes[j] > target,
            None => forall|j: int| 0 <= j < keyframes.len() ==> keyframes[j] > target,
        },
    decreases keyframes.len(),
{
    if keyframes.len() > 0 && keyframes.last() > target {
        let rest = keyframes.drop_last();
        lemma_last_not_after(rest, target);
        assert forall|j: int| 0 <= j < rest.len() implies keyframes[j] == rest[j] by {}
    }
}

/// `first_not_before` names the first position that is not before the target,
/// or `None` where every keyframe is before it.
pub proof fn lemma_first_not_before(keyframes: Seq<Timestamp>, target: Timestamp)
    ensures
        match first_not_before(keyframes, target) {
            Some(i) => 0 <= i < keyframes.len() && keyframes[i] >= target && forall|j: int|
                0 <= j < i ==> keyframes[j] < target,
            None => forall|j: int| 0 <= j < keyframes.len() ==> keyframes[j] < target,
        },
    decreases keyframes.len(),
{
    if keyframes.len() > 0 && keyframes.first() < target {
        let rest = keyframes.drop_first();
        lemma_first_not_before(rest, target);
        assert forall|j: int| 0 < j < keyframes.len() implies keyframes[j] == rest[j - 1] by {}
    }
}

/// Finds the last position whose keyframe is not after `target`.
pub fn position_not_after(keyframes: &[Timestamp], target: Timestamp) -> (r: Option<usize>)
    ensures
        match r {
            Some(i) => last_not_after(keyframes@, target) == Some(i as int),
            None => last_not_after(keyframes@, target) is None,
        },
{
    proof {
        lemma_last_not_after(keyframes@, target);
    }
    let mut i: usize = keyframes.len();
    while i > 0 && keyframes[i - 1] > target
        invariant
            i <= keyframes@.len(),
            forall|j: int| i <= j < keyframes@.len() ==> keyframes@[j] > target,
        decreases i,
    {
        i -= 1;
    }
    if i == 0 {
        None
    } else {
        Some(i - 1)
    }
}

/// Finds the first position whose keyframe is not before `target`.
pub fn position_not_before(keyframes: &[Timestamp], target: Timestamp) -> (r: Option<usize>)
    ensures
        match r {
            Some(i) => first_not_before(keyframes@, target) == Some(i as int),
            None => first_not_before(keyframes@, target) is None,
        },
{
    proof {
        lemma_first_not_before(keyframes@, target);
    }
    let mut i: usize = 0;
    while i < keyframes.len() && keyframes[i] < target
        invariant
            i <= keyframes@.len(),
            forall|j: int| 0 <= j < i ==> keyframes@[j] < target,
        decreases keyframes@.len() - i,
    {
        i += 1;
    }
    if i == keyframes.len() {
        None
    } else {
        Some(i)
    }
}

/// Matches one end of a span against the keyframes of a stream.
pub fn match_point(keyframes: &[Timestamp], target: Option<Timestamp>, role: Role) -> (r: Result<
    KeyframeMatch,
    CutError,
>)
    ensures
        r == match_of(keyframes@, target, role),
{
    let n: usize = keyframes.len();
    let failure = Err(CutError::NoBracketingKeyframe { role, target });
    match target {
        None => {
            if n == 0 {
                failure
            } else {
                match role {
                    Role::Start => Ok(KeyframeMatch::Boundary(keyframes[0])),
                    Role::End => Ok(KeyframeMatch::Boundary(keyframes[n - 1])),
                }
            }
        },
        Some(t) => {
            proof {
                lemma_last_not_after(keyframes@, t);
                lemma_first_not_before(keyframes@, t);
            }
            match role {
                Role::Start => match position_not_after(keyframes, t) {
                    Some(i) => if keyframes[i] == t {
                        Ok(KeyframeMatch::Exact(t))
                    } else if i + 1 < n {
                        Ok(KeyframeMatch::Between(keyframes[i], t, keyframes[i + 1]))
                    } else {
                        failure
                    },
                    None => failure,
                },
                Role::End => match position_not_before(keyframes, t) {
                    Some(i) => if keyframes[i] == t {
                        Ok(KeyframeMatch::Exact(t))
                    } else if i >= 1 {
                        Ok(KeyframeMatch::Between(keyframes[i - 1], t, keyframes[i]))
                    } else {
                        failure
                    },
                    None => failure,
                },
            }
        },
    }
}

/// The matches of both ends of `span`, the start first: each end is matched
/// as `match_of` matches it, so an open end is the boundary of the sequence
/// on its side.
pub open spec fn closest_of(keyframes: Seq<Timestamp>, span: Span) -> Result<
    (KeyframeMatch, KeyframeMatch),
    CutError,
> {
    match match_of(keyframes, span.0, Role::Start) {
        Err(e) => Err(e),
        Ok(start) => match match_of(keyframes, span.1, Role::End) {
            Err(e) => Err(e),
            Ok(end) => Ok((start, end)),
        },
    }
}

/// Finds the keyframes around both ends of `span`.
pub fn find_closest_keyframes(keyframes: &[Timestamp], span: Span) -> (r: Result<
    (KeyframeMatch, KeyframeMatch),
    CutError,
>)
    ensures
        r == closest_of(keyframes@, span),
{
    let start = match match_point(keyframes, span.0, Role::Start) {
        Ok(m) => m,
        Err(e) => {
            return Err(e);
        },
    };
    let end = match match_point(keyframes, span.1, Role::End) {
        Ok(m) => m,
        Err(e) => {
            return Err(e);
        },
    };
    Ok((start, end))
}

/// A span that is open at an end is matched there to the boundary of the
/// sequence: to the first keyframe at an open start, to the last at an open
/// end, whatever the other end is, as long as the other end is matched.
pub proof fn law_closest_boundary(keyframes: Seq<Timestamp>, span: Span)
    requires
        closest_of(keyframes, span) is Ok,
    ensures
        keyframes.len() >= 1,
        span.0 is None ==> closest_of(keyframes, span).unwrap().0 == KeyframeMatch::Boundary(
            keyframes.first(),
        ),
        span.1 is None ==> closest_of(keyframes, span).unwrap().1 == KeyframeMatch::Boundary(
            keyframes.last(),
        ),
{
}

/// In a sorted sequence every target from the first keyframe to the last is
/// matched, whichever end it is searched for: as itself where it is a
/// keyframe, else between the two neighbouring keyframes around it.
pub proof fn law_match_inside(keyframes: Seq<Timestamp>, target: Timestamp, role: Role)
    requires
        sorted(keyframes),
        keyframes.len() >= 1,
        keyframes.first() <= target <= keyframes.last(),
    ensures
        match match_of(keyframes, Some(target), role) {
            Ok(KeyframeMatch::Exact(t)) => t == target && keyframes.contains(target),
            Ok(KeyframeMatch::Between(before, t, after)) => {
                &&& t == target
                &&& before < target < after
                &&& !keyframes.contains(target)
                &&& exists|i: int|
                    0 <= i && i + 1 < keyframes.len() && #[trigger] keyframes[i] == before
                        && keyframes[i + 1] == after
            },
            _ => false,
        },
{
    lemma_last_not_after(keyframes, target);
    lemma_first_not_before(keyframes, target);
    match role {
        Role::Start => {
            let i = last_not_after(keyframes, target).unwrap();
            if keyframes[i] != target {
                assert(i + 1 < keyframes.len());
                assert(keyframes[i + 1] > target);
            }
        },
        Role::End => {
            let i = first_not_before(keyframes, target).unwrap();
            if keyframes[i] != target {
                assert(i >= 1);
                assert(keyframes[i - 1] < target);
                assert(keyframes[(i - 1) + 1] == keyframes[i]);
            }
        },
    }
}

/// In a sorted sequence a target that is a keyframe is matched as that
/// keyframe, whichever end it is searched for.
pub proof fn law_match_keyframe(keyframes: Seq<Timestamp>, i: int, role: Role)
    requires
        sorted(keyframes),
        0 <= i < keyframes.len(),
    ensures
        match_of(keyframes, Some(keyframes[i]), role) == Ok::<KeyframeMatch, CutError>(
            KeyframeMatch::Exact(keyframes[i]),
        ),
{
    lemma_last_not_after(keyframes, keyframes[i]);
    lemma_first_not_before(keyframes, keyframes[i]);
}

/// Without a target the match is the boundary of the sequence: its first
/// keyframe for a start, its last for an end.
pub proof fn law_match_boundary(keyframes: Seq<Timestamp>)
    requires
        keyframes.len() >= 1,
    ensures
        match_of(keyframes, None, Role::Start) == Ok::<KeyframeMatch, CutError>(
            KeyframeMatch::Boundary(keyframes[0]),
        ),
        match_of(keyframes, None, Role::End) == Ok::<KeyframeMatch, CutError>(
            KeyframeMatch::Boundary(keyframes[keyframes.len() - 1]),
        ),
{
}

/// A target before the first keyframe of a sorted sequence, or after its
/// last, has no bracketing keyframes: the search fails, and says for which
/// end and target.
pub proof fn law_match_outside(keyframes: Seq<Timestamp>, target: Timestamp, role: Role)
    requires
        sorted(keyframes),
        keyframes.len() == 0 || target < keyframes.first() || keyframes.last() < target,
    ensures
        match_of(keyframes, Some(target), role) == Err::<KeyframeMatch, CutError>(
            CutError::NoBracketingKeyframe { role, target: Some(target) },
        ),
{
    lemma_last_not_after(keyframes, target);
    lemma_first_not_before(keyframes, target);
}

} // verus!
