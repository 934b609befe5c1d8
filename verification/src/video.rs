use vstd::prelude::*;
use vstd::string::StringExecFns;
use crate::operations::keyframes::{
    first_not_before, greatest_not_after, last_not_after, law_closest_in_sorted, least_not_before,
    lemma_first_not_before, lemma_last_not_after, position_not_after, position_not_before,
    sort_timestamps, sorted, timestamps_of,
};
use crate::tool::{ToolCommand, ToolCommandView, ToolOutput};
use crate::util::extensions::{
    can_take_suffix, exit_of, suffixed, takes_suffix, CommandOutputExt, PathExt,
};
use crate::util::lines::{line_views, lines_of, split_lines};
use crate::util::seconds::{parse_seconds_chars, timestamp_of};
use crate::util::text::{micros, micros_text};
use crate::util::Timestamp;

pub mod cut;

verus! {

/// A stretch of a stream, from its start to its end, in microseconds.
pub type Span = (u64, u64);

/// A media file, and whether runs on it are only to be shown.
#[derive(Debug, PartialEq, Eq)]
pub struct VideoFile {
    pub path: String,
    pub dry_run: bool,
}

impl Default for VideoFile {
    fn default() -> (r: VideoFile)
        ensures
            r.path@ == Seq::<char>::empty(),
            !r.dry_run,
    {
        VideoFile { path: String::new(), dry_run: false }
    }
}

/// Timestamps of the narrower kind as timestamps of the library.
pub open spec fn widen(keyframes: Seq<u64>) -> Seq<Timestamp> {
    Seq::new(keyframes.len(), |i: int| keyframes[i] as Timestamp)
}

/// How far around a region the keyframes are looked for: five seconds.
pub const PADDING: u64 = 5_000_000;

/// The stretch to probe for the keyframes around `region`: the region
/// widened by the padding on both sides, as far as the numbers go.
pub open spec fn padded_region(region: Span) -> Span {
    (
        if region.0 >= PADDING {
            (region.0 - PADDING) as u64
        } else {
            0
        },
        if region.1 + PADDING <= u64::MAX {
            (region.1 + PADDING) as u64
        } else {
            u64::MAX
        },
    )
}

/// The run of the probing tool that prints the time of every keyframe of the
/// first video stream of `path`, one on a line; with a region, only those
/// inside it.
pub open spec fn region_probe_of(path: Seq<char>, region: Option<Span>) -> ToolCommandView {
    ToolCommandView {
        program: "ffprobe"@,
        args: seq![
            "-loglevel"@,
            "error"@,
            "-select_streams"@,
            "v:0"@,
            "-skip_frame"@,
            "nokey"@,
            "-show_frames"@,
            "-show_entries"@,
            "frame=pts_time"@,
            "-of"@,
            "csv=print_section=0"@,
        ] + (match region {
            Some((start, end)) => seq![
                "-read_intervals"@,
                micros_text(start as u128) + "%"@ + micros_text(end as u128),
            ],
            None => Seq::empty(),
        }) + seq![path],
    }
}

/// The keyframe that a line of the probing tool's output stands for.
pub open spec fn line_keyframe(line: Seq<char>) -> Option<u64> {
    match timestamp_of(line) {
        Some(t) => if t <= u64::MAX {
            Some(t as u64)
        } else {
            None
        },
        None => None,
    }
}

/// Every line stands for a keyframe.
pub open spec fn all_keyframes(lines: Seq<Seq<char>>) -> bool {
    forall|i: int| 0 <= i < lines.len() ==> line_keyframe(#[trigger] lines[i]) is Some
}

/// What is reported where a line stands for no keyframe.
pub open spec fn parse_failure() -> Seq<char> {
    "Error parsing pts_time from ffprobe"@
}

/// `r` is what the output of the probing tool comes to: the tool's
/// diagnostics and code where it failed; the keyframes of the lines in
/// ascending order where every line stands for one; else the parse failure
/// with the code 1.
pub open spec fn is_keyframes_of_lines(output: ToolOutput, r: Result<Vec<u64>, (String, u8)>) -> bool {
    match exit_of(output.code) {
        Err(code) => r matches Err((text, c)) && c == code && text@ == output.stderr@,
        Ok(()) => if all_keyframes(lines_of(output.stdout@)) {
            &&& r matches Ok(keyframes)
            &&& sorted(widen(keyframes@))
            &&& widen(keyframes@).to_multiset() == timestamps_of(
                lines_of(output.stdout@),
            ).to_multiset()
        } else {
            r matches Err((text, c)) && c == 1 && text@ == parse_failure()
        },
    }
}

/// The keyframes around `region`: the last that is not after its start, and
/// the first that is not before its end.
pub open spec fn around(keyframes: Seq<u64>, region: Span) -> (Option<u64>, Option<u64>) {
    (
        match last_not_after(widen(keyframes), region.0 as Timestamp) {
            Some(i) => Some(keyframes[i]),
            None => None,
        },
        match first_not_before(widen(keyframes), region.1 as Timestamp) {
            Some(i) => Some(keyframes[i]),
            None => None,
        },
    )
}

/// The report of the keyframes that are missing around `region`: a line for
/// the start, then one for the end.
pub open spec fn missing_report(start_missing: bool, end_missing: bool, region: Span) -> Seq<char> {
    (if start_missing {
        "Could not find keyframe for start time "@ + micros_text(region.0 as u128) + "\n"@
    } else {
        Seq::empty()
    }) + (if end_missing {
        "Could not find keyframe for end time "@ + micros_text(region.1 as u128)
    } else {
        Seq::empty()
    })
}

/// `r` is the pair of keyframes around `region`, or, where one is missing,
/// the report of what is missing with the code 1.
pub open spec fn is_around(keyframes: Seq<u64>, region: Span, r: Result<Span, (String, u8)>) -> bool {
    match around(keyframes, region) {
        (Some(start), Some(end)) => r == Ok::<Span, (String, u8)>((start, end)),
        (start, end) => r matches Err((text, code)) && code == 1 && text@ == missing_report(
            start is None,
            end is None,
            region,
        ),
    }
}

/// `r` is the pair of the closest values around `region`: the greatest that
/// is not after its start and the least that is not before its end; or,
/// where one is missing, the report of what is missing with the code 1.
pub open spec fn is_closest(values: Seq<Timestamp>, region: Span, r: Result<Span, (String, u8)>) -> bool {
    match (
        greatest_not_after(values, region.0 as Timestamp),
        least_not_before(values, region.1 as Timestamp),
    ) {
        (Some(start), Some(end)) => r matches Ok(found) && found.0 == start && found.1 == end,
        (start, end) => r matches Err((text, code)) && code == 1 && text@ == missing_report(
            start is None,
            end is None,
            region,
        ),
    }
}

/// `r` is what the probing tool's output comes to for `region`: the failure
/// to read the keyframes, or the closest keyframes around the region.
pub open spec fn is_closest_of_lines(output: ToolOutput, region: Span, r: Result<Span, (String, u8)>) -> bool {
    match exit_of(output.code) {
        Err(code) => r matches Err((text, c)) && c == code && text@ == output.stderr@,
        Ok(()) => if all_keyframes(lines_of(output.stdout@)) {
            is_closest(timestamps_of(lines_of(output.stdout@)), region, r)
        } else {
            r matches Err((text, c)) && c == 1 && text@ == parse_failure()
        },
    }
}

/// Around a region, sorted keyframes hold at their positions what their
/// values hold in any order: the closest values on both sides.
pub proof fn law_around_values(keyframes: Seq<u64>, values: Seq<Timestamp>, region: Span)
    requires
        sorted(widen(keyframes)),
        widen(keyframes).to_multiset() == values.to_multiset(),
    ensures
        match around(keyframes, region).0 {
            Some(start) => greatest_not_after(values, region.0 as Timestamp) == Some(
                start as Timestamp,
            ),
            None => greatest_not_after(values, region.0 as Timestamp) is None,
        },
        match around(keyframes, region).1 {
            Some(end) => least_not_before(values, region.1 as Timestamp) == Some(end as Timestamp),
            None => least_not_before(values, region.1 as Timestamp) is None,
        },
{
    let wide = widen(keyframes);
    law_closest_in_sorted(wide, values, region.0 as Timestamp);
    law_closest_in_sorted(wide, values, region.1 as Timestamp);
    lemma_last_not_after(wide, region.0 as Timestamp);
    lemma_first_not_before(wide, region.1 as Timestamp);
}

/// The keyframes around a region are the closest ones among sorted
/// keyframes: the greatest that is not after its start and the least that is
/// not before its end. One is missing only where there is none on that
/// side.
pub proof fn law_around_closest(keyframes: Seq<u64>, region: Span)
    requires
        sorted(widen(keyframes)),
    ensures
        match around(keyframes, region).0 {
            Some(start) => {
                &&& keyframes.contains(start)
                &&& start <= region.0
                &&& forall|i: int|
                    0 <= i < keyframes.len() && keyframes[i] <= region.0 ==> keyframes[i] <= start
            },
            None => forall|i: int| 0 <= i < keyframes.len() ==> keyframes[i] > region.0,
        },
        match around(keyframes, region).1 {
            Some(end) => {
                &&& keyframes.contains(end)
                &&& region.1 <= end
                &&& forall|i: int|
                    0 <= i < keyframes.len() && region.1 <= keyframes[i] ==> end <= keyframes[i]
            },
            None => forall|i: int| 0 <= i < keyframes.len() ==> keyframes[i] < region.1,
        },
{
    let wide = widen(keyframes);
    lemma_last_not_after(wide, region.0 as Timestamp);
    lemma_first_not_before(wide, region.1 as Timestamp);
    assert forall|i: int| 0 <= i < keyframes.len() implies wide[i] == keyframes[i] by {}
    match last_not_after(wide, region.0 as Timestamp) {
        Some(p) => {
            assert(keyframes[p] == wide[p]);
            assert forall|i: int|
                0 <= i < keyframes.len() && keyframes[i] <= region.0 implies keyframes[i]
                <= keyframes[p] by {
                assert(wide[i] == keyframes[i]);
                if i > p {
                    assert(wide[i] > region.0);
                } else {
                    assert(wide[i] <= wide[p]);
                }
            }
        },
        None => {
            assert forall|i: int| 0 <= i < keyframes.len() implies keyframes[i] > region.0 by {
                assert(wide[i] == keyframes[i]);
            }
        },
    }
    match first_not_before(wide, region.1 as Timestamp) {
        Some(p) => {
            assert(keyframes[p] == wide[p]);
            assert forall|i: int|
                0 <= i < keyframes.len() && region.1 <= keyframes[i] implies keyframes[p]
                <= keyframes[i] by {
                assert(wide[i] == keyframes[i]);
                if i < p {
                    assert(wide[i] < region.1);
                } else {
                    assert(wide[p] <= wide[i]);
                }
            }
        },
        None => {
            assert forall|i: int| 0 <= i < keyframes.len() implies keyframes[i] < region.1 by {
                assert(wide[i] == keyframes[i]);
            }
        },
    }
}

fn widened(keyframes: &Vec<u64>) -> (r: Vec<Timestamp>)
    ensures
        r@ == widen(keyframes@),
{
    let mut r: Vec<Timestamp> = Vec::new();
    let mut i: usize = 0;
    while i < keyframes.len()
        invariant
            i <= keyframes.len(),
            r@ == widen(keyframes@.take(i as int)),
        decreases keyframes.len() - i,
    {
        r.push(keyframes[i] as Timestamp);
        assert(r@ =~= widen(keyframes@.take(i + 1)));
        i += 1;
    }
    assert(keyframes@.take(keyframes.len() as int) =~= keyframes@);
    r
}

impl VideoFile {
    /// The path of this file with `suffix` before its extension: the name
    /// for an output or for scratch beside the file.
    pub fn new_with_suffix(&self, suffix: &str) -> (r: String)
        requires
            takes_suffix(self.path@, suffix@),
        ensures
            r@ == suffixed(self.path@, suffix@),
    {
        self.path.with_suffix(suffix)
    }

    /// The path of this file with `suffix` before its extension, or `None`
    /// where the extension that comes of it would split a path.
    pub fn checked_new_with_suffix(&self, suffix: &str) -> (r: Option<String>)
        ensures
            match r {
                Some(p) => takes_suffix(self.path@, suffix@) && p@ == suffixed(self.path@, suffix@),
                None => !takes_suffix(self.path@, suffix@),
            },
    {
        if can_take_suffix(self.path.as_str(), suffix) {
            Some(self.new_with_suffix(suffix))
        } else {
            None
        }
    }

    /// Widens `region` by the padding, so that the keyframes around it are
    /// caught.
    pub fn probe_region(region: Span) -> (r: Span)
        ensures
            r == padded_region(region),
    {
        (region.0.saturating_sub(PADDING), region.1.saturating_add(PADDING))
    }

    /// The run of the probing tool that finds the keyframes of this file;
    /// with a region, only those inside it.
    pub fn keyframes_probe(&self, region: Option<Span>) -> (r: ToolCommand)
        ensures
            r@ == region_probe_of(self.path@, region),
    {
        let mut command = ToolCommand::new("ffprobe");
        command.arg("-loglevel");
        command.arg("error");
        command.arg("-select_streams");
        command.arg("v:0");
        command.arg("-skip_frame");
        command.arg("nokey");
        command.arg("-show_frames");
        command.arg("-show_entries");
        command.arg("frame=pts_time");
        command.arg("-of");
        command.arg("csv=print_section=0");
        match region {
            Some((start, end)) => {
                let mut interval = micros(start as u128);
                interval.append("%");
                interval.append(micros(end as u128).as_str());
                command.arg("-read_intervals");
                command.arg(interval.as_str());
            },
            None => {},
        }
        command.arg(self.path.as_str());
        assert(command@.args =~= region_probe_of(self.path@, region).args);
        command
    }

    /// Reads the keyframes of this file out of the output of the probing
    /// tool.
    pub fn get_keyframes(&self, output: &ToolOutput) -> (r: Result<Vec<u64>, (String, u8)>)
        ensures
            is_keyframes_of_lines(*output, r),
    {
        match output.to_exitcode() {
            Err(code) => {
                return Err((output.stderr.clone(), code));
            },
            Ok(()) => {},
        }
        let lines = split_lines(output.stdout.as_str());
        let ghost texts = lines_of(output.stdout@);
        let mut times: Vec<Timestamp> = Vec::new();
        let mut i: usize = 0;
        while i < lines.len()
            invariant
                i <= lines.len(),
                line_views(lines@) == texts,
                texts == lines_of(output.stdout@),
                exit_of(output.code) == Ok::<(), u8>(()),
                times.len() == i,
                forall|j: int|
                    0 <= j < i ==> line_keyframe(#[trigger] texts[j]) is Some && timestamp_of(
                        texts[j],
                    ) == Some(times@[j]),
            decreases lines.len() - i,
        {
            proof {
                assert(texts[i as int] == lines@[i as int]@);
            }
            match parse_seconds_chars(lines[i].as_slice()) {
                Some(t) => {
                    if t > u64::MAX as u128 {
                        assert(line_keyframe(texts[i as int]) is None);
                        return Err((String::from_str("Error parsing pts_time from ffprobe"), 1));
                    }
                    times.push(t);
                },
                None => {
                    assert(line_keyframe(texts[i as int]) is None);
                    return Err((String::from_str("Error parsing pts_time from ffprobe"), 1));
                },
            }
            i += 1;
        }
        assert(all_keyframes(texts));
        assert(times@ =~= timestamps_of(texts));
        let ordered = sort_timestamps(times.as_slice());
        proof {
            broadcast use vstd::seq_lib::group_to_multiset_ensures;

            assert forall|j: int| 0 <= j < ordered@.len() implies ordered@[j] <= u64::MAX by {
                assert(ordered@.contains(ordered@[j]));
                assert(ordered@.to_multiset().count(ordered@[j]) > 0);
                assert(times@.contains(ordered@[j]));
            }
        }
        let mut keyframes: Vec<u64> = Vec::new();
        let mut j: usize = 0;
        while j < ordered.len()
            invariant
                j <= ordered.len(),
                forall|k: int| 0 <= k < ordered@.len() ==> ordered@[k] <= u64::MAX,
                keyframes.len() == j,
                widen(keyframes@) == ordered@.take(j as int),
            decreases ordered.len() - j,
        {
            let ghost before = keyframes@;
            assert(ordered@[j as int] <= u64::MAX);
            keyframes.push(ordered[j] as u64);
            assert(keyframes@ == before.push(ordered@[j as int] as u64));
            assert forall|k: int| 0 <= k < j + 1 implies widen(keyframes@)[k] == ordered@.take(
                j + 1,
            )[k] by {
                if k < j {
                    assert(widen(before)[k] == ordered@.take(j as int)[k]);
                }
            }
            assert(widen(keyframes@) =~= ordered@.take(j + 1));
            j += 1;
        }
        assert(ordered@.take(ordered.len() as int) =~= ordered@);
        Ok(keyframes)
    }

    /// Finds the keyframes around `region` among `keyframes`: the result is
    /// never a narrower stretch than the region.
    pub fn find_keyframes(keyframes: &Vec<u64>, region: Span) -> (r: Result<Span, (String, u8)>)
        ensures
            is_around(keyframes@, region, r),
    {
        let wide = widened(keyframes);
        let start = position_not_after(wide.as_slice(), region.0 as Timestamp);
        let end = position_not_before(wide.as_slice(), region.1 as Timestamp);
        proof {
            lemma_last_not_after(wide@, region.0 as Timestamp);
            lemma_first_not_before(wide@, region.1 as Timestamp);
        }
        match (start, end) {
            (Some(i), Some(j)) => Ok((keyframes[i], keyframes[j])),
            (start, end) => {
                let mut report = String::new();
                if start.is_none() {
                    report.append("Could not find keyframe for start time ");
                    report.append(micros(region.0 as u128).as_str());
                    report.append("\n");
                }
                if end.is_none() {
                    report.append("Could not find keyframe for end time ");
                    report.append(micros(region.1 as u128).as_str());
                }
                assert(report@ =~= missing_report(start is None, end is None, region));
                Err((report, 1))
            },
        }
    }

    /// Finds the keyframes around `region` in the output of the probing
    /// tool.
    pub fn find_closest_keyframes(&self, region: Span, output: &ToolOutput) -> (r: Result<
        Span,
        (String, u8),
    >)
        ensures
            is_closest_of_lines(*output, region, r),
    {
        match self.get_keyframes(output) {
            Ok(keyframes) => {
                let r = VideoFile::find_keyframes(&keyframes, region);
                proof {
                    law_around_values(keyframes@, timestamps_of(lines_of(output.stdout@)), region);
                }
                r
            },
            Err(e) => Err(e),
        }
    }
}

} // verus!
