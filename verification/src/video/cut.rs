use vstd::prelude::*;
use vstd::string::StringExecFns;
use crate::operations::cut::{
    copy_step, step_views, transcode_step, ExtractionPlan, PlanStep, StepKind, StepView,
};
use crate::operations::keyframes::{
    greatest_not_after, least_not_before, lemma_first_not_before, lemma_last_not_after,
    timestamps_of,
};
use crate::tool::ToolOutput;
use crate::util::extensions::{exit_of, suffixed, takes_suffix};
use crate::util::lines::lines_of;
use crate::util::Timestamp;
use crate::video::{
    all_keyframes, around, law_around_values, missing_report, parse_failure, widen, Span, VideoFile,
};

verus! {

/// The steps that cut `region` out of `path`, given the keyframes around it.
/// Where the region lies on the keyframes, or the caller is content with the
/// keyframes, one copy from keyframe to keyframe is the result. Else that
/// copy goes to scratch beside the source, named after it with the suffix
/// `temp`, and the region is cut out of the scratch, whose time starts at
/// zero, by transcoding. There are no steps where the scratch is needed and
/// the source cannot take the suffix.
pub open spec fn region_steps(
    path: Seq<char>,
    dest: Seq<char>,
    region: Span,
    keyframes: Span,
    force_align_keyframes: bool,
) -> Option<Seq<StepView>> {
    let outer = (keyframes.0 as Timestamp, keyframes.1 as Timestamp);
    if force_align_keyframes || (keyframes.0 == region.0 && keyframes.1 == region.1) {
        Some(seq![copy_step(path, dest, outer, true)])
    } else if takes_suffix(path, "temp"@) {
        let offset = if region.0 >= keyframes.0 {
            region.0 - keyframes.0
        } else {
            0
        };
        Some(
            seq![
                copy_step(path, suffixed(path, "temp"@), outer, false),
                transcode_step(
                    suffixed(path, "temp"@),
                    dest,
                    (offset as Timestamp, (offset + (region.1 - region.0)) as Timestamp),
                ),
            ],
        )
    } else {
        None
    }
}

/// What is reported where the scratch cannot be named.
pub open spec fn scratch_failure() -> Seq<char> {
    "Could not name a scratch file beside the source"@
}

/// `r` is the plan of the cut of `region` between `keyframes`, or, where
/// there are no steps for it, the scratch failure with the code 1.
pub open spec fn is_cut_between(
    path: Seq<char>,
    dest: Seq<char>,
    region: Span,
    keyframes: Span,
    force_align_keyframes: bool,
    r: Result<ExtractionPlan, (String, u8)>,
) -> bool {
    match region_steps(path, dest, region, keyframes, force_align_keyframes) {
        Some(steps) => r matches Ok(plan) && step_views(plan.steps@) == steps && plan.output@
            == dest,
        None => r matches Err((text, code)) && code == 1 && text@ == scratch_failure(),
    }
}

/// `r` is what the keyframes `found` around `region` come to for the cut:
/// the report of what is missing around the region, or what the cut between
/// them comes to.
pub open spec fn is_cut_of(
    path: Seq<char>,
    dest: Seq<char>,
    region: Span,
    found: (Option<Timestamp>, Option<Timestamp>),
    force_align_keyframes: bool,
    r: Result<ExtractionPlan, (String, u8)>,
) -> bool {
    match found {
        (Some(start), Some(end)) => is_cut_between(
            path,
            dest,
            region,
            (start as u64, end as u64),
            force_align_keyframes,
            r,
        ),
        (start, end) => r matches Err((text, code)) && code == 1 && text@ == missing_report(
            start is None,
            end is None,
            region,
        ),
    }
}

/// `r` is what the probing tool's output comes to for the cut of `region`:
/// the failure to read the keyframes, or what the closest keyframes around
/// the region come to.
pub open spec fn is_cut_of_lines(
    path: Seq<char>,
    dest: Seq<char>,
    region: Span,
    output: ToolOutput,
    force_align_keyframes: bool,
    r: Result<ExtractionPlan, (String, u8)>,
) -> bool {
    match exit_of(output.code) {
        Err(code) => r matches Err((text, c)) && c == code && text@ == output.stderr@,
        Ok(()) => if all_keyframes(lines_of(output.stdout@)) {
            is_cut_of(
                path,
                dest,
                region,
                (
                    greatest_not_after(timestamps_of(lines_of(output.stdout@)), region.0 as Timestamp),
                    least_not_before(timestamps_of(lines_of(output.stdout@)), region.1 as Timestamp),
                ),
                force_align_keyframes,
                r,
            )
        } else {
            r matches Err((text, c)) && c == 1 && text@ == parse_failure()
        },
    }
}

impl VideoFile {
    /// Plans the cut of `region` out of this file into `dest`, given the
    /// keyframes around the region.
    pub fn cut_between(
        &self,
        region: Span,
        keyframes: Span,
        force_align_keyframes: bool,
        dest: &str,
    ) -> (r: Result<ExtractionPlan, (String, u8)>)
        requires
            region.0 <= region.1,
        ensures
            is_cut_between(self.path@, dest@, region, keyframes, force_align_keyframes, r),
    {
        let outer: (Timestamp, Timestamp) = (keyframes.0 as Timestamp, keyframes.1 as Timestamp);
        let needs_transcoding: bool = keyframes.0 != region.0 || keyframes.1 != region.1;
        let mut steps: Vec<PlanStep> = Vec::new();
        if force_align_keyframes || !needs_transcoding {
            steps.push(
                PlanStep {
                    kind: StepKind::AlignedCopy,
                    source: self.path.clone(),
                    dest: String::from_str(dest),
                    span: outer,
                    piece: true,
                },
            );
        } else {
            let scratch = match self.checked_new_with_suffix("temp") {
                Some(scratch) => scratch,
                None => {
                    return Err(
                        (String::from_str("Could not name a scratch file beside the source"), 1),
                    );
                },
            };
            let offset: u64 = region.0.saturating_sub(keyframes.0);
            let length: u64 = region.1 - region.0;
            steps.push(
                PlanStep {
                    kind: StepKind::AlignedCopy,
                    source: self.path.clone(),
                    dest: scratch.clone(),
                    span: outer,
                    piece: false,
                },
            );
            steps.push(
                PlanStep {
                    kind: StepKind::UnalignedTranscode,
                    source: scratch,
                    dest: String::from_str(dest),
                    span: (offset as Timestamp, (offset + length) as Timestamp),
                    piece: true,
                },
            );
        }
        assert(step_views(steps@) =~= region_steps(
            self.path@,
            dest@,
            region,
            keyframes,
            force_align_keyframes,
        ).unwrap());
        Ok(ExtractionPlan { steps, output: String::from_str(dest) })
    }

    /// Plans the cut of `region` out of this file into `dest`, given the
    /// output of the probing tool for the keyframes around the region.
    pub fn extract_segment(
        &self,
        region: Span,
        force_align_keyframes: bool,
        dest: &str,
        output: &ToolOutput,
    ) -> (r: Result<ExtractionPlan, (String, u8)>)
        requires
            region.0 <= region.1,
        ensures
            is_cut_of_lines(self.path@, dest@, region, *output, force_align_keyframes, r),
    {
        let keyframes = match self.get_keyframes(output) {
            Ok(keyframes) => keyframes,
            Err(e) => {
                return Err(e);
            },
        };
        proof {
            law_around_values(keyframes@, timestamps_of(lines_of(output.stdout@)), region);
        }
        match VideoFile::find_keyframes(&keyframes, region) {
            Ok(found) => self.cut_between(region, found, force_align_keyframes, dest),
            Err(e) => Err(e),
        }
    }
}

/// The keyframes around a region enclose it: the region is cut out of the
/// stretch between them without reaching over either end, and the piece that
/// is cut lasts as long as the region.
pub proof fn law_region_enclosed(keyframes: Seq<u64>, region: Span)
    requires
        region.0 <= region.1,
        around(keyframes, region).0 is Some,
        around(keyframes, region).1 is Some,
    ensures
        ({
            let start = around(keyframes, region).0.unwrap();
            let end = around(keyframes, region).1.unwrap();
            &&& start <= region.0
            &&& region.1 <= end
            &&& (region.0 - start) + (region.1 - region.0) <= end - start
        }),
{
    lemma_last_not_after(widen(keyframes), region.0 as Timestamp);
    lemma_first_not_before(widen(keyframes), region.1 as Timestamp);
}

} // verus!
