use librcut::operations::cut::{
    extract_segment, plan, segment_aligned, segment_not_aligned, segment_outcome, ExtractionPlan,
    PlanStep, StepKind,
};
use librcut::tool::ToolOutput;
use librcut::{find_closest_keyframes, match_point, CutError, KeyframeMatch, Role};

const K: [u128; 5] = [0, 2_000_000, 4_000_000, 6_000_000, 8_000_000];

fn copy(source: &str, dest: &str, span: (u128, u128), piece: bool) -> PlanStep {
    PlanStep {
        kind: StepKind::AlignedCopy,
        source: source.to_string(),
        dest: dest.to_string(),
        span,
        piece,
    }
}

fn transcode(source: &str, dest: &str, span: (u128, u128)) -> PlanStep {
    PlanStep {
        kind: StepKind::UnalignedTranscode,
        source: source.to_string(),
        dest: dest.to_string(),
        span,
        piece: true,
    }
}

fn duration(plan: &ExtractionPlan) -> u128 {
    let mut total = 0;
    for step in &plan.steps {
        if step.piece {
            total += step.span.1 - step.span.0;
        }
    }
    total
}

#[test]
fn both_ends_between_keyframes_give_head_mid_tail() {
    let start = match_point(&K, Some(1_500_000), Role::Start).unwrap();
    let end = match_point(&K, Some(2_500_000), Role::End).unwrap();
    assert_eq!(start, KeyframeMatch::Between(0, 1_500_000, 2_000_000));
    assert_eq!(end, KeyframeMatch::Between(2_000_000, 2_500_000, 4_000_000));

    let p = plan("/v/in.mkv", "/v/out.mkv", start, end, None).unwrap();
    assert_eq!(
        p.steps,
        vec![
            copy("/v/in.mkv", "/v/head_extra.out.mkv", (0, 2_000_000), false),
            transcode("/v/head_extra.out.mkv", "/v/head.out.mkv", (1_500_000, 2_000_000)),
            copy("/v/in.mkv", "/v/mid.out.mkv", (2_000_000, 2_000_000), true),
            copy("/v/in.mkv", "/v/tail_extra.out.mkv", (2_000_000, 4_000_000), false),
            transcode("/v/tail_extra.out.mkv", "/v/tail.out.mkv", (0, 500_000)),
        ]
    );
    assert_eq!(p.output, "/v/out.mkv");
    assert_eq!(p.pieces(), vec!["/v/head.out.mkv", "/v/mid.out.mkv", "/v/tail.out.mkv"]);
    assert_eq!(
        p.temp_artifacts(),
        vec![
            "/v/head_extra.out.mkv",
            "/v/head.out.mkv",
            "/v/mid.out.mkv",
            "/v/tail_extra.out.mkv",
            "/v/tail.out.mkv",
        ]
    );
    assert_eq!(duration(&p), 2_500_000 - 1_500_000);
}

#[test]
fn exact_start_gives_two_pieces() {
    let start = match_point(&K, Some(2_000_000), Role::Start).unwrap();
    let end = match_point(&K, Some(2_500_000), Role::End).unwrap();
    assert_eq!(start, KeyframeMatch::Exact(2_000_000));
    assert_eq!(end, KeyframeMatch::Between(2_000_000, 2_500_000, 4_000_000));

    let p = plan("in.mkv", "out.mkv", start, end, None).unwrap();
    assert_eq!(p.pieces(), vec!["mid.out.mkv", "tail.out.mkv"]);
    assert_eq!(
        p.steps,
        vec![
            copy("in.mkv", "mid.out.mkv", (2_000_000, 2_000_000), true),
            copy("in.mkv", "tail_extra.out.mkv", (2_000_000, 4_000_000), false),
            transcode("tail_extra.out.mkv", "tail.out.mkv", (0, 500_000)),
        ]
    );
    assert_eq!(duration(&p), 500_000);
}

#[test]
fn exact_end_gives_head_and_mid() {
    let p = extract_segment("in.mkv", "out.mkv", (Some(1_500_000), Some(6_000_000)), &K, None)
        .unwrap();
    assert_eq!(
        p.steps,
        vec![
            copy("in.mkv", "head_extra.out.mkv", (0, 2_000_000), false),
            transcode("head_extra.out.mkv", "head.out.mkv", (1_500_000, 2_000_000)),
            copy("in.mkv", "mid.out.mkv", (2_000_000, 6_000_000), true),
        ]
    );
    assert_eq!(duration(&p), 4_500_000);
}

#[test]
fn open_span_is_one_copy_of_the_whole() {
    let p = extract_segment("in.mkv", "out.mkv", (None, None), &K, None).unwrap();
    assert_eq!(p.steps, vec![copy("in.mkv", "out.mkv", (0, 8_000_000), true)]);
    assert_eq!(p.pieces(), vec!["out.mkv"]);
    assert!(p.temp_artifacts().is_empty());
    assert!(p.assembly().is_none());
}

#[test]
fn keyframe_to_keyframe_is_one_copy() {
    let p = extract_segment("in.mkv", "out.mkv", (Some(2_000_000), Some(6_000_000)), &K, Some(9_000_000))
        .unwrap();
    assert_eq!(p.steps, vec![copy("in.mkv", "out.mkv", (2_000_000, 6_000_000), true)]);
}

#[test]
fn degenerate_span_on_a_keyframe() {
    let p = extract_segment("in.mkv", "out.mkv", (Some(4_000_000), Some(4_000_000)), &K, None)
        .unwrap();
    assert_eq!(p.steps, vec![copy("in.mkv", "out.mkv", (4_000_000, 4_000_000), true)]);
}

#[test]
fn span_inside_one_gap_is_cut_from_one_scratch_copy() {
    let p = extract_segment("in.mkv", "out.mkv", (Some(2_500_000), Some(3_000_000)), &K, None)
        .unwrap();
    assert_eq!(
        p.steps,
        vec![
            copy("in.mkv", "temp.out.mkv", (2_000_000, 4_000_000), false),
            transcode("temp.out.mkv", "out.mkv", (500_000, 1_000_000)),
        ]
    );
    assert_eq!(p.pieces(), vec!["out.mkv"]);
    assert_eq!(p.temp_artifacts(), vec!["temp.out.mkv"]);
    assert!(p.assembly().is_none());

    // the degenerate span between two keyframes
    let q = extract_segment("in.mkv", "out.mkv", (Some(2_500_000), Some(2_500_000)), &K, None)
        .unwrap();
    assert_eq!(
        q.steps,
        vec![
            copy("in.mkv", "temp.out.mkv", (2_000_000, 4_000_000), false),
            transcode("temp.out.mkv", "out.mkv", (500_000, 500_000)),
        ]
    );
    assert_eq!(duration(&q), 0);
}

#[test]
fn open_end_before_the_end_of_the_stream_gets_a_transcoded_tail() {
    let p = extract_segment("in.mkv", "out.mkv", (Some(4_000_000), None), &K, Some(9_500_000))
        .unwrap();
    assert_eq!(
        p.steps,
        vec![
            copy("in.mkv", "mid.out.mkv", (4_000_000, 8_000_000), true),
            transcode("in.mkv", "tail.out.mkv", (8_000_000, 9_500_000)),
        ]
    );
    assert_eq!(duration(&p), 5_500_000);

    // a stream that ends on its last keyframe needs no tail
    let q = extract_segment("in.mkv", "out.mkv", (Some(4_000_000), None), &K, Some(8_000_000))
        .unwrap();
    assert_eq!(q.steps, vec![copy("in.mkv", "out.mkv", (4_000_000, 8_000_000), true)]);
}

#[test]
fn invalid_spans_are_refused() {
    assert_eq!(
        extract_segment("in.mkv", "out.mkv", (Some(5_000_000), Some(3_000_000)), &K, None),
        Err(CutError::InvalidSpan)
    );
    // a match that does not lie between its keyframes
    assert_eq!(
        plan(
            "in.mkv",
            "out.mkv",
            KeyframeMatch::Between(2_000_000, 1_000_000, 4_000_000),
            KeyframeMatch::Exact(6_000_000),
            None
        ),
        Err(CutError::InvalidSpan)
    );
    assert_eq!(
        plan("in.mkv", "out.mkv", KeyframeMatch::Exact(6), KeyframeMatch::Exact(2), None),
        Err(CutError::InvalidSpan)
    );
    // a start keyframe after the boundary that falls short of the end
    assert_eq!(
        plan("in.mkv", "out.mkv", KeyframeMatch::Exact(9), KeyframeMatch::Boundary(8), Some(10)),
        Err(CutError::InvalidSpan)
    );
}

#[test]
fn missing_keyframes_fail_the_extraction() {
    let k = [5_000_000, 7_000_000];
    assert_eq!(
        extract_segment("in.mkv", "out.mkv", (Some(1_000_000), Some(6_000_000)), &k, None),
        Err(CutError::NoBracketingKeyframe { role: Role::Start, target: Some(1_000_000) })
    );
    assert_eq!(
        extract_segment("in.mkv", "out.mkv", (Some(6_000_000), Some(9_000_000)), &k, None),
        Err(CutError::NoBracketingKeyframe { role: Role::End, target: Some(9_000_000) })
    );
    assert_eq!(
        extract_segment("in.mkv", "out.mkv", (None, None), &[], None),
        Err(CutError::NoBracketingKeyframe { role: Role::Start, target: None })
    );
    assert_eq!(
        find_closest_keyframes(&[], (None, None)),
        Err(CutError::NoBracketingKeyframe { role: Role::Start, target: None })
    );
}

#[test]
fn classification_inside_the_sequence_never_fails() {
    for target in 0..=80u128 {
        let t = target * 100_000;
        for role in [Role::Start, Role::End] {
            match match_point(&K, Some(t), role).unwrap() {
                KeyframeMatch::Exact(x) => {
                    assert_eq!(x, t);
                    assert!(K.contains(&t));
                }
                KeyframeMatch::Between(before, x, after) => {
                    assert_eq!(x, t);
                    assert!(before < t && t < after);
                    assert_eq!(after - before, 2_000_000);
                }
                KeyframeMatch::Boundary(_) => panic!("a target is never a boundary"),
            }
        }
    }
}

#[test]
fn pieces_cover_the_span_for_every_pair_of_targets() {
    for s in 0..=16u128 {
        for e in s..=16u128 {
            let span = (Some(s * 500_000), Some(e * 500_000));
            let p = extract_segment("in.mkv", "out.mkv", span, &K, None).unwrap();
            assert!(!p.steps.is_empty());
            assert!(!p.pieces().is_empty());
            assert_eq!(duration(&p), (e - s) * 500_000);
        }
    }
}

#[test]
fn aligned_copy_command() {
    let c = segment_aligned("in.mkv", "out.mkv", (2_000_000, 4_000_000));
    assert_eq!(c.program, "ffmpeg");
    assert_eq!(
        c.args,
        vec![
            "-i", "in.mkv", "-vcodec", "copy", "-loglevel", "error", "-y", "-acodec", "copy",
            "-ss", "2000000us", "-to", "4000000us", "out.mkv",
        ]
    );
    assert_eq!(copy("in.mkv", "out.mkv", (2_000_000, 4_000_000), true).command(), c);
}

#[test]
fn transcode_command() {
    let c = segment_not_aligned("in.mkv", "out.mkv", (0, 500_000));
    assert_eq!(c.program, "ffmpeg");
    assert_eq!(
        c.args,
        vec![
            "-i", "in.mkv", "-loglevel", "error", "-y", "-acodec", "copy", "-ss", "0us", "-to",
            "500000us", "out.mkv",
        ]
    );
    assert_eq!(transcode("in.mkv", "out.mkv", (0, 500_000)).command(), c);
}

#[test]
fn step_outcomes() {
    let ok = ToolOutput { code: Some(0), stdout: String::new(), stderr: String::new() };
    assert_eq!(segment_outcome(&ok), Ok(()));
    let failed = ToolOutput { code: Some(1), stdout: String::new(), stderr: "bad codec".to_string() };
    assert_eq!(
        segment_outcome(&failed),
        Err(CutError::ExternalToolFailure { code: 1, stderr: "bad codec".to_string() })
    );
}

#[test]
fn assembly_of_several_pieces() {
    let p = extract_segment("/v/in.mkv", "/v/out.mkv", (Some(1_500_000), Some(6_000_000)), &K, None)
        .unwrap();
    let job = p.assembly().unwrap();
    assert_eq!(job.manifest, "/v/out.txt");
    assert_eq!(job.listing, "file '/v/head.out.mkv'\nfile '/v/mid.out.mkv'\n");
    assert_eq!(job.command.program, "ffmpeg");
    assert_eq!(
        job.command.args,
        vec![
            "-loglevel", "error", "-y", "-f", "concat", "-i", "/v/out.txt", "-c", "copy",
            "/v/out.mkv",
        ]
    );
}
