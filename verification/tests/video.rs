use librcut::operations::cut::StepKind;
use librcut::tool::ToolOutput;
use librcut::video::VideoFile;

fn probed(stdout: &str) -> ToolOutput {
    ToolOutput { code: Some(0), stdout: stdout.to_string(), stderr: String::new() }
}

/// Test if keyframes are properly searched
#[test]
fn test_find_keyframes() {
    let keyframes = vec![0, 2_000_000, 4_000_000, 6_000_000, 8_000_000];

    assert_eq!(
        VideoFile::find_keyframes(&keyframes, (1_500_000, 2_500_000)),
        Ok((0, 4_000_000))
    );

    assert_eq!(
        VideoFile::find_keyframes(&keyframes, (2_500_000, 2_500_000)),
        Ok((2_000_000, 4_000_000))
    );
}

/// Test if suffix is replaced properly
#[test]
fn test_new_with_suffix() {
    // file without absolute path
    assert_eq!(
        VideoFile { path: String::from("file.txt"), ..Default::default() }.new_with_suffix("temp"),
        "file.temp.txt".to_string()
    );

    // file with absolute path
    assert_eq!(
        VideoFile { path: String::from("/etc/file.txt"), ..Default::default() }.new_with_suffix("temp"),
        "/etc/file.temp.txt".to_string()
    );

    // file without extension
    assert_eq!(
        VideoFile { path: String::from("/etc/file"), ..Default::default() }.new_with_suffix("temp"),
        "/etc/file.temp".to_string()
    );

    // multiple existing extensions
    assert_eq!(
        VideoFile { path: String::from("/file.txt.txt"), ..Default::default() }.new_with_suffix("temp"),
        "/file.txt.temp.txt".to_string()
    );
}

#[test]
fn find_keyframes_reports_what_is_missing() {
    let keyframes = vec![2_000_000, 4_000_000];
    assert_eq!(
        VideoFile::find_keyframes(&keyframes, (1_000_000, 3_000_000)),
        Err(("Could not find keyframe for start time 1000000us\n".to_string(), 1))
    );
    assert_eq!(
        VideoFile::find_keyframes(&keyframes, (3_000_000, 5_000_000)),
        Err(("Could not find keyframe for end time 5000000us".to_string(), 1))
    );
    assert_eq!(
        VideoFile::find_keyframes(&vec![], (3, 5)),
        Err((
            "Could not find keyframe for start time 3us\nCould not find keyframe for end time 5us"
                .to_string(),
            1
        ))
    );
}

#[test]
fn probe_region_is_padded_by_five_seconds() {
    assert_eq!(VideoFile::probe_region((7_000_000, 9_000_000)), (2_000_000, 14_000_000));
    assert_eq!(VideoFile::probe_region((1_000_000, u64::MAX - 1)), (0, u64::MAX));
}

#[test]
fn video_keyframes_probe_arguments() {
    let file = VideoFile { path: String::from("in.mkv"), dry_run: false };
    let all = file.keyframes_probe(None);
    assert_eq!(all.program, "ffprobe");
    assert_eq!(
        all.args,
        vec![
            "-loglevel", "error", "-select_streams", "v:0", "-skip_frame", "nokey",
            "-show_frames", "-show_entries", "frame=pts_time", "-of", "csv=print_section=0",
            "in.mkv",
        ]
    );
    let some = file.keyframes_probe(Some((1_000_000, 2_500_000)));
    assert_eq!(
        some.args,
        vec![
            "-loglevel", "error", "-select_streams", "v:0", "-skip_frame", "nokey",
            "-show_frames", "-show_entries", "frame=pts_time", "-of", "csv=print_section=0",
            "-read_intervals", "1000000us%2500000us", "in.mkv",
        ]
    );
}

#[test]
fn video_get_keyframes_reads_and_sorts_lines() {
    let file = VideoFile::default();
    assert_eq!(
        file.get_keyframes(&probed("4.000000\n0.000000\r\n2.000000\n")),
        Ok(vec![0, 2_000_000, 4_000_000])
    );
    assert_eq!(file.get_keyframes(&probed("")), Ok(vec![]));
    assert_eq!(file.get_keyframes(&probed("1.5")), Ok(vec![1_500_000]));
}

#[test]
fn video_get_keyframes_failures() {
    let file = VideoFile::default();
    assert_eq!(
        file.get_keyframes(&probed("1.0\nN/A\n")),
        Err(("Error parsing pts_time from ffprobe".to_string(), 1))
    );
    // an empty line is no timestamp
    assert_eq!(
        file.get_keyframes(&probed("1.0\n\n2.0\n")),
        Err(("Error parsing pts_time from ffprobe".to_string(), 1))
    );
    // more microseconds than fit
    assert_eq!(
        file.get_keyframes(&probed("18446744073710\n")),
        Err(("Error parsing pts_time from ffprobe".to_string(), 1))
    );
    let failed = ToolOutput { code: Some(3), stdout: String::new(), stderr: "no such file".to_string() };
    assert_eq!(file.get_keyframes(&failed), Err(("no such file".to_string(), 3)));
}

#[test]
fn video_find_closest_keyframes_from_probe_output() {
    let file = VideoFile::default();
    let output = probed("0.000000\n2.000000\n4.000000\n6.000000\n8.000000\n");
    assert_eq!(file.find_closest_keyframes((1_500_000, 2_500_000), &output), Ok((0, 4_000_000)));
    assert_eq!(
        file.find_closest_keyframes((1_500_000, 9_000_000), &output),
        Err(("Could not find keyframe for end time 9000000us".to_string(), 1))
    );
}

#[test]
fn video_extract_segment_aligned() {
    let file = VideoFile { path: String::from("/v/in.mkv"), dry_run: false };
    let output = probed("0.000000\n2.000000\n4.000000\n");
    let plan = file.extract_segment((2_000_000, 4_000_000), false, "/v/out.mkv", &output).unwrap();
    assert_eq!(plan.output, "/v/out.mkv");
    assert_eq!(plan.steps.len(), 1);
    assert_eq!(plan.steps[0].kind, StepKind::AlignedCopy);
    assert_eq!(plan.steps[0].source, "/v/in.mkv");
    assert_eq!(plan.steps[0].dest, "/v/out.mkv");
    assert_eq!(plan.steps[0].span, (2_000_000, 4_000_000));
    assert!(plan.steps[0].piece);
}

#[test]
fn video_extract_segment_transcodes_between_keyframes() {
    let file = VideoFile { path: String::from("/v/in.mkv"), dry_run: false };
    let output = probed("0.000000\n2.000000\n4.000000\n");
    let plan = file.extract_segment((2_500_000, 3_000_000), false, "/v/out.mkv", &output).unwrap();
    assert_eq!(plan.steps.len(), 2);
    assert_eq!(plan.steps[0].kind, StepKind::AlignedCopy);
    assert_eq!(plan.steps[0].dest, "/v/in.temp.mkv");
    assert_eq!(plan.steps[0].span, (2_000_000, 4_000_000));
    assert!(!plan.steps[0].piece);
    assert_eq!(plan.steps[1].kind, StepKind::UnalignedTranscode);
    assert_eq!(plan.steps[1].source, "/v/in.temp.mkv");
    assert_eq!(plan.steps[1].dest, "/v/out.mkv");
    assert_eq!(plan.steps[1].span, (500_000, 1_000_000));
    assert_eq!(plan.temp_artifacts(), vec!["/v/in.temp.mkv".to_string()]);

    // forced onto the keyframes: one copy of the wider stretch
    let forced = file.extract_segment((2_500_000, 3_000_000), true, "/v/out.mkv", &output).unwrap();
    assert_eq!(forced.steps.len(), 1);
    assert_eq!(forced.steps[0].span, (2_000_000, 4_000_000));
}

#[test]
fn checked_suffix_of_a_video_file() {
    let file = VideoFile { path: String::from("/v/in.mkv"), dry_run: false };
    assert_eq!(file.checked_new_with_suffix("temp"), Some("/v/in.temp.mkv".to_string()));
    assert_eq!(file.checked_new_with_suffix("te/mp"), None);
}

#[test]
fn cut_between_keyframes() {
    let file = VideoFile { path: String::from("/v/in.mkv"), dry_run: false };
    let aligned = file.cut_between((2, 4), (2, 4), false, "/v/out.mkv").unwrap();
    assert_eq!(aligned.steps.len(), 1);
    assert_eq!(aligned.steps[0].span, (2, 4));
    let cut = file.cut_between((3, 4), (2, 6), false, "/v/out.mkv").unwrap();
    assert_eq!(cut.steps.len(), 2);
    assert_eq!(cut.steps[0].dest, "/v/in.temp.mkv");
    assert_eq!(cut.steps[0].span, (2, 6));
    assert_eq!(cut.steps[1].span, (1, 2));
}
