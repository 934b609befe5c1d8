use librcut::operations::keyframes::{
    get_keyframes, keyframes_from_times, keyframes_probe, probe_window, read_frame_times,
    sort_timestamps,
};
use librcut::tool::ToolOutput;
use librcut::util::seconds::parse_seconds;
use librcut::util::text::{decimal, micros};
use librcut::util::{get_file_length, length_from_duration, length_probe};
use librcut::CutError;

fn probed(stdout: &str) -> ToolOutput {
    ToolOutput { code: Some(0), stdout: stdout.to_string(), stderr: String::new() }
}

#[test]
fn seconds_are_read_as_microseconds() {
    assert_eq!(parse_seconds("12.345000"), Some(12_345_000));
    assert_eq!(parse_seconds("0.000000"), Some(0));
    assert_eq!(parse_seconds("0.000001"), Some(1));
    assert_eq!(parse_seconds("1800.000000"), Some(1_800_000_000));
    assert_eq!(parse_seconds("5"), Some(5_000_000));
    assert_eq!(parse_seconds("5."), Some(5_000_000));
    assert_eq!(parse_seconds(".5"), Some(500_000));
    assert_eq!(parse_seconds("1.5"), Some(1_500_000));
    // digits after the sixth are cut off
    assert_eq!(parse_seconds("1.2345678"), Some(1_234_567));
    assert_eq!(parse_seconds("0.9999999"), Some(999_999));
    assert_eq!(parse_seconds("007.5"), Some(7_500_000));
}

#[test]
fn malformed_seconds_are_refused() {
    for text in ["", ".", "N/A", "-1.0", "+1.0", "1e3", "1.2.3", " 1.0", "1.0 ", "1,5", "١.٥", "inf"] {
        assert_eq!(parse_seconds(text), None, "{:?}", text);
    }
}

#[test]
fn seconds_at_the_limit_of_the_timestamp() {
    // u128::MAX is 340282366920938463463374607431768211455
    assert_eq!(
        parse_seconds("340282366920938463463374607431768.211455"),
        Some(u128::MAX)
    );
    assert_eq!(parse_seconds("340282366920938463463374607431768.211456"), None);
    assert_eq!(parse_seconds("340282366920938463463374607431769"), None);
    assert_eq!(parse_seconds("9999999999999999999999999999999999999999999"), None);
}

#[test]
fn numbers_are_written_in_decimal() {
    assert_eq!(decimal(0), "0");
    assert_eq!(decimal(7), "7");
    assert_eq!(decimal(10), "10");
    assert_eq!(decimal(1_500_000), "1500000");
    assert_eq!(decimal(u128::MAX), u128::MAX.to_string());
    assert_eq!(micros(2_500_000), "2500000us");
}

#[test]
fn timestamps_are_sorted() {
    assert_eq!(sort_timestamps(&[]), Vec::<u128>::new());
    assert_eq!(sort_timestamps(&[3, 1, 2, 1, 0]), vec![0, 1, 1, 2, 3]);
    assert_eq!(sort_timestamps(&[1, 2, 3]), vec![1, 2, 3]);
    assert_eq!(sort_timestamps(&[5, 4, 3, 2, 1]), vec![1, 2, 3, 4, 5]);
}

#[test]
fn frame_times_are_read_from_the_document() {
    let stdout = r#"{ "frames": [ { "pts_time": "0.000000" }, { "pts_time": "2.002000", "side": 1 } ] }"#;
    assert_eq!(
        read_frame_times(stdout),
        Some(vec!["0.000000".to_string(), "2.002000".to_string()])
    );
    assert_eq!(read_frame_times(r#"{ "frames": [] }"#), Some(vec![]));
    // not a document, no frames, frames that are no array, a frame without a
    // time, a time that is no string
    assert_eq!(read_frame_times("frames"), None);
    assert_eq!(read_frame_times(r#"{ "format": {} }"#), None);
    assert_eq!(read_frame_times(r#"[ { "pts_time": "0.0" } ]"#), None);
    assert_eq!(read_frame_times(r#"{ "frames": { "pts_time": "0.0" } }"#), None);
    assert_eq!(read_frame_times(r#"{ "frames": [ { "pts": "0.0" } ] }"#), None);
    assert_eq!(read_frame_times(r#"{ "frames": [ { "pts_time": 0.0 } ] }"#), None);
    assert_eq!(read_frame_times(r#"{ "frames": [ "0.0" ] }"#), None);
}

#[test]
fn keyframes_come_sorted_out_of_the_probe() {
    let stdout = r#"{ "frames": [
        { "pts_time": "4.000000" },
        { "pts_time": "0.000000" },
        { "pts_time": "2.000000" }
    ] }"#;
    assert_eq!(get_keyframes(&probed(stdout)), Ok(vec![0, 2_000_000, 4_000_000]));
    assert_eq!(
        keyframes_from_times(&["2.5".to_string(), "1".to_string()]),
        Ok(vec![1_000_000, 2_500_000])
    );
}

#[test]
fn probe_failures() {
    let failed = ToolOutput { code: Some(2), stdout: String::new(), stderr: "in.mkv: No such file".to_string() };
    assert_eq!(
        get_keyframes(&failed),
        Err(CutError::ProbeFailure { exit: Some(2), detail: "in.mkv: No such file".to_string() })
    );
    let killed = ToolOutput { code: None, stdout: String::new(), stderr: String::new() };
    assert_eq!(
        get_keyframes(&killed),
        Err(CutError::ProbeFailure { exit: Some(1), detail: String::new() })
    );
    assert_eq!(
        get_keyframes(&probed("not json")),
        Err(CutError::ProbeFailure { exit: None, detail: "not json".to_string() })
    );
    // one malformed timestamp is fatal; the first is reported
    let stdout = r#"{ "frames": [ { "pts_time": "1.0" }, { "pts_time": "N/A" }, { "pts_time": "x" } ] }"#;
    assert_eq!(
        get_keyframes(&probed(stdout)),
        Err(CutError::ProbeFailure { exit: None, detail: "N/A".to_string() })
    );
}

#[test]
fn probe_window_is_padded_and_saturates() {
    assert_eq!(
        probe_window((Some(7_000_000), Some(9_000_000)), 5_000_000),
        (Some(2_000_000), Some(14_000_000))
    );
    assert_eq!(probe_window((Some(1_000_000), None), 5_000_000), (Some(0), None));
    assert_eq!(probe_window((None, Some(u128::MAX - 1)), 5), (None, Some(u128::MAX)));
    assert_eq!(probe_window((None, None), 5), (None, None));
}

#[test]
fn keyframes_probe_arguments() {
    let all = keyframes_probe("in.mkv", (None, None));
    assert_eq!(all.program, "ffprobe");
    assert_eq!(
        all.args,
        vec![
            "-loglevel", "error", "-select_streams", "v:0", "-skip_frame", "nokey",
            "-show_frames", "-show_entries", "frame=pts_time", "-of", "json", "in.mkv",
        ]
    );
    let both = keyframes_probe("in.mkv", (Some(1_000_000), Some(2_000_000)));
    assert_eq!(both.args[11], "-read_intervals");
    assert_eq!(both.args[12], "1000000us%2000000us");
    assert_eq!(both.args[13], "in.mkv");
    assert_eq!(keyframes_probe("in.mkv", (Some(1_000_000), None)).args[12], "1000000us");
    assert_eq!(keyframes_probe("in.mkv", (None, Some(2_000_000))).args[12], "%2000000us");
}

#[test]
fn file_length_is_read_from_the_document() {
    let stdout = r#"{ "format": { "filename": "recording.mkv", "start_time": "0.000000",
        "duration": "1800.000000", "probe_score": 100 } }"#;
    assert_eq!(get_file_length(&probed(stdout)), Ok(1_800_000_000));
    assert_eq!(length_from_duration("1.5"), Ok(1_500_000));
}

#[test]
fn file_length_failures() {
    let failed = ToolOutput { code: Some(1), stdout: String::new(), stderr: "denied".to_string() };
    assert_eq!(
        get_file_length(&failed),
        Err(CutError::ProbeFailure { exit: Some(1), detail: "denied".to_string() })
    );
    for stdout in ["", "[]", r#"{ "format": 1 }"#, r#"{ "format": { "duration": 1800 } }"#] {
        assert_eq!(
            get_file_length(&probed(stdout)),
            Err(CutError::ProbeFailure { exit: None, detail: stdout.to_string() })
        );
    }
    assert_eq!(
        get_file_length(&probed(r#"{ "format": { "duration": "N/A" } }"#)),
        Err(CutError::ProbeFailure { exit: None, detail: "N/A".to_string() })
    );
}

#[test]
fn length_probe_arguments() {
    let c = length_probe("in.mkv");
    assert_eq!(c.program, "ffprobe");
    assert_eq!(c.args, vec!["-loglevel", "error", "-of", "json", "-i", "in.mkv", "-show_format"]);
}
