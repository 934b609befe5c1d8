use librcut::operations::concat::{concat_files, concat_outcome};
use librcut::operations::split::{split_at, split_every, SegmentRequest};
use librcut::util::lines::split_lines;
use librcut::CutError;

fn request(dest: &str, span: (Option<u128>, Option<u128>)) -> SegmentRequest {
    SegmentRequest { source: "/v/in.mkv".to_string(), dest: dest.to_string(), span }
}

#[test]
fn split_at_gives_two_halves() {
    assert_eq!(
        split_at("/v/in.mkv", "/v/out.mkv", 3_000_000),
        vec![
            request("/v/split_a.out.mkv", (None, Some(3_000_000))),
            request("/v/split_b.out.mkv", (Some(3_000_000), None)),
        ]
    );
}

#[test]
fn split_every_gives_the_parts_in_order() {
    assert_eq!(
        split_every("/v/in.mkv", "/v/out.mkv", 10, 35),
        vec![
            request("/v/split0.out.mkv", (None, Some(10))),
            request("/v/split1.out.mkv", (Some(10), Some(20))),
            request("/v/split2.out.mkv", (Some(20), Some(30))),
            request("/v/split3.out.mkv", (Some(30), None)),
        ]
    );
}

#[test]
fn split_every_at_the_edges() {
    // one whole interval
    assert_eq!(
        split_every("/v/in.mkv", "/v/out.mkv", 10, 10),
        vec![
            request("/v/split0.out.mkv", (None, Some(10))),
            request("/v/split1.out.mkv", (Some(10), None)),
        ]
    );
    // a stream shorter than the interval
    assert_eq!(
        split_every("/v/in.mkv", "/v/out.mkv", 10, 4),
        vec![
            request("/v/split0.out.mkv", (None, Some(10))),
            request("/v/split0.out.mkv", (Some(0), None)),
        ]
    );
    // ordinals of more than one digit
    let parts = split_every("/v/in.mkv", "/v/out.mkv", 1, 12);
    assert_eq!(parts.len(), 13);
    assert_eq!(parts[11], request("/v/split11.out.mkv", (Some(11), Some(12))));
    assert_eq!(parts[12], request("/v/split12.out.mkv", (Some(12), None)));
}

#[test]
fn concat_job_lists_each_file_once() {
    let files = vec!["/v/a.mkv".to_string(), "/v/b c.mkv".to_string()];
    let job = concat_files(&files, "/v/out.mkv");
    assert_eq!(job.manifest, "/v/out.txt");
    assert_eq!(job.listing, "file '/v/a.mkv'\nfile '/v/b c.mkv'\n");
    assert_eq!(job.command.program, "ffmpeg");
    assert_eq!(
        job.command.args,
        vec![
            "-loglevel", "error", "-y", "-f", "concat", "-i", "/v/out.txt", "-c", "copy",
            "/v/out.mkv",
        ]
    );
    assert_eq!(concat_files(&[], "out").listing, "");
    assert_eq!(concat_files(&[], "out").manifest, "out.txt");
}

#[test]
fn concat_outcomes() {
    assert_eq!(concat_outcome(Ok(())), Ok(()));
    assert_eq!(concat_outcome(Err(4)), Err(CutError::ConcatFailure { code: 4 }));
}

fn lines(text: &str) -> Vec<String> {
    split_lines(text).into_iter().map(|line| line.into_iter().collect()).collect()
}

#[test]
fn lines_are_split_as_std_splits_them() {
    for text in ["", "\n", "a", "a\n", "a\nb", "a\r\nb\r\n", "a\n\nb", "a\r", "a\r\r\n", "\r\n", "\n\n", "ab\rc\n"] {
        let expected: Vec<String> = text.lines().map(|l| l.to_string()).collect();
        assert_eq!(lines(text), expected, "{:?}", text);
    }
    assert_eq!(lines("1.0\r\n2.0\n3.0"), vec!["1.0", "2.0", "3.0"]);
}
