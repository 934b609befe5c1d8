use vstd::prelude::*;
use vstd::string::StringExecFns;
use crate::util::extensions::{prefixed, PathExt};
use crate::util::text::{decimal, decimal_text};
use crate::util::{Span, Timestamp};

verus! {

/// One extraction that is asked for: `span` of `source`, written to `dest`.
#[derive(Debug, PartialEq, Eq)]
pub struct SegmentRequest {
    pub source: String,
    pub dest: String,
    pub span: Span,
}

/// A `SegmentRequest` as plain values.
pub struct RequestView {
    pub source: Seq<char>,
    pub dest: Seq<char>,
    pub span: Span,
}

impl View for SegmentRequest {
    type V = RequestView;

    open spec fn view(&self) -> RequestView {
        RequestView { source: self.source@, dest: self.dest@, span: self.span }
    }
}

/// The views of a sequence of requests.
pub open spec fn request_views(requests: Seq<SegmentRequest>) -> Seq<RequestView> {
    Seq::new(requests.len(), |i: int| requests[i]@)
}

fn request(source: &str, dest: String, span: Span) -> (r: SegmentRequest)
    ensures
        r@ == (RequestView { source: source@, dest: dest@, span }),
{
    SegmentRequest { source: String::from_str(source), dest, span }
}

/// The two halves of `source` around `time`: the left one, up to `time`,
/// goes to `dest_format` with the prefix `split_a.`, the right one, from
/// `time` on, to `dest_format` with the prefix `split_b.`.
pub open spec fn halves(source: Seq<char>, dest_format: Seq<char>, time: Timestamp) -> Seq<
    RequestView,
> {
    seq![
        RequestView {
            source,
            dest: prefixed(dest_format, "split_a."@),
            span: (None, Some(time)),
        },
        RequestView {
            source,
            dest: prefixed(dest_format, "split_b."@),
            span: (Some(time), None),
        },
    ]
}

/// Splits a file at `time` into two.
pub fn split_at(source: &str, dest_format: &str, time: Timestamp) -> (r: Vec<SegmentRequest>)
    ensures
        request_views(r@) == halves(source@, dest_format@, time),
{
    let mut r: Vec<SegmentRequest> = Vec::new();
    r.push(request(source, dest_format.with_prefix("split_a."), (None, Some(time))));
    r.push(request(source, dest_format.with_prefix("split_b."), (Some(time), None)));
    assert(request_views(r@) =~= halves(source@, dest_format@, time));
    r
}

/// The prefix of the part with the ordinal `i`.
pub open spec fn part_prefix(i: nat) -> Seq<char> {
    "split"@ + decimal_text(i) + "."@
}

/// The part with the ordinal `i` of a file that is cut every `interval`:
/// `interval` long, from `i` intervals into the stream.
pub open spec fn part(source: Seq<char>, dest_format: Seq<char>, interval: Timestamp, i: nat) -> RequestView {
    RequestView {
        source,
        dest: prefixed(dest_format, part_prefix(i)),
        span: (Some((i * interval) as Timestamp), Some(((i + 1) * interval) as Timestamp)),
    }
}

/// The parts of a file of length `file_length` that is cut every `interval`.
/// The first part starts with the stream and is one interval long. It is
/// followed by the parts of one interval each that lie wholly inside the
/// stream. The last part begins where the last whole interval ends, and ends
/// with the stream; it has the number of whole intervals for its ordinal.
pub open spec fn parts(
    source: Seq<char>,
    dest_format: Seq<char>,
    interval: Timestamp,
    file_length: Timestamp,
) -> Seq<RequestView> {
    let count = (file_length / interval) as nat;
    let whole = if count >= 1 {
        (count - 1) as nat
    } else {
        0nat
    };
    seq![
        RequestView {
            source,
            dest: prefixed(dest_format, part_prefix(0)),
            span: (None, Some(interval)),
        },
    ] + Seq::new(whole, |i: int| part(source, dest_format, interval, (i + 1) as nat)) + seq![
        RequestView {
            source,
            dest: prefixed(dest_format, part_prefix(count)),
            span: (Some((interval * count) as Timestamp), None),
        },
    ]
}

fn part_name(dest_format: &str, i: u128) -> (r: String)
    ensures
        r@ == prefixed(dest_format@, part_prefix(i as nat)),
{
    let mut prefix = String::from_str("split");
    prefix.append(decimal(i).as_str());
    prefix.append(".");
    dest_format.with_prefix(prefix.as_str())
}

/// Splits a file of length `file_length` every `interval`.
pub fn split_every(source: &str, dest_format: &str, interval: Timestamp, file_length: Timestamp) -> (r:
    Vec<SegmentRequest>)
    requires
        interval > 0,
    ensures
        request_views(r@) == parts(source@, dest_format@, interval, file_length),
{
    let count: u128 = file_length / interval;
    assert(interval * count <= file_length) by (nonlinear_arith)
        requires
            interval > 0,
            count == file_length / interval,
    ;
    let ghost whole: nat = if count >= 1 {
        (count - 1) as nat
    } else {
        0nat
    };
    let ghost first = seq![
        RequestView {
            source: source@,
            dest: prefixed(dest_format@, part_prefix(0)),
            span: (None, Some(interval)),
        },
    ];
    let mut r: Vec<SegmentRequest> = Vec::new();
    r.push(request(source, part_name(dest_format, 0), (None, Some(interval))));
    assert(request_views(r@) =~= first + Seq::new(
        0,
        |j: int| part(source@, dest_format@, interval, (j + 1) as nat),
    ));
    let mut i: u128 = 1;
    while i < count
        invariant
            1 <= i,
            i <= count || count == 0,
            interval * count <= file_length,
            request_views(r@) == first + Seq::new(
                if count == 0 {
                    0nat
                } else {
                    (i - 1) as nat
                },
                |j: int| part(source@, dest_format@, interval, (j + 1) as nat),
            ),
        decreases count - i,
    {
        assert((i + 1) * interval <= interval * count) by (nonlinear_arith)
            requires
                i + 1 <= count,
        ;
        assert(i * interval <= (i + 1) * interval) by (nonlinear_arith);
        let ghost before = request_views(r@);
        r.push(request(source, part_name(dest_format, i), (Some(i * interval), Some((i + 1) * interval))));
        assert(request_views(r@) =~= before.push(part(source@, dest_format@, interval, i as nat)));
        assert(request_views(r@) =~= first + Seq::new(
            i as nat,
            |j: int| part(source@, dest_format@, interval, (j + 1) as nat),
        ));
        i += 1;
    }
    let ghost before = request_views(r@);
    r.push(request(source, part_name(dest_format, count), (Some(interval * count), None)));
    assert(request_views(r@) =~= before.push(
        RequestView {
            source: source@,
            dest: prefixed(dest_format@, part_prefix(count as nat)),
            span: (Some((interval * count) as Timestamp), None),
        },
    ));
    assert(request_views(r@) =~= parts(source@, dest_format@, interval, file_length));
    r
}

/// The two halves of a split meet at the time of the split, and together
/// they are the whole stream.
pub proof fn law_halves_meet(source: Seq<char>, dest_format: Seq<char>, time: Timestamp)
    ensures
        ({
            let h = halves(source, dest_format, time);
            &&& h.len() == 2
            &&& h[0].span.0 is None
            &&& h[0].span.1 == Some(time)
            &&& h[1].span.0 == Some(time)
            &&& h[1].span.1 is None
        }),
{
}

/// The parts of a stream that is at least one interval long follow each
/// other without a gap: the first starts with the stream, each part ends
/// where the next begins, the last ends with the stream, and every part but
/// the last is exactly one interval long. There is one part more than whole
/// intervals in the stream, and the part at `i` has the ordinal `i`.
pub proof fn law_parts_adjoin(
    source: Seq<char>,
    dest_format: Seq<char>,
    interval: Timestamp,
    file_length: Timestamp,
)
    requires
        0 < interval <= file_length,
    ensures
        ({
            let p = parts(source, dest_format, interval, file_length);
            let count = file_length / interval;
            &&& p.len() == count + 1
            &&& p.first().span.0 is None
            &&& p.last().span.1 is None
            &&& forall|i: int|
                0 <= i < count ==> (#[trigger] p[i]).span.1 == p[i + 1].span.0 && p[i].span.1
                    == Some(((i + 1) * interval) as Timestamp)
            &&& forall|i: int|
                0 <= i <= count ==> (#[trigger] p[i]).dest == prefixed(
                    dest_format,
                    part_prefix(i as nat),
                ) && p[i].source == source
            &&& count * interval <= file_length
        }),
{
    let p = parts(source, dest_format, interval, file_length);
    let count = file_length / interval;
    assert(count >= 1 && count * interval <= file_length) by (nonlinear_arith)
        requires
            0 < interval <= file_length,
            count == file_length / interval,
    ;
    assert(interval * count == count * interval) by (nonlinear_arith);
    assert forall|i: int| 0 <= i <= count implies #[trigger] (i * interval) <= file_length by {
        assert(i * interval <= count * interval) by (nonlinear_arith)
            requires
                0 <= i <= count,
                interval > 0,
        ;
    }
    assert(1 * interval == interval) by (nonlinear_arith);
    assert forall|i: int| 0 <= i < count implies (#[trigger] p[i]).span.1 == p[i + 1].span.0
        && p[i].span.1 == Some(((i + 1) * interval) as Timestamp) by {
        assert((i + 1) * interval <= file_length);
        if i + 1 < count {
            assert(p[i + 1] == part(source, dest_format, interval, (i + 1) as nat));
        } else {
            assert((i + 1) * interval == interval * count);
        }
        if i > 0 {
            assert(p[i] == part(source, dest_format, interval, i as nat));
        }
    }
    assert forall|i: int| 0 <= i <= count implies (#[trigger] p[i]).dest == prefixed(
        dest_format,
        part_prefix(i as nat),
    ) && p[i].source == source by {
        if 0 < i < count {
            assert(p[i] == part(source, dest_format, interval, i as nat));
        }
    }
}

} // verus!
