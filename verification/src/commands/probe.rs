use vstd::prelude::*;
use vstd::string::StringExecFns;
use crate::cli::ProbeArgs;
use crate::operations::keyframes::sorted;
use crate::tool::texts;
use crate::util::text::{decimal, decimal_text};
use crate::util::Timestamp;

verus! {

/// The sum of the gaps between neighbouring keyframes.
pub open spec fn gaps_sum(keyframes: Seq<Timestamp>) -> int
    decreases keyframes.len(),
{
    if keyframes.len() < 2 {
        0
    } else {
        gaps_sum(keyframes.drop_last()) + (keyframes[keyframes.len() - 1] - keyframes[keyframes.len()
            - 2])
    }
}

/// The gaps between the neighbouring keyframes of a sorted sequence add up
/// to the distance from the first keyframe to the last.
pub proof fn law_gaps_telescope(keyframes: Seq<Timestamp>)
    requires
        sorted(keyframes),
        keyframes.len() >= 1,
    ensures
        gaps_sum(keyframes) == keyframes.last() - keyframes.first(),
    decreases keyframes.len(),
{
    if keyframes.len() >= 2 {
        let rest = keyframes.drop_last();
        assert forall|i: int, j: int| 0 <= i <= j < rest.len() implies rest[i] <= rest[j] by {
            assert(keyframes[i] <= keyframes[j]);
        }
        law_gaps_telescope(rest);
    }
}

/// The keyframes, one on a line.
pub open spec fn keyframe_lines(keyframes: Seq<Timestamp>) -> Seq<Seq<char>> {
    Seq::new(keyframes.len(), |i: int| decimal_text(keyframes[i] as nat))
}

/// The report on a file: its name, the number of its keyframes, the time per
/// keyframe and the mean gap between neighbouring keyframes, both in whole
/// milliseconds, the length that was measured and the last keyframe. The
/// name stands between double quotes as it is: nothing in it is escaped.
pub open spec fn report_lines(input: Seq<char>, keyframes: Seq<Timestamp>, length: Timestamp) -> Seq<
    Seq<char>,
> {
    seq![
        "Probing file \""@ + input + "\":"@,
        "Total keyframes: "@ + decimal_text(keyframes.len()),
        "Keyframe freq: 1/"@ + decimal_text((((length as int) / 1_000) / (keyframes.len() as int)) as nat)
            + "ms"@,
        "Keyframe avg spacing: "@ + decimal_text(
            ((gaps_sum(keyframes) / (keyframes.len() - 1)) / 1_000) as nat,
        ) + "ms"@,
        "Duration (ffprobe): "@ + decimal_text(length as nat),
        "Duration (last keyframe): "@ + decimal_text(keyframes.last() as nat),
    ]
}

/// What a probe of a file comes to in lines to print: the keyframes alone
/// where only they are asked for, else the report.
pub open spec fn probe_lines(args: ProbeArgs, keyframes: Seq<Timestamp>, length: Timestamp) -> Seq<
    Seq<char>,
> {
    if args.keyframes {
        keyframe_lines(keyframes)
    } else {
        report_lines(args.input@, keyframes, length)
    }
}

/// Writes up the probe of a file with the given keyframes and length. The
/// report speaks of the gaps between keyframes: it needs two keyframes at
/// least, in ascending order.
pub fn probe_file(args: &ProbeArgs, keyframes: &[Timestamp], length: Timestamp) -> (r: Vec<String>)
    requires
        !args.keyframes ==> keyframes@.len() >= 2 && sorted(keyframes@),
    ensures
        texts(r@) == probe_lines(*args, keyframes@, length),
{
    let mut r: Vec<String> = Vec::new();
    if args.keyframes {
        let mut i: usize = 0;
        while i < keyframes.len()
            invariant
                i <= keyframes.len(),
                r.len() == i,
                forall|j: int|
                    0 <= j < i ==> (#[trigger] r@[j])@ == decimal_text(keyframes@[j] as nat),
            decreases keyframes.len() - i,
        {
            r.push(decimal(keyframes[i]));
            i += 1;
        }
        assert(texts(r@) =~= keyframe_lines(keyframes@));
        return r;
    }
    let count: usize = keyframes.len();
    let first: Timestamp = keyframes[0];
    let last: Timestamp = keyframes[count - 1];
    proof {
        law_gaps_telescope(keyframes@);
    }
    let spacing: u128 = ((last - first) / ((count - 1) as u128)) / 1_000;
    let frequency: u128 = (length / 1_000) / (count as u128);

    let mut name = String::from_str("Probing file \"");
    name.append(args.input.as_str());
    name.append("\":");
    r.push(name);

    let mut total = String::from_str("Total keyframes: ");
    total.append(decimal(count as u128).as_str());
    r.push(total);

    let mut freq = String::from_str("Keyframe freq: 1/");
    freq.append(decimal(frequency).as_str());
    freq.append("ms");
    r.push(freq);

    let mut gap = String::from_str("Keyframe avg spacing: ");
    gap.append(decimal(spacing).as_str());
    gap.append("ms");
    r.push(gap);

    let mut measured = String::from_str("Duration (ffprobe): ");
    measured.append(decimal(length).as_str());
    r.push(measured);

    let mut end = String::from_str("Duration (last keyframe): ");
    end.append(decimal(last).as_str());
    r.push(end);

    assert(texts(r@) =~= report_lines(args.input@, keyframes@, length));
    r
}

} // verus!
