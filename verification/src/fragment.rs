use vstd::prelude::*;
use vstd::string::StringExecFns;
use crate::operations::split::{RequestView, SegmentRequest};
use crate::tool::texts;
use crate::util::extensions::{checked_with_suffix, suffixed, takes_suffix};
use crate::util::text::{decimal, decimal_text};
use crate::util::Span;

verus! {

/// What is wanted as one output file: a file as it is, a stretch of a file,
/// or several such things one after the other.
#[derive(Debug, PartialEq, Eq)]
pub enum MediaFragment {
    Whole(String),
    Segment(String, Span),
    Sequence(Vec<MediaFragment>),
}

/// One piece of work that the evaluation of a fragment asks for.
#[derive(Debug, PartialEq, Eq)]
pub enum Job {
    /// Extract a span of a file.
    Extract(SegmentRequest),
    /// Join `inputs`, in their order, into `output`.
    Concat { inputs: Vec<String>, output: String },
}

/// A `Job` as plain values.
pub enum JobView {
    Extract(RequestView),
    Concat { inputs: Seq<Seq<char>>, output: Seq<char> },
}

impl View for Job {
    type V = JobView;

    open spec fn view(&self) -> JobView {
        match self {
            Job::Extract(request) => JobView::Extract(request@),
            Job::Concat { inputs, output } => JobView::Concat {
                inputs: texts(inputs@),
                output: output@,
            },
        }
    }
}

/// The views of a sequence of jobs.
pub open spec fn job_views(jobs: Seq<Job>) -> Seq<JobView> {
    Seq::new(jobs.len(), |i: int| jobs[i]@)
}

/// The work that a fragment comes to, in the order in which it must be done,
/// and the file that holds the result when it is done.
#[derive(Debug, PartialEq, Eq)]
pub struct Evaluation {
    pub jobs: Vec<Job>,
    pub output: String,
}

/// The file that a job writes.
pub open spec fn job_output(job: JobView) -> Seq<char> {
    match job {
        JobView::Extract(request) => request.dest,
        JobView::Concat { inputs: _, output } => output,
    }
}

/// The files that are left over once the last job has written the result:
/// what every job before it wrote.
pub open spec fn intermediates(jobs: Seq<JobView>) -> Seq<Seq<char>> {
    Seq::new(
        if jobs.len() > 0 {
            (jobs.len() - 1) as nat
        } else {
            0nat
        },
        |i: int| job_output(jobs[i]),
    )
}

impl Evaluation {
    /// The files to remove once the result stands, or once a job has failed.
    pub fn temp_artifacts(&self) -> (r: Vec<String>)
        ensures
            texts(r@) == intermediates(job_views(self.jobs@)),
    {
        let mut r: Vec<String> = Vec::new();
        let n: usize = if self.jobs.len() > 0 {
            self.jobs.len() - 1
        } else {
            0
        };
        let mut i: usize = 0;
        while i < n
            invariant
                i <= n,
                n < self.jobs.len() || n == 0,
                r.len() == i,
                forall|j: int|
                    0 <= j < i ==> (#[trigger] r@[j])@ == job_output(job_views(self.jobs@)[j]),
            decreases n - i,
        {
            let output = match &self.jobs[i] {
                Job::Extract(request) => request.dest.clone(),
                Job::Concat { inputs: _, output } => output.clone(),
            };
            r.push(output);
            i += 1;
        }
        assert(texts(r@) =~= intermediates(job_views(self.jobs@)));
        r
    }
}

/// The hint for the child with the ordinal `i`: the hint with the ordinal
/// before its extension.
pub open spec fn child_hint(hint: Seq<char>, i: nat) -> Seq<char> {
    suffixed(hint, decimal_text(i))
}

/// The file that holds a fragment once its jobs are done: a whole file is its
/// own result, anything else is written to the hint.
pub open spec fn output_of(fragment: MediaFragment, hint: Seq<char>) -> Seq<char> {
    match fragment {
        MediaFragment::Whole(file) => file@,
        _ => hint,
    }
}

/// The results of the children of a sequence, each under its own hint.
pub open spec fn child_outputs(children: Seq<MediaFragment>, hint: Seq<char>) -> Seq<Seq<char>> {
    Seq::new(children.len(), |i: int| output_of(children[i], child_hint(hint, i as nat)))
}

/// The jobs of a fragment, depth first. A whole file needs no work. A
/// segment is one extraction into the hint. A sequence is the jobs of each
/// child in order, each under its own hint, and then the joining of the
/// children's results into the hint.
pub open spec fn jobs_of(fragment: MediaFragment, hint: Seq<char>) -> Seq<JobView>
    decreases fragment, 0nat,
{
    match fragment {
        MediaFragment::Whole(_) => Seq::empty(),
        MediaFragment::Segment(file, span) => seq![
            JobView::Extract(RequestView { source: file@, dest: hint, span }),
        ],
        MediaFragment::Sequence(children) => children_jobs(children@, hint, children@.len())
            + seq![JobView::Concat { inputs: child_outputs(children@, hint), output: hint }],
    }
}

/// The jobs of the first `n` children of a sequence.
pub open spec fn children_jobs(children: Seq<MediaFragment>, hint: Seq<char>, n: nat) -> Seq<
    JobView,
>
    decreases children, n,
{
    if n == 0 || n > children.len() {
        Seq::empty()
    } else {
        children_jobs(children, hint, (n - 1) as nat) + jobs_of(
            children[n - 1],
            child_hint(hint, (n - 1) as nat),
        )
    }
}

/// Every hint that the evaluation of a fragment needs can be derived: the
/// hint of a sequence can take the ordinal of each child, and so on for the
/// children under their own hints.
pub open spec fn derivable(fragment: MediaFragment, hint: Seq<char>) -> bool
    decreases fragment, 0nat,
{
    match fragment {
        MediaFragment::Sequence(children) => children_derivable(children@, hint, children@.len()),
        _ => true,
    }
}

/// The hints of the first `n` children of a sequence can be derived, and
/// theirs.
pub open spec fn children_derivable(children: Seq<MediaFragment>, hint: Seq<char>, n: nat) -> bool
    decreases children, n,
{
    if n == 0 || n > children.len() {
        true
    } else {
        &&& children_derivable(children, hint, (n - 1) as nat)
        &&& takes_suffix(hint, decimal_text((n - 1) as nat))
        &&& derivable(children[n - 1], child_hint(hint, (n - 1) as nat))
    }
}

proof fn lemma_children_derivable(children: Seq<MediaFragment>, hint: Seq<char>, m: nat, n: nat)
    requires
        m <= n <= children.len(),
        children_derivable(children, hint, n),
    ensures
        children_derivable(children, hint, m),
    decreases n,
{
    if m < n {
        lemma_children_derivable(children, hint, m, (n - 1) as nat);
    }
}

fn hint_for(hint: &str, i: usize) -> (r: Option<String>)
    ensures
        match r {
            Some(h) => takes_suffix(hint@, decimal_text(i as nat)) && h@ == child_hint(
                hint@,
                i as nat,
            ),
            None => !takes_suffix(hint@, decimal_text(i as nat)),
        },
{
    checked_with_suffix(hint, decimal(i as u128).as_str())
}

fn evaluate_into(fragment: &MediaFragment, hint: &str, jobs: &mut Vec<Job>) -> (r: Option<String>)
    ensures
        match r {
            Some(output) => {
                &&& derivable(*fragment, hint@)
                &&& job_views(final(jobs)@) == job_views(old(jobs)@) + jobs_of(*fragment, hint@)
                &&& output@ == output_of(*fragment, hint@)
            },
            None => !derivable(*fragment, hint@),
        },
    decreases fragment,
{
    let ghost before = job_views(jobs@);
    match fragment {
        MediaFragment::Whole(file) => {
            assert(before + jobs_of(*fragment, hint@) =~= before);
            Some(file.clone())
        },
        MediaFragment::Segment(file, span) => {
            jobs.push(
                Job::Extract(
                    SegmentRequest { source: file.clone(), dest: String::from_str(hint), span: *span },
                ),
            );
            assert(job_views(jobs@) =~= before + jobs_of(*fragment, hint@));
            Some(String::from_str(hint))
        },
        MediaFragment::Sequence(children) => {
            let mut inputs: Vec<String> = Vec::new();
            let mut i: usize = 0;
            assert(before + children_jobs(children@, hint@, 0) =~= before);
            while i < children.len()
                invariant
                    i <= children.len(),
                    *fragment == MediaFragment::Sequence(*children),
                    children_derivable(children@, hint@, i as nat),
                    job_views(jobs@) == before + children_jobs(children@, hint@, i as nat),
                    inputs.len() == i,
                    forall|j: int|
                        0 <= j < i ==> (#[trigger] inputs@[j])@ == output_of(
                            children@[j],
                            child_hint(hint@, j as nat),
                        ),
                decreases children.len() - i,
            {
                proof {
                    assert(fragment->Sequence_0 == *children);
                    assert(decreases_to!(*fragment => fragment->Sequence_0));
                    assert(decreases_to!(*children => children[i as int]));
                    if children_derivable(children@, hint@, children@.len()) {
                        lemma_children_derivable(
                            children@,
                            hint@,
                            (i + 1) as nat,
                            children@.len(),
                        );
                    }
                }
                let ghost done = job_views(jobs@);
                let child_hint = match hint_for(hint, i) {
                    Some(child_hint) => child_hint,
                    None => {
                        return None;
                    },
                };
                let output = match evaluate_into(&children[i], child_hint.as_str(), jobs) {
                    Some(output) => output,
                    None => {
                        return None;
                    },
                };
                inputs.push(output);
                proof {
                    assert(done + jobs_of(children@[i as int], child_hint@) =~= before + (
                    children_jobs(children@, hint@, i as nat) + jobs_of(
                        children@[i as int],
                        child_hint@,
                    )));
                }
                i += 1;
            }
            let ghost done = job_views(jobs@);
            assert(texts(inputs@) =~= child_outputs(children@, hint@));
            jobs.push(Job::Concat { inputs, output: String::from_str(hint) });
            assert(job_views(jobs@) =~= done.push(
                JobView::Concat { inputs: child_outputs(children@, hint@), output: hint@ },
            ));
            assert(job_views(jobs@) =~= before + jobs_of(*fragment, hint@));
            Some(String::from_str(hint))
        },
    }
}

/// Evaluates a fragment into the jobs that produce it, with `output_hint`
/// for the name of what has to be written. There is no evaluation where a
/// hint that it needs cannot be derived.
pub fn evaluate(fragment: &MediaFragment, output_hint: &str) -> (r: Option<Evaluation>)
    ensures
        match r {
            Some(evaluation) => {
                &&& derivable(*fragment, output_hint@)
                &&& job_views(evaluation.jobs@) == jobs_of(*fragment, output_hint@)
                &&& evaluation.output@ == output_of(*fragment, output_hint@)
            },
            None => !derivable(*fragment, output_hint@),
        },
{
    let mut jobs: Vec<Job> = Vec::new();
    let output = match evaluate_into(fragment, output_hint, &mut jobs) {
        Some(output) => output,
        None => {
            return None;
        },
    };
    assert(job_views(Seq::<Job>::empty()) + jobs_of(*fragment, output_hint@) =~= jobs_of(
        *fragment,
        output_hint@,
    ));
    Some(Evaluation { jobs, output })
}

/// A whole file and a segment can always be evaluated: only a sequence
/// needs hints of its own.
pub proof fn law_leaves_derivable(fragment: MediaFragment, hint: Seq<char>)
    requires
        !(fragment is Sequence),
    ensures
        derivable(fragment, hint),
{
}

} // verus!
