//! The getter for `file://` sources: it puts a symbolic link to the source
//! at the destination. This module decides what is done and in which order;
//! the caller does it and answers.

use vstd::prelude::*;
use crate::error::{Error, ErrorView};
use crate::paths::{absolute, absolute_path, base_view};
use crate::uri::{parsed_uri, Uri};

verus! {

/// The getter that links instead of copying.
pub struct File;

/// The two paths of a link, absolute and cleaned.
#[derive(Debug)]
pub struct LinkPlan {
    /// Where the link points.
    pub source: String,
    /// Where the link is put.
    pub dest: String,
}

/// The paths of the link for a destination and a `file://` source: what
/// follows the scheme of the source, and the destination, both made absolute
/// against `base` and cleaned.
pub open spec fn link_plan(dest: Seq<char>, source: Seq<char>, base: Option<Seq<char>>) -> Result<
    (Seq<char>, Seq<char>),
    ErrorView,
> {
    match parsed_uri(source) {
        None => Err(ErrorView::UrlParseError),
        Some(uri) => planned(dest, uri.resource, base),
    }
}

/// The paths of the link for a destination and what follows the scheme of a
/// parsed source, both made absolute against `base` and cleaned.
pub open spec fn planned(dest: Seq<char>, resource: Seq<char>, base: Option<Seq<char>>) -> Result<
    (Seq<char>, Seq<char>),
    ErrorView,
> {
    match absolute(resource, base) {
        Err(e) => Err(e),
        Ok(from) => match absolute(dest, base) {
            Err(e) => Err(e),
            Ok(to) => Ok((from, to)),
        },
    }
}

/// One thing that the caller is asked to do or to find out.
#[derive(Clone, Copy, Debug, PartialEq, Eq, Structural)]
pub enum LinkStep {
    /// Does the source exist?
    CheckSource,
    /// Is there anything at the destination? Every entry counts, a
    /// symbolic link whose target is gone included.
    CheckDest,
    /// Is the destination a symbolic link?
    InspectDest,
    /// Remove the destination.
    RemoveDest,
    /// Create the directories above the destination.
    CreateParents,
    /// Create the symbolic link.
    Link,
}

/// What the caller answers to a step: yes or done, no, or that the file
/// system refused.
#[derive(Clone, Copy, Debug, PartialEq, Eq, Structural)]
pub enum Answer {
    Yes,
    No,
    Failed,
}

/// How a fetch goes on after an answer: with another step, or not at all.
#[derive(Debug)]
pub enum Progress {
    Next(LinkStep),
    Done(Result<(), Error>),
}

/// A [`Progress`] with its error by its view.
pub enum ProgressView {
    Next(LinkStep),
    Done(Result<(), ErrorView>),
}

impl View for Progress {
    type V = ProgressView;

    open spec fn view(&self) -> ProgressView {
        match self {
            Progress::Next(step) => ProgressView::Next(*step),
            Progress::Done(Ok(())) => ProgressView::Done(Ok(())),
            Progress::Done(Err(e)) => ProgressView::Done(Err(e@)),
        }
    }
}

/// What follows `step` once the caller has answered it.
///
/// A missing source ends the fetch. A destination that exists is looked at:
/// a symbolic link is removed, anything else ends the fetch and is left as
/// it is. Then the directories are created and the link is made.
pub open spec fn advanced(step: LinkStep, answer: Answer) -> ProgressView {
    match step {
        LinkStep::CheckSource => match answer {
            Answer::Yes => ProgressView::Next(LinkStep::CheckDest),
            Answer::No => ProgressView::Done(Err(ErrorView::SourceNotFound)),
            Answer::Failed => ProgressView::Done(Err(ErrorView::Io)),
        },
        LinkStep::CheckDest => match answer {
            Answer::Yes => ProgressView::Next(LinkStep::InspectDest),
            Answer::No => ProgressView::Next(LinkStep::CreateParents),
            Answer::Failed => ProgressView::Done(Err(ErrorView::Io)),
        },
        LinkStep::InspectDest => match answer {
            Answer::Yes => ProgressView::Next(LinkStep::RemoveDest),
            Answer::No => ProgressView::Done(Err(ErrorView::DestinationExists)),
            Answer::Failed => ProgressView::Done(Err(ErrorView::Io)),
        },
        LinkStep::RemoveDest => match answer {
            Answer::Yes => ProgressView::Next(LinkStep::CreateParents),
            _ => ProgressView::Done(Err(ErrorView::Io)),
        },
        LinkStep::CreateParents => match answer {
            Answer::Yes => ProgressView::Next(LinkStep::Link),
            _ => ProgressView::Done(Err(ErrorView::DestinationNotCreated)),
        },
        LinkStep::Link => match answer {
            Answer::Yes => ProgressView::Done(Ok(())),
            _ => ProgressView::Done(Err(ErrorView::Io)),
        },
    }
}

/// The place of a step in the order in which steps can follow each other.
pub open spec fn rank(step: LinkStep) -> nat {
    match step {
        LinkStep::CheckSource => 0,
        LinkStep::CheckDest => 1,
        LinkStep::InspectDest => 2,
        LinkStep::RemoveDest => 3,
        LinkStep::CreateParents => 4,
        LinkStep::Link => 5,
    }
}

/// What a fetch does from `step` on, given the answers in the order in
/// which the caller gives them: the steps it asks for, and how it ends, if
/// the answers suffice to end it.
pub open spec fn run(step: LinkStep, answers: Seq<Answer>) -> (
    Seq<LinkStep>,
    Option<Result<(), ErrorView>>,
)
    decreases answers.len(),
{
    if answers.len() == 0 {
        (seq![step], None)
    } else {
        match advanced(step, answers[0]) {
            ProgressView::Done(end) => (seq![step], Some(end)),
            ProgressView::Next(next) => {
                let (steps, end) = run(next, answers.drop_first());
                (seq![step] + steps, end)
            },
        }
    }
}

/// Steps only go forward, so a fetch asks for each step at most once.
pub proof fn lemma_steps_go_forward(step: LinkStep, answer: Answer)
    ensures
        advanced(step, answer) matches ProgressView::Next(next) ==> rank(next) > rank(step),
{
}

/// The destination is removed only after it was found to be a symbolic
/// link.
pub proof fn lemma_only_a_link_is_removed(step: LinkStep, answer: Answer)
    ensures
        advanced(step, answer) == ProgressView::Next(LinkStep::RemoveDest) <==> (step
            == LinkStep::InspectDest && answer == Answer::Yes),
{
}

/// The link is made only after the directories above it were created.
pub proof fn lemma_link_follows_directories(step: LinkStep, answer: Answer)
    ensures
        advanced(step, answer) == ProgressView::Next(LinkStep::Link) <==> (step
            == LinkStep::CreateParents && answer == Answer::Yes),
{
}

/// A fetch succeeds only by making the link.
pub proof fn lemma_success_is_a_link(step: LinkStep, answer: Answer)
    ensures
        advanced(step, answer) == ProgressView::Done(Ok(())) <==> (step == LinkStep::Link && answer
            == Answer::Yes),
{
}

/// A fetch asks for its steps in their order: each step it asks for stands
/// further on than the one before, so there are at most six.
pub proof fn lemma_run_goes_forward(step: LinkStep, answers: Seq<Answer>)
    ensures
        1 <= run(step, answers).0.len() <= 6 - rank(step),
        run(step, answers).0[0] == step,
        forall|j: int|
            0 <= j < run(step, answers).0.len() ==> rank(#[trigger] run(step, answers).0[j])
                >= rank(step) + j,
    decreases answers.len(),
{
    if answers.len() > 0 {
        match advanced(step, answers[0]) {
            ProgressView::Done(_) => {},
            ProgressView::Next(next) => {
                let rest = answers.drop_first();
                lemma_run_goes_forward(next, rest);
                let steps = run(step, answers).0;
                assert forall|j: int| 0 <= j < steps.len() implies rank(#[trigger] steps[j])
                    >= rank(step) + j by {
                    if j > 0 {
                        assert(steps[j] == run(next, rest).0[j - 1]);
                    }
                }
            },
        }
    }
}

/// In every fetch, whatever the answers, the destination is removed only
/// directly after it was found to be a symbolic link.
pub proof fn lemma_run_removes_only_links(step: LinkStep, answers: Seq<Answer>, i: int)
    requires
        0 <= i < run(step, answers).0.len(),
        run(step, answers).0[i] == LinkStep::RemoveDest,
        step != LinkStep::RemoveDest,
    ensures
        0 < i <= answers.len(),
        run(step, answers).0[i - 1] == LinkStep::InspectDest,
        answers[i - 1] == Answer::Yes,
    decreases answers.len(),
{
    if answers.len() > 0 {
        match advanced(step, answers[0]) {
            ProgressView::Done(_) => {},
            ProgressView::Next(next) => {
                let rest = answers.drop_first();
                lemma_run_goes_forward(next, rest);
                assert(run(step, answers).0[i] == run(next, rest).0[i - 1]);
                if next == LinkStep::RemoveDest {
                    assert(rank(run(next, rest).0[i - 1]) >= rank(next) + (i - 1));
                    assert(i == 1);
                } else {
                    lemma_run_removes_only_links(next, rest, i - 1);
                    assert(rest[i - 2] == answers[i - 1]);
                }
            },
        }
    }
}

/// A destination that exists and is no symbolic link ends the fetch with
/// the existence conflict, whatever answers might follow: the fetch has
/// only looked, and asks neither to remove nor to create nor to link.
pub proof fn lemma_other_destination_is_left_alone(answers: Seq<Answer>)
    requires
        answers.len() >= 3,
        answers[0] == Answer::Yes,
        answers[1] == Answer::Yes,
        answers[2] == Answer::No,
    ensures
        run(LinkStep::CheckSource, answers) == (
            seq![LinkStep::CheckSource, LinkStep::CheckDest, LinkStep::InspectDest],
            Some(Err::<(), ErrorView>(ErrorView::DestinationExists)),
        ),
{
    let second = answers.drop_first();
    let third = second.drop_first();
    assert(run(LinkStep::InspectDest, third).0 =~= seq![LinkStep::InspectDest]);
    assert(run(LinkStep::CheckDest, second).0 =~= seq![
        LinkStep::CheckDest,
        LinkStep::InspectDest,
    ]);
    assert(run(LinkStep::CheckSource, answers).0 =~= seq![
        LinkStep::CheckSource,
        LinkStep::CheckDest,
        LinkStep::InspectDest,
    ]);
}

/// A missing source ends the fetch at once, whatever answers might follow.
pub proof fn lemma_missing_source_ends_the_fetch(answers: Seq<Answer>)
    requires
        answers.len() >= 1,
        answers[0] == Answer::No,
    ensures
        run(LinkStep::CheckSource, answers) == (
            seq![LinkStep::CheckSource],
            Some(Err::<(), ErrorView>(ErrorView::SourceNotFound)),
        ),
{
}

impl File {
    /// The paths of the link for `dest` and the `file://` source `source`,
    /// where relative paths start at `base`.
    pub fn plan(&self, dest: &str, source: &str, base: Option<&str>) -> (r: Result<LinkPlan, Error>)
        ensures
            match r {
                Ok(plan) => link_plan(dest@, source@, base_view(base)) == Ok::<
                    (Seq<char>, Seq<char>),
                    ErrorView,
                >((plan.source@, plan.dest@)),
                Err(e) => link_plan(dest@, source@, base_view(base)) == Err::<
                    (Seq<char>, Seq<char>),
                    ErrorView,
                >(e@),
            },
    {
        let uri = Uri::parse(source)?;
        self.plan_for(dest, &uri, base)
    }

    /// The paths of the link for `dest` and the parsed source `uri`, where
    /// relative paths start at `base`.
    pub fn plan_for(&self, dest: &str, uri: &Uri, base: Option<&str>) -> (r: Result<
        LinkPlan,
        Error,
    >)
        ensures
            match r {
                Ok(plan) => planned(dest@, uri@.resource, base_view(base)) == Ok::<
                    (Seq<char>, Seq<char>),
                    ErrorView,
                >((plan.source@, plan.dest@)),
                Err(e) => planned(dest@, uri@.resource, base_view(base)) == Err::<
                    (Seq<char>, Seq<char>),
                    ErrorView,
                >(e@),
            },
    {
        let from = absolute_path(uri.resource.as_str(), base)?;
        let to = absolute_path(dest, base)?;
        Ok(LinkPlan { source: from, dest: to })
    }

    /// The step that every fetch begins with.
    pub fn first_step(&self) -> (step: LinkStep)
        ensures
            step == LinkStep::CheckSource,
    {
        LinkStep::CheckSource
    }

    /// What follows `step` once the caller has answered it.
    pub fn advance(&self, step: LinkStep, answer: Answer) -> (progress: Progress)
        ensures
            progress@ == advanced(step, answer),
    {
        match step {
            LinkStep::CheckSource => match answer {
                Answer::Yes => Progress::Next(LinkStep::CheckDest),
                Answer::No => Progress::Done(Err(Error::SourceNotFound)),
                Answer::Failed => Progress::Done(Err(Error::Io)),
            },
            LinkStep::CheckDest => match answer {
                Answer::Yes => Progress::Next(LinkStep::InspectDest),
                Answer::No => Progress::Next(LinkStep::CreateParents),
                Answer::Failed => Progress::Done(Err(Error::Io)),
            },
            LinkStep::InspectDest => match answer {
                Answer::Yes => Progress::Next(LinkStep::RemoveDest),
                Answer::No => Progress::Done(Err(Error::DestinationExists)),
                Answer::Failed => Progress::Done(Err(Error::Io)),
            },
            LinkStep::RemoveDest => match answer {
                Answer::Yes => Progress::Next(LinkStep::CreateParents),
                _ => Progress::Done(Err(Error::Io)),
            },
            LinkStep::CreateParents => match answer {
                Answer::Yes => Progress::Next(LinkStep::Link),
                _ => Progress::Done(Err(Error::DestinationNotCreated)),
            },
            LinkStep::Link => match answer {
                Answer::Yes => Progress::Done(Ok(())),
                _ => Progress::Done(Err(Error::Io)),
            },
        }
    }
}

} // verus!
