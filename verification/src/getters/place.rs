//! A fetch rehearsed on a described place: what stands at the source and at
//! the destination is given as plain values, each step is answered as a file
//! system would answer it, and what the fetch leaves behind is returned.

use vstd::prelude::*;
use crate::error::{Error, ErrorView};
use crate::getters::file::{advanced, rank, Answer, File, LinkPlan, LinkStep, Progress, ProgressView};

verus! {

/// What stands at a path.
#[derive(Debug)]
pub enum Entry {
    /// Nothing.
    Absent,
    /// A symbolic link, with the path it points to.
    Link(String),
    /// A file or a directory, with what it holds.
    Other(Vec<u8>),
}

/// An [`Entry`] by the characters and bytes it holds.
pub enum EntryView {
    Absent,
    Link(Seq<char>),
    Other(Seq<u8>),
}

impl View for Entry {
    type V = EntryView;

    open spec fn view(&self) -> EntryView {
        match self {
            Entry::Absent => EntryView::Absent,
            Entry::Link(target) => EntryView::Link(target@),
            Entry::Other(content) => EntryView::Other(content@),
        }
    }
}

/// The part of a file system that a fetch looks at.
#[derive(Debug)]
pub struct Place {
    /// Whether the source exists.
    pub source: bool,
    /// What stands at the destination.
    pub dest: Entry,
    /// Whether the directories above the destination exist or can be
    /// created.
    pub parents: bool,
}

/// A [`Place`] with its entry by its view.
pub struct PlaceView {
    pub source: bool,
    pub dest: EntryView,
    pub parents: bool,
}

impl View for Place {
    type V = PlaceView;

    open spec fn view(&self) -> PlaceView {
        PlaceView { source: self.source, dest: self.dest@, parents: self.parents }
    }
}

/// How a file system answers `step` at `place`, and the place after the
/// step. Looking changes nothing; removing takes away whatever stands at the
/// destination; a link to `target` can be made where nothing stands and the
/// directories above are there.
pub open spec fn answered(step: LinkStep, target: Seq<char>, place: PlaceView) -> (
    Answer,
    PlaceView,
) {
    match step {
        LinkStep::CheckSource => (if place.source { Answer::Yes } else { Answer::No }, place),
        LinkStep::CheckDest => (
            if place.dest is Absent { Answer::No } else { Answer::Yes },
            place,
        ),
        LinkStep::InspectDest => (
            match place.dest {
                EntryView::Link(_) => Answer::Yes,
                EntryView::Other(_) => Answer::No,
                EntryView::Absent => Answer::Failed,
            },
            place,
        ),
        LinkStep::RemoveDest => if place.dest is Absent {
            (Answer::Failed, place)
        } else {
            (
                Answer::Yes,
                PlaceView { source: place.source, dest: EntryView::Absent, parents: place.parents },
            )
        },
        LinkStep::CreateParents => (
            if place.parents { Answer::Yes } else { Answer::Failed },
            place,
        ),
        LinkStep::Link => if place.dest is Absent && place.parents {
            (
                Answer::Yes,
                PlaceView {
                    source: place.source,
                    dest: EntryView::Link(target),
                    parents: place.parents,
                },
            )
        } else {
            (Answer::Failed, place)
        },
    }
}

/// How a fetch that stands at `step` ends at `place`, and the place it
/// leaves behind.
pub open spec fn fetched_from(step: LinkStep, target: Seq<char>, place: PlaceView) -> (
    Result<(), ErrorView>,
    PlaceView,
)
    decreases 6 - rank(step),
{
    let (answer, after) = answered(step, target, place);
    match advanced(step, answer) {
        ProgressView::Done(end) => (end, after),
        ProgressView::Next(next) => fetched_from(next, target, after),
    }
}

/// How a fetch of a link to `target` ends at `place`, and the place it
/// leaves behind.
pub open spec fn fetched(target: Seq<char>, place: PlaceView) -> (Result<(), ErrorView>, PlaceView) {
    fetched_from(LinkStep::CheckSource, target, place)
}

/// Whatever stands at the destination and is no symbolic link ends the
/// fetch with the existence conflict and is left as it is, with what it
/// holds; the source is left alone and no link is made.
pub proof fn lemma_other_entry_is_kept(target: Seq<char>, place: PlaceView)
    requires
        place.source,
        place.dest is Other,
    ensures
        fetched(target, place) == (Err::<(), ErrorView>(ErrorView::DestinationExists), place),
{
    reveal_with_fuel(fetched_from, 4);
}

/// What is no symbolic link is never changed, whether the source exists or
/// not.
pub proof fn lemma_other_entry_is_never_changed(target: Seq<char>, place: PlaceView)
    requires
        place.dest is Other,
    ensures
        fetched(target, place).1 == place,
        fetched(target, place).0 is Err,
{
    reveal_with_fuel(fetched_from, 4);
}

/// A missing source ends the fetch and changes nothing.
pub proof fn lemma_missing_source_changes_nothing(target: Seq<char>, place: PlaceView)
    requires
        !place.source,
    ensures
        fetched(target, place) == (Err::<(), ErrorView>(ErrorView::SourceNotFound), place),
{
    reveal_with_fuel(fetched_from, 2);
}

/// A fetch into a fresh destination makes the link to the source.
pub proof fn lemma_fresh_destination_is_linked(target: Seq<char>, place: PlaceView)
    requires
        place.source,
        place.dest is Absent,
        place.parents,
    ensures
        fetched(target, place) == (
            Ok::<(), ErrorView>(()),
            PlaceView { source: true, dest: EntryView::Link(target), parents: true },
        ),
{
    reveal_with_fuel(fetched_from, 5);
}

/// A link at the destination, wherever it points, is replaced by the link
/// to the source.
pub proof fn lemma_link_is_replaced(target: Seq<char>, place: PlaceView)
    requires
        place.source,
        place.dest is Link,
        place.parents,
    ensures
        fetched(target, place) == (
            Ok::<(), ErrorView>(()),
            PlaceView { source: true, dest: EntryView::Link(target), parents: true },
        ),
{
    reveal_with_fuel(fetched_from, 7);
}

/// Fetching twice is fetching once: after a fetch that succeeded, a second
/// one succeeds and leaves the place as the first left it.
pub proof fn lemma_fetch_is_idempotent(target: Seq<char>, place: PlaceView)
    requires
        fetched(target, place).0 is Ok,
    ensures
        fetched(target, fetched(target, place).1) == fetched(target, place),
{
    reveal_with_fuel(fetched_from, 7);
    let after = fetched(target, place).1;
    assert(place.source && place.parents && !(place.dest is Other));
    if place.dest is Absent {
        lemma_fresh_destination_is_linked(target, place);
    } else {
        lemma_link_is_replaced(target, place);
    }
    lemma_link_is_replaced(target, after);
}

impl File {
    /// Answers `step` as the file system at `place` would, and changes
    /// `place` as the step would.
    pub fn answer_at(step: LinkStep, target: &str, place: &mut Place) -> (answer: Answer)
        ensures
            (answer, final(place)@) == answered(step, target@, old(place)@),
    {
        match step {
            LinkStep::CheckSource => if place.source {
                Answer::Yes
            } else {
                Answer::No
            },
            LinkStep::CheckDest => match &place.dest {
                Entry::Absent => Answer::No,
                _ => Answer::Yes,
            },
            LinkStep::InspectDest => match &place.dest {
                Entry::Link(_) => Answer::Yes,
                Entry::Other(_) => Answer::No,
                Entry::Absent => Answer::Failed,
            },
            LinkStep::RemoveDest => {
                let present = match &place.dest {
                    Entry::Absent => false,
                    _ => true,
                };
                if present {
                    place.dest = Entry::Absent;
                    Answer::Yes
                } else {
                    Answer::Failed
                }
            },
            LinkStep::CreateParents => if place.parents {
                Answer::Yes
            } else {
                Answer::Failed
            },
            LinkStep::Link => {
                let free = match &place.dest {
                    Entry::Absent => true,
                    _ => false,
                };
                if free && place.parents {
                    place.dest = Entry::Link(target.to_owned());
                    Answer::Yes
                } else {
                    Answer::Failed
                }
            },
        }
    }

    /// Rehearses the fetch of `plan` at `place`: how the fetch ends, and the
    /// place as the fetch leaves it.
    pub fn rehearse(&self, plan: &LinkPlan, place: Place) -> (r: (Result<(), Error>, Place))
        ensures
            fetched(plan.source@, place@) == (
                match r.0 {
                    Ok(()) => Ok::<(), ErrorView>(()),
                    Err(e) => Err::<(), ErrorView>(e@),
                },
                r.1@,
            ),
    {
        let mut here = place;
        let mut step = self.first_step();
        loop
            invariant
                fetched_from(step, plan.source@, here@) == fetched(plan.source@, place@),
            decreases 6 - rank(step),
        {
            let answer = File::answer_at(step, plan.source.as_str(), &mut here);
            match self.advance(step, answer) {
                Progress::Next(next) => {
                    step = next;
                },
                Progress::Done(end) => {
                    return (end, here);
                },
            }
        }
    }
}

} // verus!
