//! What the getters decide. Reading and writing files and talking to a
//! backend is left to the caller, who reports back what happened.

mod file;
mod place;
mod s3;

pub use self::file::{
    advanced, lemma_link_follows_directories, lemma_missing_source_ends_the_fetch,
    lemma_only_a_link_is_removed, lemma_other_destination_is_left_alone, lemma_run_goes_forward,
    lemma_run_removes_only_links, lemma_steps_go_forward, lemma_success_is_a_link, link_plan,
    planned, rank, run, Answer, File, LinkPlan, LinkStep, Progress, ProgressView,
};
pub use self::place::{
    answered, fetched, fetched_from, lemma_fetch_is_idempotent, lemma_fresh_destination_is_linked,
    lemma_link_is_replaced, lemma_missing_source_changes_nothing, lemma_other_entry_is_kept,
    lemma_other_entry_is_never_changed, Entry, EntryView, Place, PlaceView,
};
pub use self::s3::{first_label, located, object_key, Download, ObjectLocation, S3Getter};
