//! The detectors that come with the library.

mod file;
mod github;
mod s3;

pub use self::file::{file_detection, file_source, local_detection, wants_base, File};
pub use self::github::{
    github_detection, github_http_detection, inner_path, lemma_github_needs_a_repository,
    lemma_github_needs_three_pieces, repository_url, with_git_suffix, with_inner_path, Github,
};
pub use self::s3::{
    forced_source, lemma_s3_refuses_other_hosts, lemma_s3_source_is_forced, new_vhost_url, not_s3,
    region_url, s3_detection, s3_http_detection, s3_source, vhost_url, S3,
};
