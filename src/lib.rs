//! Conventional-commit classification: parsing commit messages into typed
//! records, selecting them with filters, choosing the next semantic version,
//! and grouping them into changelog sections.

/// Changelog sections: commits grouped by kind in a fixed order, sorted by scope.
pub mod changelog;
/// Commit records and the message parser.
pub mod commit;
/// The kinds of commit and their changelog titles.
pub mod commit_type;
/// Filters over commits.
pub mod filter;
/// Character-level helpers on which the parsers rest.
pub mod text;
/// Semantic versions and how the next one is chosen.
pub mod version;
