//! Release resolution: picking the newest published release out of a catalog.
//!
//! A catalog is a list of releases, each with a version and the assets it
//! carries. The resolver keeps the releases that carry a wanted asset, ranks
//! them with a version ordering and answers with the newest one, or with the
//! newest one only if it is newer than the version already in use.
//!
//! - `model`: releases, assets and errors.
//! - `tags`: a version text as a list of tags.
//! - `rank`: how two tags, and two versions, rank.
//! - `strategy`: orderings that callers may give, and the default one.
//! - `resolver`: the filter, the pick of the latest release, the test
//!   against the version in use.
//! - `laws`: what holds of all of these for every input.

pub mod laws;
pub mod model;
pub mod rank;
pub mod resolver;
pub mod strategy;
pub mod tags;
