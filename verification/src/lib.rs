//! Merging of kubeconfig documents.
//!
//! Several partial documents, each declaring clusters, contexts and users
//! under names, are folded into one. Within a category the first record of
//! a name wins, the first selected current context wins, and of the
//! preferences the last assignment wins. The references between the merged
//! records are then checked: a current context that does not exist is an
//! error, a context that refers to a missing cluster or user is a warning.
//!
//! - [`config`]: the documents and their records.
//! - [`fields`]: the bags of fields that are carried along unread.
//! - [`merge`]: the merge engine and its specification.
//! - [`merge_laws`]: what holds of every merge, proved.
//! - [`validate`]: the validator.
//! - [`utils`]: file selection, backup names and the summary.
//! - [`text`]: the text helpers the above rest on.

pub mod config;
pub mod fields;
pub mod merge;
pub mod merge_laws;
pub mod text;
pub mod utils;
pub mod validate;
