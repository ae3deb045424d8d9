//! Vendors a package's sources into a consumer's tree and keeps local edits
//! alive across repeated runs by recording them as patches.
//!
//! A run takes the pristine tree of a package, the consumer's working tree
//! and the store of patch records. For each pristine file it replays the
//! file's patch record on the pristine text, which gives the baseline, and
//! compares the baseline with the local copy: a missing copy is written, a
//! copy that equals the baseline is left alone, and for any other copy the
//! diff from the pristine text to it becomes the new patch record. Local
//! files are never overwritten or deleted.
//!
//! * [`sync`] runs over a whole tree and states what a run guarantees;
//!   [`reconcile`] decides on one file; [`diff`] is the diff engine.
//! * [`manifest`] merges the package's dependencies and features into the
//!   consumer's manifest without touching what the consumer declared.
//! * [`paths`], [`layout`] and [`package`] hold the naming rules;
//!   [`invocation`] reads what a run is asked for.
//! * [`pipeline`] orders the steps around a run: lock, fetch, unpack.
//!
//! Nothing here touches the disk or the network. Trees are handed in as
//! lists of files, and what has to be stored comes back as a list of
//! actions.

pub mod content;
pub mod diff;
pub mod error;
pub mod invocation;
pub mod layout;
pub mod manifest;
pub mod package;
pub mod paths;
pub mod pipeline;
pub mod reconcile;
pub mod sync;
pub mod text;
pub mod tree;
