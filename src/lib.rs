//! Mirrors a collection of version-controlled repositories from a source
//! directory into a destination directory.
//!
//! The library holds the decisions of a mirroring run: which roots are
//! acceptable, which children of the source root are repositories, whether each
//! repository is reused or cloned at the destination, which repositories form the
//! working set, and how a failed fetch is handled. The program around it performs
//! the filesystem and repository operations and hands the outcomes back.
pub mod discovery;
pub mod reconcile;
pub mod setup;
pub mod sync;
