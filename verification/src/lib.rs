//! The decisions of an attachment harvester, verified.
//!
//! A harvester walks a remote service that lists customers, their projects
//! and the attachments of both, and sub-contractors with theirs. It caches
//! every response on disk, downloads each attachment into a directory tree
//! that mirrors who owns what, and puts the projects that no customer claims
//! into a bucket of their own.
//!
//! This library decides; it does not read or write. A caller makes the
//! requests and touches the disk, and asks here which request comes next,
//! whether a response may be cached, what a downloaded file is called and
//! which directory needs nothing more.
//!
//! - [`cache`]: the file that caches a request path, and the lookup that keeps
//!   bad responses out of the cache.
//! - [`harvest`]: what a customer reports, and which attachments are still to
//!   be downloaded.
//! - [`task`]: the customer task step by step, the report before any
//!   download.
//! - [`reconcile`]: which projects are left when every customer has reported.
//! - [`writer`] and [`naming`]: the name and place of a downloaded file.
//! - [`skip`]: when a directory counts as complete.
//! - [`paths`] and [`layout`]: request paths and directories.
//! - [`auth`]: the authorization headers.
//! - [`model`]: the records of the service.
//! - [`text`]: the work on character sequences that the others share.

pub mod auth;
pub mod cache;
pub mod harvest;
pub mod layout;
pub mod model;
pub mod naming;
pub mod paths;
pub mod reconcile;
pub mod skip;
pub mod task;
pub mod text;
pub mod writer;
