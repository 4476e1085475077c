//! Library core of an operating-system installer.
//!
//! The installer turns a user's answers (language, hostname, admin
//! credentials, target disk, partition layout) into a provisioned, bootable
//! root filesystem. This crate holds the verified core: the partition and
//! installation data model, the provisioning pipeline's planning and ordering
//! logic, and the progress tracker. The surrounding binary performs the
//! actual disk and process I/O that the plans describe.

pub mod install;
pub mod lang;
pub mod partition;
pub mod pipeline;
pub mod progress;
pub mod prompt;
pub mod text;
