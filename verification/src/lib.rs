//! Logic of a disk-space reclamation tool: it reads a list of watched root
//! directories, scans their immediate children, selects child directories
//! older than a seven-day retention threshold, reports the space they occupy
//! in human-readable units, and gates deletion on an explicit confirmation.
//! All filesystem and console work stays outside this crate; the functions
//! here decide and compute on plain values.

pub mod config;
pub mod confirm;
pub mod entries;
pub mod size;
