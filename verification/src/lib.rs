//! A package-manager assistant: one interface over the RPM-family
//! package managers for checking, downloading and applying updates, and
//! for reporting the changelog entries of cached package archives that
//! the user has not seen yet.

pub mod archive;
pub mod changelog;
pub mod command;
pub mod config;
pub mod dnf;
pub mod error;
pub mod package_manager;
pub mod text;
pub mod xml;
pub mod zypper;
