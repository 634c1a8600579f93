//! Release checking and installation decisions for self-updating programs,
//! plus a small templated-query helper.

pub mod version;
pub mod updater;
pub mod install;
pub mod sql;
