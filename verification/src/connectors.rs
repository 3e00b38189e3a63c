//! Web-model connectors: which actor a connector speaks for, and which conversation is bound to it.

pub mod binding;
pub mod entry;
pub mod lasting;
pub mod laws;
pub mod listed;
pub mod merge;
pub mod ops;
pub mod outcomes;
pub mod provisioning;
pub mod store;
pub mod written;
