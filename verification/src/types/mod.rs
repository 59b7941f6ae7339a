//! The data the Jira, Jira Service Management and Assets APIs return, as
//! plain values.
pub mod jira;
pub mod component;
pub mod jsm;
pub mod assets;
pub mod bulk;
