//! `jr`: the verified core of a command-line client for Jira Cloud.
//!
//! The modules below hold the pure logic of the tool — JQL composition and
//! escaping, duration syntax, name matching, profile configuration, and the
//! formatting of what the commands print — each function stated by a
//! contract over mathematical sequences of characters.
pub mod text;
pub mod jql;
pub mod error;
pub mod duration;
pub mod partial_match;
pub mod profile;
pub mod profile_map;
pub mod config;
pub mod linked;
pub mod ordered;
pub mod output;
pub mod types;
pub mod workflow;
pub mod queue;
pub mod user;
pub mod mentions;
pub mod issue_list;
pub mod component_filter;
pub mod cli;
pub mod jsm_create;
pub mod transition;
pub mod links;
pub mod issue_view;
pub mod sprint;
pub mod team;
