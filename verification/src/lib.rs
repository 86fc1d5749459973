//! Verified core of the depot daemon: the text formats it reads and writes, its store
//! layout, and the decisions it makes on what its collaborators report.
pub mod text;
pub mod adapters;
pub mod artifacts;
pub mod evidence;
pub mod paths;
pub mod error;
pub mod describe;
pub mod home;
pub mod checklist;
pub mod records;
pub mod documents;
pub mod vocabulary;
pub mod settings;
pub mod project;
pub mod daemon;
pub mod coordinator;
pub mod store;
pub mod inbox;
pub mod build_info;
pub mod restart;
pub mod projects;
pub mod config;
pub mod project_file;
pub mod identity;
pub mod commands;
pub mod home_move;
pub mod factcodec;
pub mod payload_format;
pub mod cli;
pub mod names;
pub mod facts;
pub mod tasks;
pub mod reconcile;
pub mod supervisor;
pub mod dispatch;
