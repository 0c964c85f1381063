//! Verified core of the Lanzou cloud-drive client: anti-crawler challenge
//! solving, HTML/JSON reply interpretation, naming rules for split uploads and
//! merged downloads, and the decision logic of the transfer loops.

pub mod text;

pub mod error;
pub mod pattern;
pub mod matcher;
pub mod merge;
pub mod log_policy;
pub mod client;
pub mod config;
pub mod profile;
pub mod update;
pub mod upload;
pub mod listing;
pub mod ops;
pub mod recycle;
pub mod share;
pub mod download;
pub mod login;
