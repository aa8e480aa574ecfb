//! Verified core of the rginx control plane: console display helpers,
//! rollout policy, DNS plan checks, alerting and credential handling.

pub mod display;
pub mod text;
pub mod error;
pub mod model;
pub mod rollout;
pub mod diff;
pub mod alerts;
pub mod dashboard;
pub mod api;
pub mod number;
pub mod store;
pub mod service;
pub mod dns;
pub mod runtime;
pub mod console;
pub mod auth;
pub mod nodes;
pub mod drafts;
pub mod conflicts;
pub mod compile;
pub mod loading;
