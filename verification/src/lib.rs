//! Navigation policy and tab bookkeeping of the Libe Desk browser shell.

pub mod error;
pub mod ids;
pub mod navigation_policy;
pub mod service;
pub mod tabs;
pub mod text;

pub use navigation_policy::{decide_navigation, NavigationDecision};
