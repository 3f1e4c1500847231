pub mod api;
pub mod chirp;
pub mod clock;
pub mod config;
pub mod controls;
pub mod dashboard;
pub mod double;
pub mod engine;
pub mod feeds;
pub mod grinder;
pub mod guide;
pub mod json;
pub mod keys;
pub mod label;
pub mod mine;
pub mod pages;
pub mod paint;
pub mod panels;
pub mod pools;
pub mod reports;
pub mod session;
pub mod settings;
pub mod stats;
pub mod system;
pub mod target;
pub mod text;
pub mod work;
