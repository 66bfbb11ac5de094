//! A link shortener: the rules that turn requests and the answers of a key-value store into
//! short keys, stored links, redirects and pages.

pub mod error;
pub mod http;
pub mod laws;
pub mod links;
pub mod metadata;
pub mod operations;
pub mod outside;
pub mod pages;
pub mod ranking;
pub mod session;
pub mod stage;
pub mod store;
pub mod table;
pub mod text;
