//! A forum API: accounts, sessions, posts and comments.
//!
//! The library holds the decisions of the forum: who is logged in, what a
//! request is answered, which records a request adds or removes. Reading and
//! writing the JSON files and speaking HTTP is left to the program around it.

pub mod cookies;
pub mod session;
pub mod model;
pub mod authenticate;
pub mod post;
pub mod comment;
pub mod handler;
pub mod laws;
