//! The verified core of a small blog server: validation errors and their
//! flattening into per-field errors, sign-up and log-in checks, password
//! hashing, and the assembly of posts and users from stored data.
pub mod text;
pub mod validation;
pub mod error;
pub mod user;
pub mod auth;
pub mod post;
pub mod providers;
pub mod views;
