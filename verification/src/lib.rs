//! A small poll-voting backend core: user registration and login with salted
//! password hashing and signed bearer tokens, and a poll store model with
//! validated, atomic vote counting and vote statistics.
//!
//! The surrounding HTTP routing and the relational store are collaborators of
//! this library; everything that decides or computes lives here.

pub mod auth;
pub mod errors;
pub mod poll;
