//! Request rules, link lifetimes, validation and rate limiting for the
//! client action room service.

pub mod text;
pub mod clock;
pub mod digest;
pub mod http;
pub mod state;
pub mod demo;
pub mod scanner;
pub mod auth;
pub mod workspace;
pub mod order;
