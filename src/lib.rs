//! Authentication and authorization core of a user-account service:
//! credential checks, session tracking, signed bearer tokens and the
//! per-request gates that guard protected routes.

pub mod auth;
pub mod config;
pub mod decimal;
pub mod middleware;
pub mod password;
pub mod requests;
pub mod session;
pub mod storage;
pub mod user;
pub mod token;
