//! Face-authentication helper: turns camera frames into binarized templates,
//! scores live templates against enrolled ones, and decides the outcome of an
//! enrollment or an authentication attempt under a consecutive-failure limit.

pub mod similarity;
pub mod preprocess;
pub mod limiter;
pub mod auth;
pub mod enroll;
pub mod capture;
