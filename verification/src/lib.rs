//! Course-catalog library: tutors create and query courses.
//!
//! The verified core is the course store (per-tutor sequential ids,
//! insertion-order listing, unique lookup), the validation aggregator
//! that flattens nested field failures into an ordered detail list,
//! and the error taxonomy that maps every failure to a status code and
//! a client-safe message. HTTP plumbing lives outside the library.

pub mod errors;
pub mod handlers;
pub mod models;
pub mod numerals;
pub mod store;
pub mod validation;
