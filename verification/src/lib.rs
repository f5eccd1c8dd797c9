//! A service that keeps student records in memory: create, get, update, delete and list by
//! pages, with every request checked before anything is stored.
//!
//! `service` holds the five requests, `store` the records, `model` what each request does as
//! a function of the records held, and `laws` what follows for requests made one after
//! another.

pub mod error;
pub mod gpa;
pub mod ident;
pub mod laws;
pub mod model;
pub mod order;
pub mod proto;
pub mod service;
pub mod store;
pub mod text;
pub mod token;
