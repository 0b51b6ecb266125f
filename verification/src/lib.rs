//! A minimal newsletter-subscription service core.
//!
//! The library holds the verified logic of the service: decoding
//! `application/x-www-form-urlencoded` submission bodies, routing requests,
//! building the subscriber row that a single insert appends, and mapping
//! storage outcomes to HTTP status codes. The surrounding binary performs the
//! actual network and database I/O and feeds plain values in and out.

pub mod form;
pub mod routes;
