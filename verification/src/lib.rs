//! A verified import-and-assembly pipeline for public-transit schedule
//! feeds.
//!
//! Raw records (calendars, routes, shape points, trips, stop times) stream
//! in loosely ordered and cross-referencing one another by external string
//! identifiers. The pipeline coerces their fields, registers entities in
//! keyed stores, buffers each trip's ordered stop visits, and resolves all
//! references into a consistent network graph for a downstream simulation:
//!
//! - [`deserialize`]: domain-specific field coercions and decoding errors;
//! - [`service`]: per-service calendars and the availability rule;
//! - [`registry`]: the keyed stores every entity kind is registered in;
//! - [`line`], [`shape`], [`location`], [`trip`]: the import-side entities
//!   and the record types that build them up;
//! - [`serialization`], [`storage`]: the durable graph representations and
//!   the freeze/load boundary into the live one;
//! - [`sim`]: the live, dense-indexed representation the simulation owns.
//!
//! Every function is specified and verified; what only an outside library
//! can compute (the weekday of a calendar date) enters through a single
//! trusted wrapper, and what the verified core cannot hold (file I/O,
//! floating-point projection, serde plumbing) stays in the unverified
//! front end around the library.

pub mod coord;
pub mod deserialize;
pub mod line;
pub mod location;
pub mod registry;
pub mod serialization;
pub mod service;
pub mod shape;
pub mod sim;
pub mod storage;
pub mod trip;
