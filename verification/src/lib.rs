//! Normalization of football results: two league layouts and two score
//! encodings are brought to one canonical shape, team names are resolved to
//! dense integer keys, and the rows to store are computed.

pub mod date;
pub mod model;
pub mod league;
pub mod files;
pub mod registry;
pub mod json;
pub mod db;
pub mod corpus;
