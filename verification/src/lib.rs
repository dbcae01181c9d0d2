//! Verified core of the rigflow client user interface: band plans, lane
//! stacking of overlapping allocations, status/problem aggregation, section
//! layout, calendar conversion and the small text formatters the UI shows.

pub mod bands;
pub mod bookmarks;
pub mod civil;
pub mod contacts;
pub mod cw;
pub mod formatting;
pub mod freq_limits;
pub mod keying;
pub mod modes;
pub mod names;
pub mod om_bands;
pub mod problems;
pub mod radios;
pub mod sections;
pub mod server;
pub mod spectrum;
pub mod state;
pub mod status;
pub mod stats;
pub mod text;
