//! Cinema programme aggregation: candidate discovery, field extraction,
//! record merging and feed assembly, with machine-checked contracts.
//!
//! The modules, from the ground up:
//!
//! - `text`, `tokens`, `number`, `duration`, `order`, `lines`, `gather`:
//!   text as sequences of characters;
//! - `page`, `json`, `calendar`: parsed pages, JSON documents and moments
//!   as plain data;
//! - `film`, `merge`, `discover`, `links`: records and the rules that hold
//!   for every source;
//! - `crawl`: the run of a source as a state machine, and the trait that
//!   the sources implement;
//! - one module per venue;
//! - `feed`: the feed of a list of records.

pub mod order;
pub mod text;
pub mod tokens;
pub mod number;
pub mod duration;
pub mod lines;
pub mod gather;

pub mod page;
pub mod json;
pub mod calendar;

pub mod film;
pub mod merge;
pub mod discover;
pub mod links;

pub mod crawl;

pub mod berlinale;
pub mod cinema_edera;
pub mod cinema_padova;
pub mod cinema_trieste_scraper;
pub mod cinemazero;
pub mod cinergia_conegliano;
pub mod enrico_pizzuti;
pub mod new_bev;
pub mod porto_astra;
pub mod rassegne;
pub mod rassegne_edera;
pub mod space_cinema;

pub mod feed;
