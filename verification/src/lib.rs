//! French gas stations: their prices, shortages, closings and opening times.
//!
//! The data is published by the government as archives that hold an XML document. This crate
//! reads such a document into memory ([Parser]) and holds the rules of two programs around it: a
//! server that hands out stations and remembers what it fetched, and a command line tool that
//! asks the server and shows what it answers.
//!
//! - [parser], [station], [schedule] and [attr] read stations from the elements of a document,
//!   which [xml] builds. [feed] knows where the documents are published and how bytes hold them,
//!   [time] what their dates mean, and [model] is what comes out of it.
//! - [api], [query], [cache] and [limiter] are the server: what it is asked for, which stations
//!   answer a request, how long data is used, and how often the upstream is asked.
//! - [settings], [place], [geo], [disk], [profile], [sort] and [report] are the command line tool.
//!
//! No function of the crate asks for the time, a file or the network: what comes from there is an
//! argument. Numbers with a fraction are kept in the notation they were read in, as [Real].

pub mod api;
pub mod attr;
pub mod cache;
pub mod disk;
pub mod error;
pub mod feed;
pub mod geo;
pub mod limiter;
pub mod model;
pub mod number;
pub mod parser;
pub mod place;
pub mod profile;
pub mod query;
pub mod report;
pub mod schedule;
pub mod settings;
pub mod sort;
pub mod station;
pub mod text;
pub mod time;
pub mod xml;

pub use error::Error;
pub use model::{
    Closing, Coordinates, Fuel, Hours, Location, OpenedHours, PerFuel, Price, RoadKind, Schedule,
    Shortage, Station, TimeOfDay,
};
pub use number::Real;
pub use parser::{Parsed, Parser, ParserBuilder};
pub use time::{DateFormat, DateTime, Timestamp};
