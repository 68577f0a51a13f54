//! A client library for a remote document library: the page-range selector
//! language, the three-phase upload protocol and the browser login flow, as
//! verified state machines and parsers, with the configuration and response
//! types they work on.

pub mod api;
pub mod commands;
pub mod config;
pub mod login;
pub mod output;
pub mod ranges;
pub mod text;
pub mod upload;
