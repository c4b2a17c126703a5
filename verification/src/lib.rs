//! Core of a terminal job-application tracker: the record model, the
//! interactive state machine with its form and chart navigation, the key
//! dispatcher, the chart aggregations, and the record store codec.

pub mod text;
pub mod date;
pub mod model;
pub mod state;
pub mod input;
pub mod chart;
pub mod codec;
pub mod laws;
