//! Live-traffic radar library: reconciles aircraft position feeds into an
//! identity-stable view of an airspace, dead-reckons positions between polls,
//! and renders the view as FSD protocol lines for an ATC client.
//!
//! Positions are held in integer micro-degrees (one millionth of a degree)
//! and wall-clock instants in integer milliseconds, so every rule of the
//! tracker is stated and proved over plain integers.

pub mod aircraft;
pub mod bincraft;
pub mod config;
pub mod error;
pub mod flightplan;
pub mod flightradar;
pub mod fsd;
pub mod geo;
pub mod inbound;
pub mod interpolate;
pub mod patterns;
pub mod text;
pub mod tracker;
pub mod trig;
