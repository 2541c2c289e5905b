//! Binmap's vocabulary and rules, verified.

pub mod artifact;
pub mod builder;
pub mod capability;
pub mod config;
pub mod configuration;
pub mod corpus;
pub mod error;
pub mod event;
pub mod evidence;
pub mod facade;
pub mod finding;
pub mod gate;
pub mod keyed;
pub mod location;
pub mod state;
pub mod text;
pub mod theme;
pub mod tier_order;
pub mod tool;
pub mod traits;
pub mod views;
