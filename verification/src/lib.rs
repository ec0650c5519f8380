//! Verified core of the Strom media-flow backend.
pub mod audiorouter;
pub mod builtin;
pub mod device;
pub mod effects;
pub mod flows;
pub mod loudness;
pub mod mixer;
pub mod mpegtssrt;
pub mod pads;
pub mod plan;
pub mod property;
pub mod text;
pub mod whep;
pub mod whip;
