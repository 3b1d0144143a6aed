//! Core logic of a location simulator: configuration precedence, bookmark
//! storage, geocoding response handling, text formatting and command choice.
use vstd::prelude::*;

pub mod bookmarks;
pub mod commands;
pub mod config;
pub mod geocode;
pub mod location;
pub mod platform;
pub mod text;

verus! {

} // verus!
