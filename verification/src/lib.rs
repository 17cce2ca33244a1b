//! A small verified library behind a command-line grocery-store recommender.
//!
//! Given a food item and an API key, the library builds the nearby-search
//! request URL, decodes the JSON response of the places service into typed
//! records, and renders the user-facing output. All of that logic is
//! verified; the surrounding binary only performs the environment, terminal
//! and HTTP calls and hands plain bytes in and out.

pub mod model;
pub mod text;
pub mod json;
pub mod url;
pub mod output;
