//! A small library for scraping an anime streaming site's search and detail
//! pages. The extraction rules, text normalization, JSON framing and route
//! decisions are verified; the HTML parsing and CSS selection themselves are
//! done by the `scraper` crate behind trusted wrappers.

pub mod err;
pub mod html;
pub mod json;
pub mod detail;
pub mod routes;
pub mod search;
pub mod text;
