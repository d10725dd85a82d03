//! Localization core of a file-sharing web server: per-locale translation
//! bundles, the store they are loaded into, locale negotiation for requests,
//! and the builder that renders the texts a page needs.

pub mod bundle;
pub mod config;
pub mod locale;
pub mod pages;
pub mod paths;
pub mod texts;
