//! A discovery-and-publish pipeline for restaurants: it filters and selects
//! search candidates, follows bounded HTTP redirects, encodes multipart
//! bodies for photo uploads, and composes the final status text. The
//! transport that carries requests and responses lives outside; the library
//! holds every decision and every byte layout.

pub mod bytestr;
pub mod errors;
pub mod enrich;
pub mod fetch;
pub mod filename;
pub mod json;
pub mod model;
pub mod multipart;
pub mod pipeline;
pub mod publish;
pub mod search;
pub mod stars;
pub mod urls;
