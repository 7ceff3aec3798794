//! Core logic of a small fleet of HTTP micro-services: MIME and
//! `Accept` / `Accept-Language` negotiation, client-IP resolution,
//! GeoIP name resolution, a short-link store over a key/value model,
//! nano-id generation, and structured log formatting.
pub mod accept;
pub mod flog;
pub mod geo;
pub mod ip;
pub mod link;
pub mod locale;
pub mod mime;
pub mod nanoid;
pub mod negotiate;
pub mod qvalue;
pub mod strutil;
