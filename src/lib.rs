//! Request and collection model of an HTTP API client: authorization
//! headers, query-parameter synchronisation, request bodies, save tracking
//! and the dispatch lifecycle of a request.

pub mod auth;
pub mod body;
pub mod collection;
pub mod exchange;
pub mod headers;
pub mod pairs;
pub mod params;
pub mod request;
