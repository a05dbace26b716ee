//! The request handling rules of a small Spotify download server: the JSON bodies
//! its REST routes answer with, the Spotify login address and its confirmation, the
//! decoding of the hex-encoded redirect, and which downloaded files are listed.
//! Serving, the network calls to Spotify and the file system stay in `app/`.
use vstd::prelude::*;

pub mod hex;
pub mod responses;
pub mod auth;
pub mod downloads;
pub mod routes;
pub mod json;

verus! {

} // verus!
