//! A response as the client shows it.

use std::collections::HashMap;
use vstd::prelude::*;

verus! {

/// One HTTP response, or the error that came in its place.
#[derive(Debug)]
pub struct ResponseData {
    pub status: u16,
    pub status_text: String,
    pub headers: HashMap<String, String>,
    pub body: String,
    pub body_size: usize,
    /// How long the request took, in milliseconds.
    pub duration: u64,
    /// When the response arrived, in milliseconds since the epoch.
    pub timestamp: u64,
    pub error: Option<String>,
}

} // verus!
