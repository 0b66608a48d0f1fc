//! A request as the client exports it.

use std::collections::HashMap;
use vstd::prelude::*;

verus! {

/// One HTTP request: its method, its URL, its headers and its body.
#[derive(Debug)]
pub struct RequestExport {
    pub method: String,
    pub url: String,
    pub headers: HashMap<String, String>,
    pub body: Option<String>,
}

} // verus!
