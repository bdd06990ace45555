//! Run configuration: the credentials for the outside services, loaded once
//! at startup by the caller and passed by reference into whatever needs them
//! — no ambient state.

use vstd::prelude::*;

verus! {

/// The API keys of the three outside services: the registry, the geocoding
/// service, and the enrichment service (the latter as `username:auth_key`).
pub struct ApiKeys {
    pub tba_key: String,
    pub gmaps_key: String,
    pub first_token: String,
}

impl ApiKeys {
    pub fn new(tba_key: String, gmaps_key: String, first_token: String) -> (r: ApiKeys)
        ensures
            r.tba_key == tba_key,
            r.gmaps_key == gmaps_key,
            r.first_token == first_token,
    {
        ApiKeys { tba_key, gmaps_key, first_token }
    }
}

} // verus!
