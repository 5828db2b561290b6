//! Configuration for the remote photo library, and the request paths the
//! server asks it for.
//!
//! The HTTP traffic itself lives outside the verified core; this module
//! holds the connection settings and builds the request URLs character
//! for character.

use vstd::prelude::*;
use vstd::string::StringExecFns;

verus! {

/// The photo library's address and credential.
pub struct Immich {
    /// Base URL of the library's API.
    pub server_url: String,
    /// The API key sent with every request.
    pub api_key: String,
}

impl Immich {
    /// Captures the library's address and credential.
    pub fn new(server_url: String, api_key: String) -> (r: Self)
        ensures
            r.server_url@ == server_url@,
            r.api_key@ == api_key@,
    {
        Immich { server_url, api_key }
    }

    /// The URL that lists an album: `{base}/albums/{id}?apiKey={key}`.
    pub fn album_url(&self, album_id: &String) -> (r: String)
        ensures
            r@ == self.server_url@ + "/albums/"@ + album_id@ + "?apiKey="@ + self.api_key@,
    {
        let mut url = clone_string(&self.server_url);
        url.append("/albums/");
        url.append(album_id.as_str());
        url.append("?apiKey=");
        url.append(self.api_key.as_str());
        url
    }

    /// The URL that fetches one photo's original bytes:
    /// `{base}/assets/{id}/original?apiKey={key}`.
    pub fn photo_url(&self, asset_id: &String) -> (r: String)
        ensures
            r@ == self.server_url@ + "/assets/"@ + asset_id@ + "/original?apiKey="@
                + self.api_key@,
    {
        let mut url = clone_string(&self.server_url);
        url.append("/assets/");
        url.append(asset_id.as_str());
        url.append("/original?apiKey=");
        url.append(self.api_key.as_str());
        url
    }
}

/// Copies a string.
fn clone_string(s: &String) -> (r: String)
    ensures
        r@ == s@,
{
    String::from_str(s.as_str())
}

} // verus!
