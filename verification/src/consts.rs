//! Values the whole server agrees on.

use vstd::prelude::*;

verus! {

/// The version of the Subsonic API that responses declare.
pub const API_VERSION: &'static str = "1.16.1";

/// The name the server gives itself, in responses and as the vendor of
/// its streams.
pub const SERVER_NAME: &'static str = "spotisub";

/// The version the server gives itself.
pub const SERVER_VERSION: &'static str = "0.1.0";

/// The client id used to sign in to the streaming service.
pub const SPOTIFY_CLIENT_ID: &'static str = "65b708073fc0480ea92a077233ca87bd";

/// Where the streaming service sends the browser back after signing in.
pub const SPOTIFY_REDIRECT_URI: &'static str = "http://127.0.0.1:8898/login";

/// Seconds to wait before a search that the provider turned down is tried
/// again.
pub const DELAY_SEARCH3_SECS: u64 = 1;

} // verus!
