//! The transport boundary: how a rendered request body reaches the gateway
//! and how the reply body comes back.
//!
//! The session is generic over this trait, so a test can substitute a stub
//! and no network is ever needed to exercise the logic. Nothing is promised
//! of a post's outcome: callers state what holds whatever comes back.

use vstd::prelude::*;

verus! {

/// What the session needs of a transport: POST a body as JSON to a URL and
/// hand back the reply body, or a description of the failure.
pub trait Transport {
    fn post_json(&mut self, url: &str, body: &str) -> Result<String, String>;
}

/// Declares reqwest's blocking HTTP client so it can stand in a field.
#[verifier::external_type_specification]
#[verifier::external_body]
pub struct ExClient(reqwest::blocking::Client);

/// The real transport: a blocking reqwest client. A client that could not
/// be built is held as absent, and every post then reports a transport
/// error; construction never panics.
pub struct HttpTransport {
    client: Option<reqwest::blocking::Client>,
}

impl HttpTransport {
    /// Relies on reqwest::blocking::ClientBuilder::build: a default
    /// blocking client, or an error, which is kept as `None`.
    #[verifier::external_body]
    pub fn new() -> (t: HttpTransport) {
        match reqwest::blocking::Client::builder().build() {
            Ok(c) => HttpTransport { client: Some(c) },
            Err(_) => HttpTransport { client: None },
        }
    }
}

impl Transport for HttpTransport {
    fn post_json(&mut self, url: &str, body: &str) -> Result<String, String> {
        http_post_json(self, url, body)
    }
}

/// Relies on reqwest's blocking `Client::post`, `RequestBuilder::send` and
/// `Response::text`: posts the body under a JSON content type and reads the
/// reply body as text. Must not be used inside an async runtime, which
/// reqwest's blocking client refuses by panicking.
#[verifier::external_body]
fn http_post_json(t: &mut HttpTransport, url: &str, body: &str) -> Result<String, String> {
    let client = match &t.client {
            Some(c) => c,
            None => return Err("http client unavailable".to_string()),
        };
        let sent = client.post(url).header("Content-Type", "application/json").body(
            body.to_string(),
        ).send();
        match sent {
            Ok(resp) => match resp.text() {
                Ok(t) => Ok(t),
                Err(e) => Err(e.to_string()),
            },
            Err(e) => Err(e.to_string()),
        }
    }

} // verus!
