//! The local completion server: where it is reached and what is taken
//! from its answer.

use vstd::prelude::*;
use crate::text::{trim, trimmed};

verus! {

#[verifier::external_type_specification]
#[verifier::external_body]
pub struct ExHttpClient(reqwest::Client);

/// `reqwest::Client::new`: an HTTP client with the default settings. The
/// client is opaque; nothing is stated of it. Its documented panic comes
/// from setting up a TLS backend or a resolver that reads the system's
/// configuration; this crate builds reqwest with neither, so the build it
/// runs has no failing path.
#[verifier::external_body]
fn new_http_client() -> reqwest::Client {
    reqwest::Client::new()
}

/// The model asked for completions.
pub const MODEL: &'static str = "qwen2.5-3b";

/// The most tokens asked for in one completion.
pub const MAX_TOKENS: u32 = 512;

/// A completion server reached over HTTP (llama-server or Ollama).
pub struct LocalInference {
    client: reqwest::Client,
    base_url: String,
}

impl View for LocalInference {
    type V = Seq<char>;

    /// The server's base address.
    closed spec fn view(&self) -> Seq<char> {
        self.base_url@
    }
}

impl LocalInference {
    /// A client of the server at `server_url`, or at
    /// `http://localhost:8080` when none is given.
    pub fn new(server_url: Option<String>) -> (s: LocalInference)
        ensures
            s@ == match server_url {
                Some(u) => u@,
                None => "http://localhost:8080"@,
            },
    {
        let base_url = match server_url {
            Some(u) => u,
            None => crate::config::default_server_url(),
        };
        LocalInference { client: new_http_client(), base_url }
    }

    /// The HTTP client that this value holds, made when it was created.
    pub closed spec fn http_client(&self) -> reqwest::Client {
        self.client
    }

    /// The HTTP client: the one this value holds, the same on every call.
    pub fn client(&self) -> (c: &reqwest::Client)
        ensures
            *c == self.http_client(),
    {
        &self.client
    }

    /// The server's base address.
    pub fn base_url(&self) -> (u: &String)
        ensures
            u@ == self@,
    {
        &self.base_url
    }

    /// The address of the completion endpoint: `<base>/v1/completions`.
    pub fn completions_url(&self) -> (u: String)
        ensures
            u@ == self@ + "/v1/completions"@,
    {
        let mut u = self.base_url.clone();
        u.append("/v1/completions");
        u
    }

    /// The address of the health endpoint: `<base>/health`.
    pub fn health_url(&self) -> (u: String)
        ensures
            u@ == self@ + "/health"@,
    {
        let mut u = self.base_url.clone();
        u.append("/health");
        u
    }

    /// The provider's name.
    pub fn name(&self) -> (n: &'static str)
        ensures
            n@ == "local"@,
    {
        "local"
    }

    /// The answer taken from a completion: the text of the first choice,
    /// trimmed.
    pub fn completion_text(choices: &Vec<String>) -> (t: String)
        requires
            choices.len() > 0,
        ensures
            t@ == trim(choices[0]@),
    {
        trimmed(choices[0].as_str())
    }
}

} // verus!
