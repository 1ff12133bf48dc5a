//! The HTTP transport: where requests go, the client that carries them, and
//! the identifier counter shared by all clones of one transport.
use vstd::prelude::*;
use std::sync::atomic::{AtomicU64, Ordering};
use std::sync::Arc;
use crate::builder::{secs_duration, HttpTransportBuilder};
use crate::call::{MethodCall, Params, Version};

verus! {

/// The HTTP client of `reqwest`, carried as it is.
#[verifier::external_type_specification]
#[verifier::external_body]
pub struct ExClient(reqwest::Client);

/// Relies on `reqwest::Client::clone`: a handle to the same client and its
/// connection pool; nothing is claimed of the copy.
pub assume_specification[ <reqwest::Client as Clone>::clone ](c: &reqwest::Client) -> reqwest::Client;

/// A JSON-RPC transport over HTTP POST.
#[derive(Clone)]
pub struct HttpTransport {
    url: String,
    id: Arc<AtomicU64>,
    client: reqwest::Client,
}

impl HttpTransport {
    /// The URL requests are posted to.
    pub closed spec fn spec_url(&self) -> Seq<char> {
        self.url@
    }

    /// A transport posting to `url` through `client`; its first call gets
    /// identifier 1.
    pub fn with_client(url: String, client: reqwest::Client) -> (r: Self)
        ensures
            r.spec_url() == url@,
    {
        HttpTransport { url, id: Arc::new(AtomicU64::new(1)), client }
    }

    /// The default connection settings.
    pub fn builder() -> (r: HttpTransportBuilder)
        ensures
            r.header_view().len() == 0,
            r.timeout is None,
            r.connect_timeout is None,
            r.pool_idle_timeout == Some(secs_duration(90)),
            r.pool_max_idle_per_host == usize::MAX,
            r.tcp_keepalive is None,
            !r.tcp_nodelay,
            !r.https_only,
    {
        HttpTransportBuilder::new()
    }

    /// The URL requests are posted to.
    pub fn url(&self) -> (r: &str)
        ensures
            r@ == self.spec_url(),
    {
        self.url.as_str()
    }

    /// The client that carries the requests.
    pub fn client(&self) -> &reqwest::Client {
        &self.client
    }

    /// A version 2.0 call of `method` with `params`, under the next number of
    /// the shared counter. The counter is read and advanced in one atomic
    /// step, so calls made at the same time from clones of this transport get
    /// different numbers.
    pub fn prepare(&self, method: String, params: Option<Params>) -> (r: MethodCall)
        ensures
            r.jsonrpc == Version::V2_0,
            r.method@ == method@,
            r.params == params,
            r.id is Num,
    {
        let id = self.id.fetch_add(1, Ordering::AcqRel);
        MethodCall::new(method, params, id)
    }
}

} // verus!
