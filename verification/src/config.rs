use vstd::prelude::*;

verus! {

/// Immutable process configuration, constructed once at startup and passed
/// explicitly to the components that consume it.
pub struct ProxyConfig {
    /// Port the proxy binds on the loopback interface.
    pub port: u16,
    /// Cap, in bytes, placed on every rewritten `Range` span.
    pub chunk_size: u64,
}

impl ProxyConfig {
    /// A configuration is well formed when the chunk size is strictly positive.
    pub open spec fn wf(&self) -> bool {
        self.chunk_size > 0
    }

    /// Builds a configuration, rejecting a zero chunk size.
    pub fn new(port: u16, chunk_size: u64) -> (r: Option<ProxyConfig>)
        ensures
            chunk_size > 0 ==> r == Some(ProxyConfig { port, chunk_size }),
            chunk_size == 0 ==> r is None,
            r is Some ==> r.unwrap().wf(),
    {
        if chunk_size == 0 {
            None
        } else {
            Some(ProxyConfig { port, chunk_size })
        }
    }
}

impl Default for ProxyConfig {
    /// The stock configuration: port 8080 and a ten-mebibyte chunk.
    fn default() -> (r: Self)
        ensures
            r == (ProxyConfig { port: 8080u16, chunk_size: 10485760u64 }),
            r.wf(),
    {
        ProxyConfig { port: 8080, chunk_size: 10485760 }
    }
}

} // verus!
