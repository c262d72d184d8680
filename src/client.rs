use vstd::prelude::*;
use vstd::string::*;
use crate::gate::AdmissionGate;

verus! {

/// The concurrency limit used where none is given.
pub const DEFAULT_PARALLEL_LIMIT: u32 = 5;

/// The API version every request pins.
pub const NOTION_VERSION: &'static str = "2022-06-28";

/// The `Authorization` header value for a bearer token.
pub open spec fn bearer_spec(token: Seq<char>) -> Seq<char> {
    "Bearer "@ + token
}

/// A configured engine: the token requests carry and how many requests may be
/// in flight at once.
#[derive(Debug)]
pub struct NotionParallel {
    api_key: String,
    parallel_limit: u32,
}

impl NotionParallel {
    pub closed spec fn key_spec(&self) -> Seq<char> {
        self.api_key@
    }

    pub closed spec fn limit_spec(&self) -> u32 {
        self.parallel_limit
    }

    /// An engine for `api_key`, with at most `parallel_limit` requests in
    /// flight (five where none is given).
    pub fn new(api_key: String, parallel_limit: Option<u32>) -> (e: NotionParallel)
        ensures
            e.key_spec() == api_key@,
            e.limit_spec() == match parallel_limit {
                Some(n) => n,
                None => DEFAULT_PARALLEL_LIMIT,
            },
    {
        let parallel_limit = match parallel_limit {
            Some(n) => n,
            None => DEFAULT_PARALLEL_LIMIT,
        };
        NotionParallel { api_key, parallel_limit }
    }

    /// Changes the limit for calls made from now on.
    pub fn set_parallel_limit(&mut self, limit: u32)
        ensures
            final(self).limit_spec() == limit,
            final(self).key_spec() == old(self).key_spec(),
    {
        self.parallel_limit = limit;
    }

    /// The configured limit.
    pub fn parallel_limit(&self) -> (n: u32)
        ensures
            n == self.limit_spec(),
    {
        self.parallel_limit
    }

    /// The `Authorization` header value that every request carries.
    pub fn bearer(&self) -> (h: String)
        ensures
            h@ == bearer_spec(self.key_spec()),
    {
        let mut h = String::from_str("Bearer ");
        h.append(self.api_key.as_str());
        h
    }

    /// A fresh admission gate with the configured capacity, for one fetch of
    /// many pages and all of their descendants; `None` for a zero limit.
    pub fn gate(&self) -> (g: Option<AdmissionGate>)
        ensures
            g.is_none() == (self.limit_spec() == 0),
            g matches Some(g) ==> g.wf() && g.capacity() == self.limit_spec() && g.held() == 0,
    {
        AdmissionGate::new(self.parallel_limit)
    }
}

impl Clone for NotionParallel {
    fn clone(&self) -> (c: NotionParallel)
        ensures
            c.key_spec() == self.key_spec(),
            c.limit_spec() == self.limit_spec(),
    {
        NotionParallel { api_key: self.api_key.clone(), parallel_limit: self.parallel_limit }
    }
}

} // verus!
