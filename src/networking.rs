use vstd::prelude::*;

verus! {

pub type StatusCode = u16;

pub type Url = String;

/// An HTTP response: status and body.
#[derive(Debug, PartialEq, Clone, Default)]
pub struct Response {
    pub status: StatusCode,
    pub body: String,
}

#[derive(Debug, PartialEq, Eq, Structural, Hash, Clone, Copy)]
pub enum Method {
    GET,
    POST,
}

impl Default for Method {
    fn default() -> (r: Method)
        ensures
            r == Method::GET,
    {
        Method::GET
    }
}

/// An HTTP request.
#[derive(Debug, PartialEq, Clone)]
pub struct Request {
    pub method: Method,
    pub url: Url,
    pub body: String,
    pub headers: Vec<(String, String)>,
}

/// Why a request got no response.
#[derive(Debug, PartialEq, Eq, Structural, Clone, Copy)]
pub enum HttpError {
    /// No response is known for the method and url.
    NoResponse,
    /// The transport failed.
    Transport,
}

/// A client that sends one request.
pub trait HttpClient {
    fn send(self, request: Request) -> Result<Response, HttpError>;
}

/// A canned response for a method and url.
#[derive(Debug, PartialEq, Clone)]
pub struct MockResponse {
    pub method: Method,
    pub url: Url,
    pub response: Response,
}

/// The response of the first entry of `entries` for `method` and `url`.
pub open spec fn mocked(entries: Seq<MockResponse>, method: Method, url: Seq<char>) -> Option<Response>
    decreases entries.len(),
{
    if entries.len() == 0 {
        None
    } else if entries[0].method == method && entries[0].url@ == url {
        Some(entries[0].response)
    } else {
        mocked(entries.drop_first(), method, url)
    }
}

/// A client answering from canned responses.
pub struct MockClient {
    pub responses: Vec<MockResponse>,
}

impl MockClient {
    pub fn new(responses: Vec<MockResponse>) -> (r: MockClient)
        ensures
            r.responses@ == responses@,
    {
        MockClient { responses }
    }

    /// The canned response for `method` and `url`.
    pub fn lookup(&self, method: Method, url: &String) -> (r: Option<Response>)
        ensures
            r == mocked(self.responses@, method, url@),
    {
        let mut k: usize = 0;
        assert(self.responses@.skip(0) =~= self.responses@);
        while k < self.responses.len()
            invariant
                k <= self.responses@.len(),
                mocked(self.responses@, method, url@) == mocked(
                    self.responses@.skip(k as int),
                    method,
                    url@,
                ),
            decreases self.responses@.len() - k,
        {
            let entry = &self.responses[k];
            assert(self.responses@.skip(k as int).drop_first() =~= self.responses@.skip(k + 1));
            if entry.method == method && entry.url == *url {
                return Some(
                    Response { status: entry.response.status, body: entry.response.body.clone() },
                );
            }
            k = k + 1;
        }
        None
    }
}

impl HttpClient for MockClient {
    fn send(self, request: Request) -> (r: Result<Response, HttpError>) {
        match self.lookup(request.method, &request.url) {
            Some(response) => Ok(response),
            None => Err(HttpError::NoResponse),
        }
    }
}

} // verus!
