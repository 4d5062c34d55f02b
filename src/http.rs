//! The answer to plain HTTP requests made to the service.
use vstd::prelude::*;
use vstd::string::StringSliceAdditionalSpecFns;

verus! {

pub struct HttpRequest {
    pub method: String,
    pub url: String,
    pub headers: Vec<(String, String)>,
    pub body: Vec<u8>,
}

pub struct HttpResponse {
    pub status_code: u16,
    pub headers: Vec<(String, String)>,
    pub body: Vec<u8>,
}

/// Whether `p` occurs in `s` as a contiguous run.
pub open spec fn occurs_in(p: Seq<char>, s: Seq<char>) -> bool {
    exists|i: int| 0 <= i && i + p.len() <= s.len() && #[trigger] s.subrange(i, i + p.len()) == p
}

pub fn str_contains(s: &str, p: &str) -> (r: bool)
    ensures
        r == occurs_in(p@, s@),
{
    let n = s.unicode_len();
    let m = p.unicode_len();
    if m > n {
        return false;
    }
    let mut i: usize = 0;
    while i <= n - m
        invariant
            n == s@.len(),
            m == p@.len(),
            m <= n,
            0 <= i <= n - m + 1,
            forall|k: int| 0 <= k < i ==> #[trigger] s@.subrange(k, k + m) != p@,
        decreases n - m + 1 - i,
    {
        let mut j: usize = 0;
        while j < m && s.get_char(i + j) == p.get_char(j)
            invariant
                n == s@.len(),
                m == p@.len(),
                i + m <= n,
                0 <= j <= m,
                forall|l: int| 0 <= l < j ==> s@[i + l] == p@[l],
            decreases m - j,
        {
            j = j + 1;
        }
        if j == m {
            assert(s@.subrange(i as int, i + m) =~= p@);
            return true;
        }
        assert(s@.subrange(i as int, i + m)[j as int] != p@[j as int]);
        i = i + 1;
    }
    proof {
        assert forall|k: int| 0 <= k && k + p@.len() <= s@.len() implies #[trigger] s@.subrange(
            k,
            k + p@.len(),
        ) != p@ by {
            assert(k < i);
        }
    }
    false
}

/// Requests that mention authentication are sent to the identity provider;
/// every other request gets a plain greeting.
pub fn http_request(req: &HttpRequest) -> (r: HttpResponse)
    ensures
        occurs_in("authenticate"@, req.url@) ==> {
            &&& r.status_code == 302
            &&& r.headers@.len() == 1
            &&& r.headers@[0].0@ == "Location"@
            &&& r.headers@[0].1@ == "https://identity.ic0.app/"@
            &&& r.body@.len() == 0
        },
        !occurs_in("authenticate"@, req.url@) ==> {
            &&& r.status_code == 200
            &&& r.headers@.len() == 1
            &&& r.headers@[0].0@ == "Content-Type"@
            &&& r.headers@[0].1@ == "text/plain"@
            &&& r.body@ == "Hello, World!".spec_bytes()
        },
{
    if str_contains(req.url.as_str(), "authenticate") {
        HttpResponse {
            status_code: 302,
            headers: vec![("Location".to_owned(), "https://identity.ic0.app/".to_owned())],
            body: Vec::new(),
        }
    } else {
        HttpResponse {
            status_code: 200,
            headers: vec![("Content-Type".to_owned(), "text/plain".to_owned())],
            body: vstd::slice::slice_to_vec("Hello, World!".as_bytes()),
        }
    }
}

} // verus!
