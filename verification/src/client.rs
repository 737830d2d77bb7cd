use vstd::prelude::*;

use base64::Engine;

verus! {

/// What base64's URL-safe encoding returns for the UTF-8 bytes of `s`: a
/// function of the input alone, named here rather than restated.
pub uninterp spec fn base64_url_of(s: Seq<char>) -> Seq<char>;

/// Relies on base64's `Engine::encode` with the `URL_SAFE` engine: the
/// result depends on the input bytes alone.
#[verifier::external_body]
fn base64_url(s: &str) -> (r: String)
    ensures
        r@ == base64_url_of(s@),
{
    base64::engine::general_purpose::URL_SAFE.encode(s.as_bytes())
}

pub open spec fn endpoint_text(host: Seq<char>) -> Seq<char> {
    "https://"@ + host + "/api/v1/"@
}

pub open spec fn credentials_text(user: Seq<char>, password: Seq<char>) -> Seq<char> {
    user + ":"@ + password
}

pub open spec fn auth_header_text(user: Seq<char>, password: Seq<char>) -> Seq<char> {
    "Basic "@ + base64_url_of(credentials_text(user, password))
}

pub open spec fn digit_char(d: nat) -> char {
    if d == 0 { '0' }
    else if d == 1 { '1' }
    else if d == 2 { '2' }
    else if d == 3 { '3' }
    else if d == 4 { '4' }
    else if d == 5 { '5' }
    else if d == 6 { '6' }
    else if d == 7 { '7' }
    else if d == 8 { '8' }
    else { '9' }
}

/// The decimal digits of `n`, most significant first.
pub open spec fn dec_digits(n: nat) -> Seq<char>
    decreases n,
{
    if n < 10 {
        seq![digit_char(n)]
    } else {
        dec_digits(n / 10).push(digit_char(n % 10))
    }
}

fn digit_str(d: u64) -> (s: &'static str)
    requires
        d < 10,
    ensures
        s@ == seq![digit_char(d as nat)],
{
    proof {
        reveal_strlit("0");
        reveal_strlit("1");
        reveal_strlit("2");
        reveal_strlit("3");
        reveal_strlit("4");
        reveal_strlit("5");
        reveal_strlit("6");
        reveal_strlit("7");
        reveal_strlit("8");
        reveal_strlit("9");
    }
    if d == 0 { proof { assert("0"@ =~= seq!['0']); } "0" }
    else if d == 1 { proof { assert("1"@ =~= seq!['1']); } "1" }
    else if d == 2 { proof { assert("2"@ =~= seq!['2']); } "2" }
    else if d == 3 { proof { assert("3"@ =~= seq!['3']); } "3" }
    else if d == 4 { proof { assert("4"@ =~= seq!['4']); } "4" }
    else if d == 5 { proof { assert("5"@ =~= seq!['5']); } "5" }
    else if d == 6 { proof { assert("6"@ =~= seq!['6']); } "6" }
    else if d == 7 { proof { assert("7"@ =~= seq!['7']); } "7" }
    else if d == 8 { proof { assert("8"@ =~= seq!['8']); } "8" }
    else { proof { assert("9"@ =~= seq!['9']); } "9" }
}

/// Writes `n` in decimal.
pub fn u64_to_string(n: u64) -> (s: String)
    ensures
        s@ == dec_digits(n as nat),
    decreases n,
{
    if n < 10 {
        String::from_str(digit_str(n))
    } else {
        let mut s = u64_to_string(n / 10);
        s.append(digit_str(n % 10));
        proof {
            assert(s@ =~= dec_digits((n / 10) as nat).push(digit_char((n % 10) as nat)));
        }
        s
    }
}

/// The URL of one page request, as the remote service expects it.
pub open spec fn page_url_text(endpoint: Seq<char>, resource: Seq<char>, take: nat,
    skip: nat) -> Seq<char> {
    endpoint + resource + "?format=json&take="@ + dec_digits(take) + "&skip="@ + dec_digits(
        skip)
}

/// The immutable configuration every request carries: the collection
/// endpoint derived from the host, and the authorization header value
/// derived from the credentials. Built once, passed into whatever issues
/// the network calls.
pub struct Client {
    pub endpoint: String,
    pub auth_header: String,
}

impl Client {
    pub fn new(host: &str, user: &str, password: &str) -> (c: Client)
        ensures
            c.endpoint@ == endpoint_text(host@),
            c.auth_header@ == auth_header_text(user@, password@),
    {
        let mut endpoint = String::from_str("https://");
        endpoint.append(host);
        endpoint.append("/api/v1/");
        let mut credentials = String::from_str(user);
        credentials.append(":");
        credentials.append(password);
        let token = base64_url(credentials.as_str());
        let mut auth_header = String::from_str("Basic ");
        auth_header.append(token.as_str());
        Client { endpoint, auth_header }
    }

    /// The URL requesting one page of `resource`:
    /// `<endpoint><Resource>?format=json&take=<n>&skip=<m>`.
    pub fn page_url(&self, resource: &str, take: u64, skip: u64) -> (u: String)
        ensures
            u@ == page_url_text(self.endpoint@, resource@, take as nat, skip as nat),
    {
        let mut u = self.endpoint.clone();
        u.append(resource);
        u.append("?format=json&take=");
        let t = u64_to_string(take);
        u.append(t.as_str());
        u.append("&skip=");
        let sk = u64_to_string(skip);
        u.append(sk.as_str());
        u
    }
}

} // verus!
