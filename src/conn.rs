//! Signing requests to the catalog server, the errors it reports, and
//! checking its responses.
use crate::library::{dec_digits, push_dec, string_of_chars, Fetch};
use crate::subsonic::{self, SubsonicData, SubsonicResponse};
use vstd::prelude::*;

verus! {

/// The protocol version that requests announce.
pub const SUBSONIC_API_VERSION: &'static str = "1.16.1";

/// The client name that requests announce.
pub const SUBSONIC_CLIENT_NAME: &'static str = "navicon";

/// The MD5 digest of a text's UTF-8 bytes, as 32 lower-case hex digits.
pub uninterp spec fn md5_hex_of(s: Seq<char>) -> Seq<char>;

/// Relies on `md5::Md5::digest` (RustCrypto md-5): the MD5 digest of the
/// text's bytes, a function of the text alone, written in lower-case hex.
#[verifier::external_body]
fn md5_hex(s: &str) -> (r: String)
    ensures
        r@ == md5_hex_of(s@),
{
    format!("{:032x}", <md5::Md5 as md5::Digest>::digest(s.as_bytes()))
}

/// Relies on `rand::random`: a value drawn from the thread-local generator;
/// nothing is known of it.
pub assume_specification<T>[ rand::random::<T> ]() -> (r: T)
    where
        rand::distributions::Standard: rand::distributions::Distribution<T>,
;

/// The lower-case hex digit of `d`, for `d < 16`.
pub open spec fn hex_digit(d: nat) -> char {
    if d == 0 { '0' } else if d == 1 { '1' } else if d == 2 { '2' } else if d == 3 { '3' }
    else if d == 4 { '4' } else if d == 5 { '5' } else if d == 6 { '6' } else if d == 7 { '7' }
    else if d == 8 { '8' } else if d == 9 { '9' } else if d == 10 { 'a' } else if d == 11 { 'b' }
    else if d == 12 { 'c' } else if d == 13 { 'd' } else if d == 14 { 'e' } else { 'f' }
}

/// `n` in lower-case hex, without leading zeros.
pub open spec fn hex_digits(n: nat) -> Seq<char>
    decreases n,
{
    if n < 16 {
        seq![hex_digit(n)]
    } else {
        hex_digits(n / 16).push(hex_digit(n % 16))
    }
}

/// The hex digit character of `d`.
fn hex_char(d: u64) -> (c: char)
    requires
        d < 16,
    ensures
        c == hex_digit(d as nat),
{
    match d {
        0 => '0',
        1 => '1',
        2 => '2',
        3 => '3',
        4 => '4',
        5 => '5',
        6 => '6',
        7 => '7',
        8 => '8',
        9 => '9',
        10 => 'a',
        11 => 'b',
        12 => 'c',
        13 => 'd',
        14 => 'e',
        _ => 'f',
    }
}

/// Appends the lower-case hex digits of `n` to `out`.
fn push_hex(n: u64, out: &mut Vec<char>)
    ensures
        final(out)@ == old(out)@ + hex_digits(n as nat),
    decreases n,
{
    let ghost start = out@;
    if n >= 16 {
        push_hex(n / 16, out);
    }
    out.push(hex_char(n % 16));
    proof {
        if n < 16 {
            assert(out@ =~= start + hex_digits(n as nat));
        } else {
            assert((n / 16) as nat == n as nat / 16);
            assert(out@ =~= start + hex_digits(n as nat));
        }
    }
}

/// The salt written for the random draw `n`: `n` in lower-case hex.
pub fn salt_of(n: u64) -> (r: String)
    ensures
        r@ == hex_digits(n as nat),
{
    let mut digits: Vec<char> = Vec::new();
    push_hex(n, &mut digits);
    assert(digits@ =~= hex_digits(n as nat));
    string_of_chars(&digits)
}

/// A fresh salt for one request: a random `u64` in lower-case hex.
pub fn new_salt() -> (r: String)
    ensures
        exists|n: u64| r@ == hex_digits(n as nat),
{
    let n: u64 = rand::random();
    salt_of(n)
}

/// The token that proves the password without sending it: the MD5 hex
/// digest of the password followed by the salt.
pub fn auth_token(password: &str, salt: &str) -> (r: String)
    ensures
        r@ == md5_hex_of(password@ + salt@),
{
    let mut salted = password.to_owned();
    salted.append(salt);
    md5_hex(salted.as_str())
}

/// The address of an endpoint of the server at `base`.
pub fn endpoint_url(base: &str, endpoint: &str) -> (r: String)
    ensures
        r@ == base@ + "/rest/"@ + endpoint@,
{
    let mut url = base.to_owned();
    url.append("/rest/");
    url.append(endpoint);
    url
}

/// The (name, value) view of query parameters.
pub open spec fn params_view(v: Seq<(String, String)>) -> Seq<(Seq<char>, Seq<char>)> {
    v.map_values(|p: (String, String)| (p.0@, p.1@))
}

/// The query parameters that every request carries: protocol version,
/// client name, user, salt, and the token of `password` with that salt.
pub fn auth_params(user: &str, password: &str, salt: &str) -> (r: Vec<(String, String)>)
    ensures
        params_view(r@) == seq![
            ("v"@, SUBSONIC_API_VERSION@),
            ("c"@, SUBSONIC_CLIENT_NAME@),
            ("u"@, user@),
            ("s"@, salt@),
            ("t"@, md5_hex_of(password@ + salt@)),
        ],
{
    let mut r: Vec<(String, String)> = Vec::new();
    r.push(("v".to_owned(), SUBSONIC_API_VERSION.to_owned()));
    r.push(("c".to_owned(), SUBSONIC_CLIENT_NAME.to_owned()));
    r.push(("u".to_owned(), user.to_owned()));
    r.push(("s".to_owned(), salt.to_owned()));
    r.push(("t".to_owned(), auth_token(password, salt)));
    assert(params_view(r@) =~= seq![
        ("v"@, SUBSONIC_API_VERSION@),
        ("c"@, SUBSONIC_CLIENT_NAME@),
        ("u"@, user@),
        ("s"@, salt@),
        ("t"@, md5_hex_of(password@ + salt@)),
    ]);
    r
}

/// The endpoint and the extra query parameters of the request that makes `fetch`.
pub fn fetch_request(fetch: &Fetch) -> (r: (String, Vec<(String, String)>))
    ensures
        match fetch {
            Fetch::Artists => r.0@ == "getArtists"@ && r.1@.len() == 0,
            Fetch::Artist(id) => r.0@ == "getArtist"@ && params_view(r.1@) == seq![("id"@, id@)],
            Fetch::Album(id) => r.0@ == "getAlbum"@ && params_view(r.1@) == seq![("id"@, id@)],
        },
{
    let mut params: Vec<(String, String)> = Vec::new();
    let endpoint = match fetch {
        Fetch::Artists => "getArtists".to_owned(),
        Fetch::Artist(id) => {
            params.push(("id".to_owned(), id.clone()));
            "getArtist".to_owned()
        },
        Fetch::Album(id) => {
            params.push(("id".to_owned(), id.clone()));
            "getAlbum".to_owned()
        },
    };
    assert(match fetch {
        Fetch::Artists => params@.len() == 0,
        Fetch::Artist(id) => params_view(params@) =~= seq![("id"@, id@)],
        Fetch::Album(id) => params_view(params@) =~= seq![("id"@, id@)],
    });
    (endpoint, params)
}

/// The kinds of error that the server reports by numeric code.
#[derive(Debug, Clone, Copy, PartialEq, Eq, Structural)]
pub enum ConnectionErrorType {
    Generic,
    MissingParameter,
    IncompatibleClient,
    IncompatibleServer,
    WrongCredentials,
    NotAuthorized,
    NotFound,
    Other(usize),
}

/// The kind of error that the server means by `code`.
pub open spec fn error_type_of(code: usize) -> ConnectionErrorType {
    if code == 0 {
        ConnectionErrorType::Generic
    } else if code == 10 {
        ConnectionErrorType::MissingParameter
    } else if code == 20 {
        ConnectionErrorType::IncompatibleClient
    } else if code == 30 {
        ConnectionErrorType::IncompatibleServer
    } else if code == 40 {
        ConnectionErrorType::WrongCredentials
    } else if code == 50 {
        ConnectionErrorType::NotAuthorized
    } else if code == 70 {
        ConnectionErrorType::NotFound
    } else {
        ConnectionErrorType::Other(code)
    }
}

/// An error that the server reported in place of a payload.
#[derive(Debug, Clone)]
pub struct ConnectionError {
    pub code: ConnectionErrorType,
    pub msg: Option<String>,
}

/// `e` is the error that the server's payload `p` reports.
pub open spec fn reports(e: ConnectionError, p: subsonic::Error) -> bool {
    e.code == error_type_of(p.code) && e.msg == p.message
}

/// How an error kind is written: its name, and the code for `Other`.
pub open spec fn kind_name(t: ConnectionErrorType) -> Seq<char> {
    match t {
        ConnectionErrorType::Generic => "Generic"@,
        ConnectionErrorType::MissingParameter => "MissingParameter"@,
        ConnectionErrorType::IncompatibleClient => "IncompatibleClient"@,
        ConnectionErrorType::IncompatibleServer => "IncompatibleServer"@,
        ConnectionErrorType::WrongCredentials => "WrongCredentials"@,
        ConnectionErrorType::NotAuthorized => "NotAuthorized"@,
        ConnectionErrorType::NotFound => "NotFound"@,
        ConnectionErrorType::Other(n) => "Other("@ + dec_digits(n as nat) + ")"@,
    }
}

/// How an error is written: its kind, then " : " and the message if any.
pub open spec fn error_text(e: ConnectionError) -> Seq<char> {
    match e.msg {
        Some(m) => kind_name(e.code) + " : "@ + m@,
        None => kind_name(e.code),
    }
}

impl ConnectionError {
    /// The error as a line of text.
    pub fn message(&self) -> (r: String)
        ensures
            r@ == error_text(*self),
    {
        let mut s = match self.code {
            ConnectionErrorType::Generic => "Generic".to_owned(),
            ConnectionErrorType::MissingParameter => "MissingParameter".to_owned(),
            ConnectionErrorType::IncompatibleClient => "IncompatibleClient".to_owned(),
            ConnectionErrorType::IncompatibleServer => "IncompatibleServer".to_owned(),
            ConnectionErrorType::WrongCredentials => "WrongCredentials".to_owned(),
            ConnectionErrorType::NotAuthorized => "NotAuthorized".to_owned(),
            ConnectionErrorType::NotFound => "NotFound".to_owned(),
            ConnectionErrorType::Other(n) => {
                let mut digits: Vec<char> = Vec::new();
                push_dec(n, &mut digits);
                assert(digits@ =~= dec_digits(n as nat));
                let mut t = "Other(".to_owned();
                t.append(string_of_chars(&digits).as_str());
                t.append(")");
                t
            },
        };
        match &self.msg {
            Some(m) => {
                s.append(" : ");
                s.append(m.as_str());
            },
            None => {},
        }
        s
    }

    /// The error that the server's error payload reports.
    pub fn from(value: &subsonic::Error) -> (r: ConnectionError)
        ensures
            reports(r, *value),
    {
        let code = match value.code {
            0 => ConnectionErrorType::Generic,
            10 => ConnectionErrorType::MissingParameter,
            20 => ConnectionErrorType::IncompatibleClient,
            30 => ConnectionErrorType::IncompatibleServer,
            40 => ConnectionErrorType::WrongCredentials,
            50 => ConnectionErrorType::NotAuthorized,
            70 => ConnectionErrorType::NotFound,
            c => ConnectionErrorType::Other(c),
        };
        let msg = match &value.message {
            Some(m) => Some(m.clone()),
            None => None,
        };
        ConnectionError { code, msg }
    }
}

/// The response, or the error that it reports when its payload is an error.
pub fn check_response(resp: SubsonicResponse) -> (r: Result<SubsonicResponse, ConnectionError>)
    ensures
        match resp.data {
            Some(SubsonicData::Error(p)) => r matches Err(e) && reports(e, p),
            _ => r == Ok::<SubsonicResponse, ConnectionError>(resp),
        },
{
    let reported = match &resp.data {
        Some(SubsonicData::Error(p)) => Some(ConnectionError::from(p)),
        _ => None,
    };
    match reported {
        Some(e) => Err(e),
        None => Ok(resp),
    }
}

impl SubsonicResponse {
    /// Whether the server reported success.
    pub fn is_ok(&self) -> (r: bool)
        ensures
            r == (self.status@ == seq!['o', 'k']),
    {
        let s = self.status.as_str();
        if s.unicode_len() != 2 {
            return false;
        }
        let first = s.get_char(0);
        let second = s.get_char(1);
        if first == 'o' && second == 'k' {
            assert(self.status@ =~= seq!['o', 'k']);
            true
        } else {
            assert(seq!['o', 'k'][0] == 'o' && seq!['o', 'k'][1] == 'k');
            false
        }
    }
}

} // verus!
