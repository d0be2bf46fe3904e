//! Base URLs and how request URLs are formed from them.

use vstd::prelude::*;
use vstd::string::*;

use crate::text;

verus! {

/// Endpoint a provider talks to via HTTP callouts.
///
/// `Tcp` is a normal HTTP base URL (host plus optional port and a
/// stable scheme: `https://api.example.com`). `Unix` carries an
/// absolute socket path; it is encoded into the `unix://` URL
/// shape the host's executor recognises, so the provider author
/// never builds the encoded URL by hand.
#[derive(Debug, PartialEq, Eq)]
pub enum HttpEndpoint {
    Tcp(String),
    Unix(String),
}

/// What an [`HttpEndpoint`] names.
pub enum EndpointModel {
    Tcp(Seq<char>),
    Unix(Seq<char>),
}

impl View for HttpEndpoint {
    type V = EndpointModel;

    open spec fn view(&self) -> EndpointModel {
        match self {
            HttpEndpoint::Tcp(base) => EndpointModel::Tcp(base@),
            HttpEndpoint::Unix(socket) => EndpointModel::Unix(socket@),
        }
    }
}

impl Clone for HttpEndpoint {
    fn clone(&self) -> (r: Self)
        ensures
            r == *self,
    {
        match self {
            HttpEndpoint::Tcp(base) => HttpEndpoint::Tcp(base.clone()),
            HttpEndpoint::Unix(socket) => HttpEndpoint::Unix(socket.clone()),
        }
    }
}

/// The endpoint that a text names: a socket by its absolute path, else a base
/// URL.
pub open spec fn endpoint_of(s: Seq<char>) -> EndpointModel {
    if text::has_prefix(s, "unix:///"@) {
        EndpointModel::Unix(text::after_prefix(s, "unix://"@))
    } else {
        EndpointModel::Tcp(s)
    }
}

/// A digit of a number in base 16.
pub open spec fn hex_digit(d: int, upper: bool) -> char {
    if 0 <= d <= 9 {
        ('0' as u32 + d) as char
    } else if upper {
        ('A' as u32 + d - 10) as char
    } else {
        ('a' as u32 + d - 10) as char
    }
}

/// Bytes in base 16, two lower-case digits each.
pub open spec fn hex_text(bytes: Seq<u8>) -> Seq<char>
    decreases bytes.len(),
{
    if bytes.len() == 0 {
        Seq::empty()
    } else {
        hex_text(bytes.drop_last()) + seq![
            hex_digit(bytes.last() as int / 16, false),
            hex_digit(bytes.last() as int % 16, false),
        ]
    }
}

/// A byte that a form leaves as it is.
pub open spec fn form_plain(b: u8) -> bool {
    ||| 'a' as u32 <= b <= 'z' as u32
    ||| 'A' as u32 <= b <= 'Z' as u32
    ||| '0' as u32 <= b <= '9' as u32
    ||| b == '*' as u32
    ||| b == '-' as u32
    ||| b == '.' as u32
    ||| b == '_' as u32
}

/// A byte as a form writes it: as it is, a space as `+`, anything else as `%`
/// and two upper-case digits in base 16.
pub open spec fn form_byte(b: u8) -> Seq<char> {
    if form_plain(b) {
        seq![b as char]
    } else if b == ' ' as u32 {
        seq!['+']
    } else {
        seq!['%', hex_digit(b as int / 16, true), hex_digit(b as int % 16, true)]
    }
}

/// Bytes as a form writes them.
pub open spec fn form_bytes(bytes: Seq<u8>) -> Seq<char>
    decreases bytes.len(),
{
    if bytes.len() == 0 {
        Seq::empty()
    } else {
        form_bytes(bytes.drop_last()) + form_byte(bytes.last())
    }
}

/// Text as a form writes it.
pub open spec fn form_text(s: Seq<char>) -> Seq<char> {
    form_bytes(vstd::utf8::encode_utf8(s))
}

/// A name and its value as a form writes them.
pub open spec fn form_pair(pair: (Seq<char>, Seq<char>)) -> Seq<char> {
    form_text(pair.0) + "="@ + form_text(pair.1)
}

/// A query string.
pub open spec fn query_text(pairs: Seq<(Seq<char>, Seq<char>)>) -> Seq<char> {
    text::joined(pairs.map_values(|p: (Seq<char>, Seq<char>)| form_pair(p)), "&"@)
}

/// Pairs of texts.
pub open spec fn query_pairs(query: Seq<(&str, &str)>) -> Seq<(Seq<char>, Seq<char>)> {
    query.map_values(|p: (&str, &str)| (p.0@, p.1@))
}

/// `url::form_urlencoded::Serializer`, given the pairs: each is written as
/// name, `=` and value, with `&` between pairs; the unreserved bytes pass
/// through, a space becomes `+`, every other byte is percent-encoded.
#[verifier::external_body]
fn render_query(query: &[(&str, &str)]) -> (r: String)
    ensures
        r@ == query_text(query_pairs(query@)),
{
    url::form_urlencoded::Serializer::new(String::new()).extend_pairs(query).finish()
}

/// `hex::encode`: two lower-case digits for each byte.
#[verifier::external_body]
fn hex_encode(bytes: &[u8]) -> (r: String)
    ensures
        r@ == hex_text(bytes@),
{
    hex::encode(bytes)
}

/// The part of a URL behind its host.
pub open spec fn url_tail(path: Seq<char>, query: Seq<char>) -> Seq<char> {
    (if text::has_prefix(path, "/"@) {
        path
    } else {
        "/"@ + path
    }) + (if query.len() == 0 {
        Seq::empty()
    } else {
        "?"@ + query
    })
}

/// The part of a URL up to its host. A socket path is written in base 16.
pub open spec fn url_head(endpoint: EndpointModel) -> Seq<char> {
    match endpoint {
        EndpointModel::Tcp(base) => text::without_end_slashes(base),
        EndpointModel::Unix(socket) => "unix://"@ + hex_text(vstd::utf8::encode_utf8(socket)),
    }
}

impl HttpEndpoint {
    /// Parse an endpoint from a string. `unix:///absolute/path`
    /// produces `HttpEndpoint::Unix`; anything else is treated as a
    /// TCP base URL.
    pub fn parse(s: &str) -> (r: Self)
        ensures
            r@ == endpoint_of(s@),
    {
        if text::starts_with(s, "unix:///") {
            proof {
                reveal_strlit("unix://");
                reveal_strlit("unix:///");
                assert("unix:///"@.subrange(0, 7) =~= "unix://"@);
                assert(s@.subrange(0, 7) =~= s@.subrange(0, 8).subrange(0, 7));
            }
            if let Some(socket) = text::strip_prefix(s, "unix://") {
                return HttpEndpoint::Unix(socket);
            }
        }
        HttpEndpoint::Tcp(s.to_owned())
    }

    /// Build a callout URL by combining the endpoint with an HTTP
    /// `path` and an optional query.
    ///
    /// `path` should start with `/`. `query` is a slice of `(name, value)`
    /// pairs that are percent-encoded as a standard
    /// `application/x-www-form-urlencoded` query string (no leading `?`; the
    /// helper adds it).
    pub fn build_url(&self, path: &str, query: &[(&str, &str)]) -> (r: String)
        ensures
            r@ == url_head(self@) + url_tail(path@, query_text(query_pairs(query@))),
    {
        let qs = render_query(query);
        let mut url = match self {
            HttpEndpoint::Tcp(base) => text::trim_end_slashes(base.as_str()),
            HttpEndpoint::Unix(socket) => {
                // Encode the absolute socket path as hex bytes so the URL has
                // a stable host segment and the host's executor decodes it
                // the same way `hyperlocal` does.
                let host = hex_encode(socket.as_str().as_bytes());
                text::concat("unix://", host.as_str())
            },
        };
        let ghost head = url@;
        if !text::starts_with(path, "/") {
            url.append("/");
        }
        url.append(path);
        let length: usize = qs.as_str().unicode_len();
        if length > 0 {
            url.append("?");
            url.append(qs.as_str());
        }
        assert(url@ =~= head + url_tail(path@, qs@));
        url
    }
}

/// Different bytes are written differently in base 16.
pub proof fn law_hex_text_is_unique(a: Seq<u8>, b: Seq<u8>)
    requires
        hex_text(a) == hex_text(b),
    ensures
        a == b,
    decreases a.len(),
{
    lemma_hex_len(a);
    lemma_hex_len(b);
    if a.len() == 0 {
        assert(a =~= b);
    } else {
        let (s, t) = (hex_text(a), hex_text(b));
        let n = s.len() as int;
        assert(s[n - 2] == hex_digit(a.last() as int / 16, false));
        assert(t[n - 2] == hex_digit(b.last() as int / 16, false));
        assert(s[n - 1] == hex_digit(a.last() as int % 16, false));
        assert(t[n - 1] == hex_digit(b.last() as int % 16, false));
        assert(s.take(n - 2) =~= hex_text(a.drop_last()));
        assert(t.take(n - 2) =~= hex_text(b.drop_last()));
        law_hex_text_is_unique(a.drop_last(), b.drop_last());
        assert(a.last() == b.last());
        assert(a =~= a.drop_last().push(a.last()));
        assert(b =~= b.drop_last().push(b.last()));
    }
}

proof fn lemma_hex_len(bytes: Seq<u8>)
    ensures
        hex_text(bytes).len() == 2 * bytes.len(),
    decreases bytes.len(),
{
    if bytes.len() > 0 {
        lemma_hex_len(bytes.drop_last());
    }
}

} // verus!
