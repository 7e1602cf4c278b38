//! `braid://<session_id>?signal=..&manifest=..` session links.

use vstd::prelude::*;
use vstd::utf8::encode_utf8;
use crate::text::{owned, str_eq, push_char, trim_start_char, trim_start_matches_char};

verus! {

/// A parsed session link: where to find the session's manifest.
#[derive(Debug, Clone)]
pub struct SessionLink {
    pub session_id: String,
    pub signal_url: Option<String>,
    pub manifest_path: Option<String>,
}

/// Why a link was refused.
#[derive(Debug)]
pub enum LinkError {
    InvalidScheme(String),
    MissingParameters,
    Parse(String),
}

/// A link by the views of its fields: (session id, signal URL, manifest path).
pub type LinkView = (Seq<char>, Option<Seq<char>>, Option<Seq<char>>);

/// A link error by the view of its text.
pub enum LinkErrorView {
    InvalidScheme(Seq<char>),
    MissingParameters,
    Parse(Seq<char>),
}

impl View for SessionLink {
    type V = LinkView;

    open spec fn view(&self) -> LinkView {
        (
            self.session_id@,
            match self.signal_url {
                Some(s) => Some(s@),
                None => None,
            },
            match self.manifest_path {
                Some(m) => Some(m@),
                None => None,
            },
        )
    }
}

impl View for LinkError {
    type V = LinkErrorView;

    open spec fn view(&self) -> LinkErrorView {
        match self {
            LinkError::InvalidScheme(s) => LinkErrorView::InvalidScheme(s@),
            LinkError::MissingParameters => LinkErrorView::MissingParameters,
            LinkError::Parse(s) => LinkErrorView::Parse(s@),
        }
    }
}

/// The view of a link-producing result.
pub open spec fn link_result_view(r: Result<SessionLink, LinkError>) -> Result<LinkView, LinkErrorView> {
    match r {
        Ok(l) => Ok(l@),
        Err(e) => Err(e@),
    }
}

/// The view of a URI-producing result.
pub open spec fn uri_result_view(r: Result<String, LinkError>) -> Result<Seq<char>, LinkErrorView> {
    match r {
        Ok(s) => Ok(s@),
        Err(e) => Err(e@),
    }
}

/// What the link logic reads of a parsed URL.
#[derive(Debug, Clone)]
pub struct UrlParts {
    /// The scheme, lower-cased, without the ':'.
    pub scheme: String,
    /// The host, if the URL has one.
    pub host: Option<String>,
    /// The port, or the scheme's well-known default port.
    pub port: Option<u16>,
    /// The percent-encoded path.
    pub path: String,
    /// The query parsed as `application/x-www-form-urlencoded` pairs, in order.
    pub query_pairs: Vec<(String, String)>,
}

/// (scheme, host, port, path, query pairs) by their views.
pub type UrlView = (Seq<char>, Option<Seq<char>>, Option<u16>, Seq<char>, Seq<(Seq<char>, Seq<char>)>);

/// The character views of a list of string pairs.
pub open spec fn pair_texts(v: Seq<(String, String)>) -> Seq<(Seq<char>, Seq<char>)> {
    v.map_values(|p: (String, String)| (p.0@, p.1@))
}

impl View for UrlParts {
    type V = UrlView;

    open spec fn view(&self) -> UrlView {
        (
            self.scheme@,
            match self.host {
                Some(h) => Some(h@),
                None => None,
            },
            self.port,
            self.path@,
            pair_texts(self.query_pairs@),
        )
    }
}

/// What `url::Url::parse` makes of `uri` (`None` when it refuses it), read
/// through `scheme`, `host_str`, `port_or_known_default`, `path` and
/// `query_pairs`.
pub uninterp spec fn url_components(uri: Seq<char>) -> Option<(Seq<char>, Option<Seq<char>>, Option<u16>, Seq<char>, Seq<(Seq<char>, Seq<char>)>)>;

/// The text (`Display`) of the error `url::Url::parse` gives for `uri`.
pub uninterp spec fn url_parse_error_text(uri: Seq<char>) -> Seq<char>;

/// Parses `uri` with `url::Url::parse` and reads the parts the link logic
/// needs (`scheme`, `host_str`, `port_or_known_default`, `path`,
/// `query_pairs`), each converted to owned strings.
///
/// Trusted: the parts are what `url_components` names for `uri`, and the call
/// fails exactly when that name is `None`, with the error's text named by
/// `url_parse_error_text`. For the text of a plain link (see `plain_link`)
/// the parts are `link_components` of the link: `braid` is a non-special
/// scheme, so the session id is read as an opaque host (kept as written for
/// lowercase letters, digits and `-`), the path is empty, there is no default
/// port, the query is kept as written (the byte serializer writes none of the
/// characters the query state escapes, nor `#`), and `query_pairs` splits it
/// at `&` and the first `=` and decodes `+` and `%XX`, which undoes
/// `byte_serialize` of the values' UTF-8 bytes.
#[verifier::external_body]
pub(crate) fn parse_url(uri: &str) -> (r: Result<UrlParts, String>)
    ensures
        match r {
            Ok(p) => url_components(uri@) == Some(p@),
            Err(e) => url_components(uri@) is None && e@ == url_parse_error_text(uri@),
        },
        forall|l: LinkView| plain_link(l) && #[trigger] link_text(l) == uri@ ==> (r is Ok && r.unwrap()@ == link_components(l)),
{
    match url::Url::parse(uri) {
        Ok(u) => Ok(UrlParts {
            scheme: u.scheme().to_string(),
            host: u.host_str().map(str::to_string),
            port: u.port_or_known_default(),
            path: u.path().to_string(),
            query_pairs: u.query_pairs().into_owned().collect(),
        }),
        Err(e) => Err(e.to_string()),
    }
}

/// The value of the last pair with key `key` whose value is non-empty.
pub open spec fn last_nonempty_value(pairs: Seq<(Seq<char>, Seq<char>)>, key: Seq<char>) -> Option<Seq<char>>
    decreases pairs.len(),
{
    if pairs.len() == 0 {
        None
    } else if pairs.last().0 == key && pairs.last().1.len() > 0 {
        Some(pairs.last().1)
    } else {
        last_nonempty_value(pairs.drop_last(), key)
    }
}

/// The value of the first pair with key `key` whose value is non-empty.
pub open spec fn first_nonempty_value(pairs: Seq<(Seq<char>, Seq<char>)>, key: Seq<char>) -> Option<Seq<char>>
    decreases pairs.len(),
{
    if pairs.len() == 0 {
        None
    } else if pairs[0].0 == key && pairs[0].1.len() > 0 {
        Some(pairs[0].1)
    } else {
        first_nonempty_value(pairs.drop_first(), key)
    }
}

/// The session id a link names: its host, or else its path without the
/// leading slashes.
pub open spec fn link_session_id(host: Option<Seq<char>>, path: Seq<char>) -> Seq<char> {
    match host {
        Some(h) => if h.len() > 0 { h } else { trim_start_char(path, '/') },
        None => trim_start_char(path, '/'),
    }
}

/// What a parsed URL means as a session link.
pub open spec fn link_from_components(c: UrlView) -> Result<LinkView, LinkErrorView> {
    if c.0 != "braid"@ {
        Err(LinkErrorView::InvalidScheme(c.0))
    } else {
        let signal = last_nonempty_value(c.4, "signal"@);
        let manifest = last_nonempty_value(c.4, "manifest"@);
        if signal is None && manifest is None {
            Err(LinkErrorView::MissingParameters)
        } else {
            Ok((link_session_id(c.1, c.3), signal, manifest))
        }
    }
}

/// Finds the last non-empty value of `key` among `pairs`.
pub fn find_last_nonempty(pairs: &Vec<(String, String)>, key: &str) -> (r: Option<String>)
    ensures
        opt_view(r) == last_nonempty_value(pair_texts(pairs@), key@),
{
    let mut found: Option<String> = None;
    let mut i: usize = 0;
    while i < pairs.len()
        invariant
            i <= pairs@.len(),
            opt_view(found) == last_nonempty_value(pair_texts(pairs@.subrange(0, i as int)), key@),
        decreases pairs@.len() - i,
    {
        assert(pair_texts(pairs@.subrange(0, i + 1)).drop_last() =~= pair_texts(pairs@.subrange(0, i as int)));
        let k = &pairs[i].0;
        let v = &pairs[i].1;
        if str_eq(k.as_str(), key) && !v.as_str().is_empty() {
            found = Some(v.clone());
        }
        i = i + 1;
    }
    assert(pairs@.subrange(0, pairs@.len() as int) =~= pairs@);
    found
}

/// Finds the first non-empty value of `key` among `pairs`.
pub fn find_first_nonempty(pairs: &Vec<(String, String)>, key: &str) -> (r: Option<String>)
    ensures
        opt_view(r) == first_nonempty_value(pair_texts(pairs@), key@),
{
    let mut i: usize = 0;
    assert(pairs@.subrange(0, pairs@.len() as int) =~= pairs@);
    while i < pairs.len()
        invariant
            i <= pairs@.len(),
            first_nonempty_value(pair_texts(pairs@), key@) == first_nonempty_value(
                pair_texts(pairs@.subrange(i as int, pairs@.len() as int)),
                key@,
            ),
        decreases pairs@.len() - i,
    {
        assert(pair_texts(pairs@.subrange(i as int, pairs@.len() as int)).drop_first() =~= pair_texts(
            pairs@.subrange(i + 1, pairs@.len() as int),
        ));
        let k = &pairs[i].0;
        let v = &pairs[i].1;
        if str_eq(k.as_str(), key) && !v.as_str().is_empty() {
            return Some(v.clone());
        }
        i = i + 1;
    }
    None
}

/// The character view of an optional owned string.
pub open spec fn opt_view(o: Option<String>) -> Option<Seq<char>> {
    match o {
        Some(s) => Some(s@),
        None => None,
    }
}

/// Bytes that the `application/x-www-form-urlencoded` byte serializer keeps.
pub open spec fn urlencode_keeps(b: u8) -> bool {
    b == 42 || b == 45 || b == 46 || (48 <= b && b <= 57) || (65 <= b && b <= 90) || b == 95 || (97
        <= b && b <= 122)
}

/// The uppercase hexadecimal digit for a value below 16.
pub open spec fn upper_hex_digit(n: u8) -> char {
    if n < 10 {
        (48 + n) as char
    } else {
        (55 + n) as char
    }
}

/// How the byte serializer writes one byte.
pub open spec fn urlencoded_byte(b: u8) -> Seq<char> {
    if urlencode_keeps(b) {
        seq![b as char]
    } else if b == 32 {
        seq!['+']
    } else {
        seq!['%', upper_hex_digit(b / 16), upper_hex_digit(b % 16)]
    }
}

/// The `application/x-www-form-urlencoded` byte serialization of `bytes`.
pub open spec fn form_urlencoded(bytes: Seq<u8>) -> Seq<char>
    decreases bytes.len(),
{
    if bytes.len() == 0 {
        Seq::empty()
    } else {
        form_urlencoded(bytes.drop_last()) + urlencoded_byte(bytes.last())
    }
}

/// One pair as the serializer writes it: the name and the value, each
/// byte-serialized, joined by `=`.
pub open spec fn encoded_pair(p: (Seq<char>, Seq<char>)) -> Seq<char> {
    form_urlencoded(encode_utf8(p.0)) + seq!['='] + form_urlencoded(encode_utf8(p.1))
}

/// The `application/x-www-form-urlencoded` serialization of `pairs`: the
/// encoded pairs joined by `&`.
pub open spec fn form_query(pairs: Seq<(Seq<char>, Seq<char>)>) -> Seq<char>
    decreases pairs.len(),
{
    if pairs.len() == 0 {
        Seq::empty()
    } else if pairs.len() == 1 {
        encoded_pair(pairs[0])
    } else {
        form_query(pairs.drop_last()) + seq!['&'] + encoded_pair(pairs.last())
    }
}

/// Serializes `pairs` with `form_urlencoded::Serializer`: `new` on an empty
/// `String`, `extend_pairs` (one `append_pair` per pair, in order) and
/// `finish`.
///
/// Trusted: `append_pair` writes `&` unless it is the first pair, then the
/// name through `byte_serialize`, `=`, and the value through
/// `byte_serialize`; `byte_serialize` keeps `*-._`, ASCII digits and
/// letters, writes a space as `+` and every other byte as `%` with two
/// uppercase hex digits. The contract states exactly this over the UTF-8
/// encodings.
#[verifier::external_body]
fn form_urlencoded_query(pairs: &Vec<(String, String)>) -> (r: String)
    ensures
        r@ == form_query(pair_texts(pairs@)),
{
    url::form_urlencoded::Serializer::new(String::new()).extend_pairs(pairs.iter()).finish()
}

/// The query of a link: its `signal` and `manifest` pairs, serialized.
pub open spec fn link_query(l: LinkView) -> Seq<char> {
    form_query(link_pairs(l))
}

/// The text of a link, or why there is none.
pub open spec fn link_uri(l: LinkView) -> Result<Seq<char>, LinkErrorView> {
    if l.1 is None && l.2 is None {
        Err(LinkErrorView::MissingParameters)
    } else {
        Ok(link_text(l))
    }
}

/// The text `braid://<session_id>?<query>` of a link.
pub open spec fn link_text(l: LinkView) -> Seq<char> {
    "braid://"@ + l.0 + seq!['?'] + link_query(l)
}

/// Characters a session id may hold for its link to read back unchanged:
/// ASCII lowercase letters, digits and `-`.
pub open spec fn plain_id_char(c: char) -> bool {
    ('a' <= c && c <= 'z') || ('0' <= c && c <= '9') || c == '-'
}

/// A link whose text reads back as itself: a non-empty session id of plain
/// characters, at least one parameter, and no empty parameter.
pub open spec fn plain_link(l: LinkView) -> bool {
    &&& l.0.len() > 0
    &&& forall|i: int| 0 <= i < l.0.len() ==> plain_id_char(#[trigger] l.0[i])
    &&& l.1 is Some || l.2 is Some
    &&& l.1 matches Some(s) ==> s.len() > 0
    &&& l.2 matches Some(m) ==> m.len() > 0
}

impl LinkError {
    /// The error's message, as the command line prints it.
    pub fn message(&self) -> (r: String)
        ensures
            r@ == match self@ {
                LinkErrorView::InvalidScheme(s) => "unsupported scheme: "@ + s,
                LinkErrorView::MissingParameters => "missing both 'signal' and 'manifest' parameters in braid link"@,
                LinkErrorView::Parse(s) => "invalid link: "@ + s,
            },
    {
        match self {
            LinkError::InvalidScheme(s) => owned("unsupported scheme: ").concat(s.as_str()),
            LinkError::MissingParameters => owned(
                "missing both 'signal' and 'manifest' parameters in braid link",
            ),
            LinkError::Parse(s) => owned("invalid link: ").concat(s.as_str()),
        }
    }
}

impl SessionLink {
    /// Interprets the parts of a parsed URL as a session link.
    pub fn from_url_parts(parts: UrlParts) -> (r: Result<SessionLink, LinkError>)
        ensures
            link_result_view(r) == link_from_components(parts@),
    {
        if !str_eq(parts.scheme.as_str(), "braid") {
            return Err(LinkError::InvalidScheme(parts.scheme));
        }
        let session_id = match &parts.host {
            Some(h) => {
                if !h.as_str().is_empty() {
                    h.clone()
                } else {
                    trim_start_matches_char(parts.path.as_str(), '/')
                }
            },
            None => trim_start_matches_char(parts.path.as_str(), '/'),
        };
        let signal_url = find_last_nonempty(&parts.query_pairs, "signal");
        let manifest_path = find_last_nonempty(&parts.query_pairs, "manifest");
        if signal_url.is_none() && manifest_path.is_none() {
            return Err(LinkError::MissingParameters);
        }
        Ok(SessionLink { session_id, signal_url, manifest_path })
    }

    /// Parses a `braid://` link.
    pub fn parse(uri: &str) -> (r: Result<SessionLink, LinkError>)
        ensures
            match url_components(uri@) {
                None => r matches Err(LinkError::Parse(msg)) && msg@ == url_parse_error_text(uri@),
                Some(c) => link_result_view(r) == link_from_components(c),
            },
            forall|l: LinkView| plain_link(l) && #[trigger] link_text(l) == uri@ ==> link_result_view(r) == Ok::<LinkView, LinkErrorView>(l),
    {
        match parse_url(uri) {
            Ok(parts) => {
                let ghost pv = parts@;
                let r = SessionLink::from_url_parts(parts);
                assert forall|l: LinkView| plain_link(l) && #[trigger] link_text(l) == uri@ implies link_result_view(r) == Ok::<LinkView, LinkErrorView>(l) by {
                    assert(pv == link_components(l));
                    lemma_link_read_back(l);
                }
                r
            },
            Err(msg) => Err(LinkError::Parse(msg)),
        }
    }

    /// The link as text, `braid://<session_id>?<query>`.
    pub fn to_uri(&self) -> (r: Result<String, LinkError>)
        ensures
            uri_result_view(r) == link_uri(self@),
    {
        if self.signal_url.is_none() && self.manifest_path.is_none() {
            return Err(LinkError::MissingParameters);
        }
        let mut pairs: Vec<(String, String)> = Vec::new();
        match &self.signal_url {
            Some(sig) => pairs.push((owned("signal"), sig.clone())),
            None => {},
        }
        match &self.manifest_path {
            Some(m) => pairs.push((owned("manifest"), m.clone())),
            None => {},
        }
        assert(pair_texts(pairs@) =~= link_pairs(self@));
        let query = form_urlencoded_query(&pairs);
        let mut uri = owned("braid://");
        uri.append(self.session_id.as_str());
        push_char(&mut uri, '?');
        uri.append(query.as_str());
        assert(uri@ =~= link_text(self@));
        Ok(uri)
    }
}

/// The query pairs that a link's text carries, once decoded.
pub open spec fn link_pairs(l: LinkView) -> Seq<(Seq<char>, Seq<char>)> {
    let a: Seq<(Seq<char>, Seq<char>)> = match l.1 {
        Some(s) => seq![("signal"@, s)],
        None => Seq::empty(),
    };
    let b: Seq<(Seq<char>, Seq<char>)> = match l.2 {
        Some(m) => seq![("manifest"@, m)],
        None => Seq::empty(),
    };
    a + b
}

/// The parts of a link's text as `parse_url` states them for a plain link:
/// scheme `braid`, the session id as host, no port, an empty path and the
/// link's pairs.
pub open spec fn link_components(l: LinkView) -> UrlView {
    ("braid"@, Some(l.0), None, Seq::empty(), link_pairs(l))
}

/// Interpreting `link_components` of a link gives the link again, provided
/// its session id is not empty and every parameter it carries is non-empty
/// (an empty parameter is dropped when read back). With `parse_url`'s
/// statement on plain links this is the round trip that `SessionLink::parse`
/// states: parsing `to_uri`'s text gives back the link.
pub proof fn lemma_link_read_back(l: LinkView)
    requires
        l.0.len() > 0,
        l.1 is Some || l.2 is Some,
        l.1 matches Some(s) ==> s.len() > 0,
        l.2 matches Some(m) ==> m.len() > 0,
    ensures
        link_from_components(link_components(l)) == Ok::<LinkView, LinkErrorView>(l),
{
    let pairs = link_pairs(l);
    reveal_strlit("signal");
    reveal_strlit("manifest");
    assert("signal"@ != "manifest"@) by {
        assert("signal"@[0] != "manifest"@[0]);
    }
    match l.1 {
        Some(s) => match l.2 {
            Some(m) => {
                assert(pairs.drop_last() =~= seq![("signal"@, s)]);
                assert(pairs.last() == ("manifest"@, m));
                assert(pairs.drop_last().last() == ("signal"@, s));
                assert(pairs.drop_last().drop_last() =~= Seq::<(Seq<char>, Seq<char>)>::empty());
                assert(last_nonempty_value(pairs.drop_last(), "signal"@) == Some(s));
                assert(last_nonempty_value(pairs, "signal"@) == Some(s));
                assert(last_nonempty_value(pairs, "manifest"@) == Some(m));
            },
            None => {
                assert(pairs =~= seq![("signal"@, s)]);
                assert(pairs.drop_last() =~= Seq::<(Seq<char>, Seq<char>)>::empty());
                assert(pairs.last() == ("signal"@, s));
                assert(last_nonempty_value(pairs.drop_last(), "manifest"@) == None::<Seq<char>>);
                assert(last_nonempty_value(pairs, "signal"@) == Some(s));
                assert(last_nonempty_value(pairs, "manifest"@) == None::<Seq<char>>);
            },
        },
        None => {
            let m = l.2.unwrap();
            assert(pairs =~= seq![("manifest"@, m)]);
            assert(pairs.drop_last() =~= Seq::<(Seq<char>, Seq<char>)>::empty());
            assert(pairs.last() == ("manifest"@, m));
            assert(last_nonempty_value(pairs.drop_last(), "signal"@) == None::<Seq<char>>);
            assert(last_nonempty_value(pairs, "manifest"@) == Some(m));
            assert(last_nonempty_value(pairs, "signal"@) == None::<Seq<char>>);
        },
    }
}

/// A non-empty last value is one of the pairs' values.
proof fn lemma_last_nonempty_value_nonempty(pairs: Seq<(Seq<char>, Seq<char>)>, key: Seq<char>)
    ensures
        last_nonempty_value(pairs, key) matches Some(v) ==> v.len() > 0,
    decreases pairs.len(),
{
    if pairs.len() > 0 {
        lemma_last_nonempty_value_nonempty(pairs.drop_last(), key);
    }
}

/// A plain link has a text: `to_uri` succeeds on it and gives `link_text`.
pub proof fn lemma_plain_link_has_text(l: LinkView)
    requires
        plain_link(l),
    ensures
        link_uri(l) == Ok::<Seq<char>, LinkErrorView>(link_text(l)),
{
}

/// Every link that parses can be written back as text, and what it carries
/// is non-empty.
pub proof fn lemma_parsed_link_has_uri(c: UrlView)
    ensures
        link_from_components(c) matches Ok(l) ==> {
            &&& link_uri(l) is Ok
            &&& l.1 matches Some(s) ==> s.len() > 0
            &&& l.2 matches Some(m) ==> m.len() > 0
        },
{
    lemma_last_nonempty_value_nonempty(c.4, "signal"@);
    lemma_last_nonempty_value_nonempty(c.4, "manifest"@);
}

/// The byte serializer never writes `&`, `=` or `#`, so an encoded value
/// cannot end its query piece early or start another one.
pub proof fn lemma_urlencoded_has_no_separators(bytes: Seq<u8>)
    ensures
        !form_urlencoded(bytes).contains('&'),
        !form_urlencoded(bytes).contains('='),
        !form_urlencoded(bytes).contains('#'),
    decreases bytes.len(),
{
    if bytes.len() > 0 {
        lemma_urlencoded_has_no_separators(bytes.drop_last());
        let prev = form_urlencoded(bytes.drop_last());
        let piece = urlencoded_byte(bytes.last());
        assert forall|c: char| c == '&' || c == '=' || c == '#' implies !(prev + piece).contains(c) by {
            if (prev + piece).contains(c) {
                let i = choose|i: int| 0 <= i < (prev + piece).len() && (prev + piece)[i] == c;
                if i < prev.len() {
                    assert(prev[i] == c);
                } else {
                    assert(piece[i - prev.len()] == c);
                }
            }
        }
    }
}

} // verus!
