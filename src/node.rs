//! Proxy nodes and their two URI forms, `vmess://` and `ssr://`.

use vstd::prelude::*;
use vstd::utf8::{decode_utf8, encode_utf8, encode_utf8_decode_utf8, encode_utf8_valid_utf8, valid_utf8};
use crate::encoding::{
    encode_std, encode_url, encode_url_unpadded, std_b64_decoded, std_b64_encoded, std_text,
    url_b64_char, url_b64_decoded, url_b64_encoded, url_b64_unpadded, url_text, TextError,
};
use crate::json::{json_object_members, json_quoted, json_string_value, members_view, parse_object, parse_string, quote};
use crate::pairs::{find_key, keys_unique, lemma_key_pos_none, lookup, put, put_pair};
use crate::text::{
    chars_of, cut, extend, find, has_infix, joined, lemma_cut_first, lemma_find_pat_at,
    lemma_find_pat_none, lemma_split_joined, occurs_at, push_joined, same, slice_of, split_char,
    split_on, string_of, trim, trimmed,
};

verus! {

/// One proxy node.
#[derive(Debug)]
pub enum Node {
    /// A vmess node: the members of its JSON object, each value in JSON text.
    VMess { members: Vec<(String, String)> },
    /// An ssr node: the part before `?` and the query's key and value pairs.
    Ssr { path: String, query: Vec<(String, String)> },
}

/// What a node holds, as characters.
pub enum NodeView {
    VMess { members: Seq<(Seq<char>, Seq<char>)> },
    Ssr { path: Seq<char>, query: Seq<(Seq<char>, Seq<char>)> },
}

impl View for Node {
    type V = NodeView;

    open spec fn view(&self) -> NodeView {
        match self {
            Node::VMess { members } => NodeView::VMess { members: members_view(members@) },
            Node::Ssr { path, query } => NodeView::Ssr { path: path@, query: members_view(query@) },
        }
    }
}

/// Why a URI did not decode.
#[derive(Debug)]
pub enum UriError {
    /// The URI does not hold `://` exactly once.
    MalformedUri,
    /// The scheme before `://` is neither `vmess` nor `ssr`.
    UnsupportedProtocol(String),
    /// The body is not base64.
    InvalidBase64,
    /// The decoded body is not UTF-8.
    InvalidUtf8,
    /// A vmess body is not a JSON object.
    InvalidJson,
    /// An ssr body has no `?`.
    MissingQuery,
}

/// A decode error, as characters.
pub enum UriFault {
    MalformedUri,
    UnsupportedProtocol(Seq<char>),
    InvalidBase64,
    InvalidUtf8,
    InvalidJson,
    MissingQuery,
}

impl View for UriError {
    type V = UriFault;

    open spec fn view(&self) -> UriFault {
        match self {
            UriError::MalformedUri => UriFault::MalformedUri,
            UriError::UnsupportedProtocol(t) => UriFault::UnsupportedProtocol(t@),
            UriError::InvalidBase64 => UriFault::InvalidBase64,
            UriError::InvalidUtf8 => UriFault::InvalidUtf8,
            UriError::InvalidJson => UriFault::InvalidJson,
            UriError::MissingQuery => UriFault::MissingQuery,
        }
    }
}

/// Why a node's display name could not be read.
#[derive(Debug, Clone, Copy, PartialEq, Eq, Structural)]
pub enum NameError {
    /// The node has no `ps` member or `remarks` key.
    Missing,
    /// The `ps` member is not a JSON string.
    NotString,
    /// The `remarks` value is not base64.
    InvalidBase64,
    /// The decoded `remarks` value is not UTF-8.
    InvalidUtf8,
}

pub open spec fn scheme_sep() -> Seq<char> {
    seq![':', '/', '/']
}

pub open spec fn vmess_tag() -> Seq<char> {
    seq!['v', 'm', 'e', 's', 's']
}

pub open spec fn ssr_tag() -> Seq<char> {
    seq!['s', 's', 'r']
}

pub open spec fn ps_key() -> Seq<char> {
    seq!['p', 's']
}

pub open spec fn remarks_key() -> Seq<char> {
    seq!['r', 'e', 'm', 'a', 'r', 'k', 's']
}

/// A query pair: split once at `=`, the value empty where there is none.
pub open spec fn query_pair(p: Seq<char>) -> (Seq<char>, Seq<char>) {
    match cut(p, seq!['=']) {
        Some((k, v)) => (k, v),
        None => (p, Seq::<char>::empty()),
    }
}

/// The query made of the pairs in order, a later key replacing an earlier one.
pub open spec fn query_of(parts: Seq<Seq<char>>) -> Seq<(Seq<char>, Seq<char>)>
    decreases parts.len(),
{
    if parts.len() == 0 {
        Seq::empty()
    } else {
        let (k, v) = query_pair(parts.last());
        put(query_of(parts.drop_last()), k, v)
    }
}

/// The node that the body of a `vmess://` URI decodes to.
pub open spec fn vmess_body(body: Seq<char>) -> Result<NodeView, UriFault> {
    match std_b64_decoded(body) {
        None => Err(UriFault::InvalidBase64),
        Some(b) => if !valid_utf8(b) {
            Err(UriFault::InvalidUtf8)
        } else {
            match json_object_members(decode_utf8(b)) {
                None => Err(UriFault::InvalidJson),
                Some(m) => Ok(NodeView::VMess { members: m }),
            }
        },
    }
}

/// The ssr node written in `t`: the path up to the first `?`, then the query's
/// `&`-separated pairs.
pub open spec fn ssr_text_node(t: Seq<char>) -> Option<NodeView> {
    match cut(t, seq!['?']) {
        None => None,
        Some((path, q)) => Some(NodeView::Ssr { path, query: query_of(split_on(q, '&')) }),
    }
}

/// The node that the body of an `ssr://` URI decodes to.
pub open spec fn ssr_body(body: Seq<char>) -> Result<NodeView, UriFault> {
    match url_b64_decoded(body) {
        None => Err(UriFault::InvalidBase64),
        Some(b) => if !valid_utf8(b) {
            Err(UriFault::InvalidUtf8)
        } else {
            match ssr_text_node(decode_utf8(b)) {
                None => Err(UriFault::MissingQuery),
                Some(n) => Ok(n),
            }
        },
    }
}

/// The node that the URI `s` decodes to.
pub open spec fn decode_uri(s: Seq<char>) -> Result<NodeView, UriFault> {
    match cut(s, scheme_sep()) {
        None => Err(UriFault::MalformedUri),
        Some((tag, body)) => if has_infix(body, scheme_sep()) {
            Err(UriFault::MalformedUri)
        } else if tag == vmess_tag() {
            vmess_body(body)
        } else if tag == ssr_tag() {
            ssr_body(body)
        } else {
            Err(UriFault::UnsupportedProtocol(tag))
        },
    }
}

/// A JSON object member as text: the quoted key, `:`, the value.
pub open spec fn member_text(e: (Seq<char>, Seq<char>)) -> Seq<char> {
    json_quoted(e.0).push(':') + e.1
}

/// The compact JSON text of an object with the members `m`.
pub open spec fn object_text(m: Seq<(Seq<char>, Seq<char>)>) -> Seq<char> {
    seq!['{'] + joined(m.map_values(|e: (Seq<char>, Seq<char>)| member_text(e)), ',') + seq!['}']
}

/// A query pair as text: key, `=`, value.
pub open spec fn pair_text(e: (Seq<char>, Seq<char>)) -> Seq<char> {
    e.0.push('=') + e.1
}

/// The query as text: its pairs joined with `&`.
pub open spec fn query_text(q: Seq<(Seq<char>, Seq<char>)>) -> Seq<char> {
    joined(q.map_values(|e: (Seq<char>, Seq<char>)| pair_text(e)), '&')
}

/// The URI of a node.
pub open spec fn encode_node(n: NodeView) -> Seq<char> {
    match n {
        NodeView::VMess { members } => vmess_tag() + scheme_sep() + std_b64_encoded(
            encode_utf8(object_text(members)),
        ),
        NodeView::Ssr { path, query } => ssr_tag() + scheme_sep() + url_b64_encoded(
            encode_utf8(path.push('?') + query_text(query)),
        ),
    }
}

/// The display name of a node, trimmed.
pub open spec fn name_of(n: NodeView) -> Result<Seq<char>, NameError> {
    match n {
        NodeView::VMess { members } => match lookup(members, ps_key()) {
            None => Err(NameError::Missing),
            Some(v) => match json_string_value(v) {
                None => Err(NameError::NotString),
                Some(s) => Ok(trim(s)),
            },
        },
        NodeView::Ssr { query, .. } => match lookup(query, remarks_key()) {
            None => Err(NameError::Missing),
            Some(v) => match url_b64_decoded(v) {
                None => Err(NameError::InvalidBase64),
                Some(b) => if valid_utf8(b) {
                    Ok(trim(decode_utf8(b)))
                } else {
                    Err(NameError::InvalidUtf8)
                },
            },
        },
    }
}

/// The node with its display name set to `name`.
pub open spec fn named(n: NodeView, name: Seq<char>) -> NodeView {
    match n {
        NodeView::VMess { members } => NodeView::VMess {
            members: put(members, ps_key(), json_quoted(name)),
        },
        NodeView::Ssr { path, query } => NodeView::Ssr {
            path,
            query: put(query, remarks_key(), url_b64_unpadded(encode_utf8(name))),
        },
    }
}

/// An ssr node that its URI gives back: the path holds no `?`, the query has
/// at least one pair, its keys are distinct and hold neither `&` nor `=`, and
/// its values hold no `&`.
pub open spec fn ssr_well_formed(path: Seq<char>, query: Seq<(Seq<char>, Seq<char>)>) -> bool {
    &&& !path.contains('?')
    &&& query.len() >= 1
    &&& keys_unique(query)
    &&& forall|i: int|
        0 <= i < query.len() ==> !(#[trigger] query[i]).0.contains('&') && !query[i].0.contains('=')
            && !query[i].1.contains('&')
}

proof fn lemma_no_char_in_concat(a: Seq<char>, b: Seq<char>, c: char)
    requires
        !a.contains(c),
        !b.contains(c),
    ensures
        !(a + b).contains(c),
{
    if (a + b).contains(c) {
        let j = choose|j: int| 0 <= j < (a + b).len() && (a + b)[j] == c;
        if j < a.len() {
            assert(a[j] == c);
        } else {
            assert(b[j - a.len()] == c);
        }
    }
}

proof fn lemma_query_pairs(q: Seq<(Seq<char>, Seq<char>)>)
    requires
        keys_unique(q),
        forall|i: int| 0 <= i < q.len() ==> !(#[trigger] q[i]).0.contains('='),
    ensures
        query_of(q.map_values(|e: (Seq<char>, Seq<char>)| pair_text(e))) == q,
    decreases q.len(),
{
    let parts = q.map_values(|e: (Seq<char>, Seq<char>)| pair_text(e));
    if q.len() > 0 {
        let prev = q.drop_last();
        assert(parts.drop_last() =~= prev.map_values(|e: (Seq<char>, Seq<char>)| pair_text(e)));
        assert forall|i: int| 0 <= i < prev.len() implies !(#[trigger] prev[i]).0.contains('=') by {
            assert(prev[i] == q[i]);
        }
        lemma_query_pairs(prev);
        let (k, v) = q.last();
        assert(!q[q.len() - 1].0.contains('='));
        lemma_cut_first(k, '=', v);
        assert(parts.last() == k.push('=') + v);
        assert forall|j: int| 0 <= j < prev.len() implies prev[j].0 != k by {
            assert(prev[j] == q[j]);
        }
        lemma_key_pos_none(prev, k);
        assert(prev.push((k, v)) =~= q);
    } else {
        assert(parts =~= Seq::<Seq<char>>::empty());
        assert(q =~= Seq::<(Seq<char>, Seq<char>)>::empty());
    }
}

/// The URI of a well-formed ssr node, its body a URL-safe base64 text of the
/// path and query, decodes back to that node.
proof fn lemma_ssr_decodes(path: Seq<char>, query: Seq<(Seq<char>, Seq<char>)>, body: Seq<char>)
    requires
        ssr_well_formed(path, query),
        url_b64_decoded(body) == Some(encode_utf8(path.push('?') + query_text(query))),
        forall|i: int| 0 <= i < body.len() ==> url_b64_char(#[trigger] body[i]),
    ensures
        decode_uri(ssr_tag() + scheme_sep() + body) == Ok::<NodeView, UriFault>(
            NodeView::Ssr { path, query },
        ),
{
    let sep = scheme_sep();
    let s = ssr_tag() + sep + body;
    assert(s.subrange(3, 6) =~= sep);
    assert forall|j: int| 0 <= j < 3 implies !occurs_at(s, sep, j) by {
        if occurs_at(s, sep, j) {
            assert(s.subrange(j, j + 3)[0] == s[j]);
        }
    }
    lemma_find_pat_at(s, sep, 3);
    assert(s.subrange(0, 3) =~= ssr_tag());
    assert(s.subrange(6, s.len() as int) =~= body);
    assert forall|j: int| !occurs_at(body, sep, j) by {
        if occurs_at(body, sep, j) {
            assert(body.subrange(j, j + 3)[0] == body[j]);
            assert(url_b64_char(body[j]));
        }
    }
    lemma_find_pat_none(body, sep);
    assert(ssr_tag() != vmess_tag()) by {
        assert(ssr_tag().len() != vmess_tag().len());
    }
    let qt = query_text(query);
    let t = path.push('?') + qt;
    encode_utf8_valid_utf8(t);
    encode_utf8_decode_utf8(t);
    lemma_cut_first(path, '?', qt);
    let parts = query.map_values(|e: (Seq<char>, Seq<char>)| pair_text(e));
    assert forall|i: int| 0 <= i < parts.len() implies !(#[trigger] parts[i]).contains('&') by {
        let e = query[i];
        assert(!e.0.contains('&') && !e.1.contains('&'));
        assert(!e.0.push('=').contains('&')) by {
            if e.0.push('=').contains('&') {
                let j = choose|j: int| 0 <= j < e.0.push('=').len() && e.0.push('=')[j] == '&';
                assert(e.0[j] == '&');
            }
        }
        lemma_no_char_in_concat(e.0.push('='), e.1, '&');
    }
    lemma_split_joined(parts, '&');
    assert forall|i: int| 0 <= i < query.len() implies !(#[trigger] query[i]).0.contains('=') by {}
    lemma_query_pairs(query);
}

pub open spec fn decode_view(r: Result<Node, UriError>) -> Result<NodeView, UriFault> {
    match r {
        Ok(n) => Ok(n@),
        Err(e) => Err(e@),
    }
}

fn text_error(e: TextError) -> (r: UriError)
    ensures
        e == TextError::Base64 ==> r@ == UriFault::InvalidBase64,
        e == TextError::Utf8 ==> r@ == UriFault::InvalidUtf8,
{
    match e {
        TextError::Base64 => UriError::InvalidBase64,
        TextError::Utf8 => UriError::InvalidUtf8,
    }
}

fn decode_vmess(body: &[char]) -> (r: Result<Node, UriError>)
    ensures
        decode_view(r) == vmess_body(body@),
{
    let text = match std_text(string_of(body).as_str()) {
        Ok(t) => t,
        Err(e) => return Err(text_error(e)),
    };
    match parse_object(string_of(text.as_slice()).as_str()) {
        Ok(m) => Ok(Node::VMess { members: m }),
        Err(_) => Err(UriError::InvalidJson),
    }
}

/// The query's pair `p` as two strings.
fn query_pair_of(p: &[char]) -> (r: (String, String))
    ensures
        (r.0@, r.1@) == query_pair(p@),
{
    let eq = ['='];
    let n = p.len();
    assert(eq@ =~= seq!['=']);
    match find(p, &eq) {
        Some(i) => (string_of(slice_of(p, 0, i).as_slice()), string_of(slice_of(p, i + 1, n).as_slice())),
        None => (string_of(p), String::new()),
    }
}

fn decode_ssr(body: &[char]) -> (r: Result<Node, UriError>)
    ensures
        decode_view(r) == ssr_body(body@),
{
    let text = match url_text(string_of(body).as_str()) {
        Ok(t) => t,
        Err(e) => return Err(text_error(e)),
    };
    match Node::from_ssr_text(string_of(text.as_slice()).as_str()) {
        Some(n) => Ok(n),
        None => Err(UriError::MissingQuery),
    }
}

/// The texts of the given pairs: JSON members (`json`) or query pairs.
fn pair_texts(q: &Vec<(String, String)>, json: bool) -> (r: Vec<Vec<char>>)
    ensures
        json ==> r@.map_values(|v: Vec<char>| v@) == members_view(q@).map_values(
            |e: (Seq<char>, Seq<char>)| member_text(e),
        ),
        !json ==> r@.map_values(|v: Vec<char>| v@) == members_view(q@).map_values(
            |e: (Seq<char>, Seq<char>)| pair_text(e),
        ),
{
    let ghost m = members_view(q@);
    let mut r: Vec<Vec<char>> = Vec::new();
    let mut i: usize = 0;
    while i < q.len()
        invariant
            i <= q@.len() == m.len(),
            m == members_view(q@),
            r@.len() == i,
            forall|j: int| 0 <= j < i ==> #[trigger] r@[j]@ == (if json {
                member_text(m[j])
            } else {
                pair_text(m[j])
            }),
        decreases q@.len() - i,
    {
        let mut t: Vec<char> = if json {
            chars_of(quote(q[i].0.as_str()).as_str())
        } else {
            chars_of(q[i].0.as_str())
        };
        t.push(if json { ':' } else { '=' });
        extend(&mut t, chars_of(q[i].1.as_str()).as_slice());
        r.push(t);
        i = i + 1;
    }
    if json {
        assert(r@.map_values(|v: Vec<char>| v@) =~= m.map_values(
            |e: (Seq<char>, Seq<char>)| member_text(e),
        ));
    } else {
        assert(r@.map_values(|v: Vec<char>| v@) =~= m.map_values(
            |e: (Seq<char>, Seq<char>)| pair_text(e),
        ));
    }
    r
}

impl Node {
    /// The ssr node written in the decoded text `t`: the path up to the first
    /// `?`, then the query's `&`-separated pairs, each split at its first `=`
    /// (the value empty where there is none), a later key replacing an earlier.
    pub fn from_ssr_text(t: &str) -> (r: Option<Node>)
        ensures
            r is None <==> ssr_text_node(t@) is None,
            r matches Some(n) ==> ssr_text_node(t@) == Some(n@),
    {
        let text = chars_of(t);
        let n = text.len();
        let qm = ['?'];
        assert(qm@ =~= seq!['?']);
        let i = match find(text.as_slice(), &qm) {
            Some(i) => i,
            None => return None,
        };
        let path = string_of(slice_of(text.as_slice(), 0, i).as_slice());
        let q = slice_of(text.as_slice(), i + 1, n);
        let parts = split_char(q.as_slice(), '&');
        let ghost pv = parts@.map_values(|v: Vec<char>| v@);
        let mut query: Vec<(String, String)> = Vec::new();
        let mut j: usize = 0;
        assert(pv.subrange(0, 0) =~= Seq::<Seq<char>>::empty());
        while j < parts.len()
            invariant
                j <= parts@.len() == pv.len(),
                pv == parts@.map_values(|v: Vec<char>| v@),
                members_view(query@) == query_of(pv.subrange(0, j as int)),
            decreases parts@.len() - j,
        {
            let (k, v) = query_pair_of(parts[j].as_slice());
            put_pair(&mut query, k, v);
            let ghost next = pv.subrange(0, j + 1);
            assert(next.drop_last() =~= pv.subrange(0, j as int));
            j = j + 1;
        }
        assert(pv.subrange(0, pv.len() as int) =~= pv);
        Some(Node::Ssr { path, query })
    }

    /// The URI of the node: `vmess://` or `ssr://`, then its body in base64.
    pub fn to_string(&self) -> (r: String)
        ensures
            r@ == encode_node(self@),
            (self@ matches NodeView::Ssr { path, query } && ssr_well_formed(path, query))
                ==> decode_uri(r@) == Ok::<NodeView, UriFault>(self@),
    {
        let mut out: Vec<char> = Vec::new();
        match self {
            Node::VMess { members } => {
                let mut text: Vec<char> = vec!['{'];
                push_joined(&mut text, &pair_texts(members, true), ',');
                text.push('}');
                assert(text@ =~= object_text(members_view(members@)));
                let body = encode_std(string_of(text.as_slice()).as_str().as_bytes());
                out.push('v');
                out.push('m');
                out.push('e');
                out.push('s');
                out.push('s');
                out.push(':');
                out.push('/');
                out.push('/');
                extend(&mut out, chars_of(body.as_str()).as_slice());
            },
            Node::Ssr { path, query } => {
                let mut text: Vec<char> = chars_of(path.as_str());
                text.push('?');
                push_joined(&mut text, &pair_texts(query, false), '&');
                assert(text@ =~= path@.push('?') + query_text(members_view(query@)));
                let body = encode_url(string_of(text.as_slice()).as_str().as_bytes());
                proof {
                    if ssr_well_formed(path@, members_view(query@)) {
                        lemma_ssr_decodes(path@, members_view(query@), body@);
                    }
                }
                out.push('s');
                out.push('s');
                out.push('r');
                out.push(':');
                out.push('/');
                out.push('/');
                extend(&mut out, chars_of(body.as_str()).as_slice());
            },
        }
        assert(out@ =~= encode_node(self@));
        string_of(out.as_slice())
    }

    /// The display name: the `ps` member (a JSON string) of a vmess node, the
    /// `remarks` value (URL-safe base64 of UTF-8) of an ssr node; trimmed.
    pub fn name(&self) -> (r: Result<String, NameError>)
        ensures
            r matches Ok(s) ==> name_of(self@) == Ok::<Seq<char>, NameError>(s@),
            r matches Err(e) ==> name_of(self@) == Err::<Seq<char>, NameError>(e),
    {
        match self {
            Node::VMess { members } => {
                let key = string_of(&['p', 's']);
                assert(key@ =~= ps_key());
                let i = match find_key(members, &key) {
                    Some(i) => i,
                    None => return Err(NameError::Missing),
                };
                match parse_string(members[i].1.as_str()) {
                    Ok(s) => Ok(string_of(trimmed(chars_of(s.as_str()).as_slice()).as_slice())),
                    Err(_) => Err(NameError::NotString),
                }
            },
            Node::Ssr { query, .. } => {
                let key = string_of(&['r', 'e', 'm', 'a', 'r', 'k', 's']);
                assert(key@ =~= remarks_key());
                let i = match find_key(query, &key) {
                    Some(i) => i,
                    None => return Err(NameError::Missing),
                };
                match url_text(query[i].1.as_str()) {
                    Ok(t) => Ok(string_of(trimmed(t.as_slice()).as_slice())),
                    Err(TextError::Base64) => Err(NameError::InvalidBase64),
                    Err(TextError::Utf8) => Err(NameError::InvalidUtf8),
                }
            },
        }
    }

    /// Sets the display name: the `ps` member of a vmess node, the `remarks`
    /// value (URL-safe base64 without padding) of an ssr node.
    pub fn set_name(&mut self, name: &str)
        ensures
            final(self)@ == named(old(self)@, name@),
    {
        match self {
            Node::VMess { members } => {
                let key = string_of(&['p', 's']);
                assert(key@ =~= ps_key());
                put_pair(members, key, quote(name));
            },
            Node::Ssr { query, .. } => {
                let key = string_of(&['r', 'e', 'm', 'a', 'r', 'k', 's']);
                assert(key@ =~= remarks_key());
                put_pair(query, key, encode_url_unpadded(name.as_bytes()));
            },
        }
    }

    /// Decodes a `vmess://` or `ssr://` URI.
    pub fn decode(uri: &str) -> (r: Result<Node, UriError>)
        ensures
            decode_view(r) == decode_uri(uri@),
    {
        let s = chars_of(uri);
        let n = s.len();
        let sep = [':', '/', '/'];
        assert(sep@ =~= scheme_sep());
        let i = match find(s.as_slice(), &sep) {
            Some(i) => i,
            None => return Err(UriError::MalformedUri),
        };
        let tag = slice_of(s.as_slice(), 0, i);
        let body = slice_of(s.as_slice(), i + 3, n);
        if find(body.as_slice(), &sep).is_some() {
            return Err(UriError::MalformedUri);
        }
        let vmess = ['v', 'm', 'e', 's', 's'];
        let ssr = ['s', 's', 'r'];
        assert(vmess@ =~= vmess_tag());
        assert(ssr@ =~= ssr_tag());
        if same(tag.as_slice(), &vmess) {
            decode_vmess(body.as_slice())
        } else if same(tag.as_slice(), &ssr) {
            decode_ssr(body.as_slice())
        } else {
            Err(UriError::UnsupportedProtocol(string_of(tag.as_slice())))
        }
    }
}

} // verus!
