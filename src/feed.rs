//! A feed ("airport"): a base64 blob of node URIs, one per line.

use vstd::prelude::*;
use vstd::utf8::{decode_utf8, valid_utf8};
use crate::encoding::{std_b64_decoded, std_b64_text, std_text, TextError};
use crate::node::{scheme_sep, decode_uri, decode_view, Node, NodeView, UriError, UriFault};
use crate::text::{has_infix, chars_of, slice_of, split_char, split_on, string_of};

verus! {

/// A feed's name and its nodes.
#[derive(Debug)]
pub struct Airport {
    pub name: String,
    pub nodes: Vec<Node>,
}

/// Why a feed did not decode.
#[derive(Debug)]
pub enum FeedError {
    /// The feed is not base64.
    InvalidBase64,
    /// The decoded feed is not UTF-8.
    InvalidUtf8,
    /// A line of the feed is not a node URI.
    BadNode(UriError),
}

/// A feed error, as characters.
pub enum FeedFault {
    InvalidBase64,
    InvalidUtf8,
    BadNode(UriFault),
}

impl View for FeedError {
    type V = FeedFault;

    open spec fn view(&self) -> FeedFault {
        match self {
            FeedError::InvalidBase64 => FeedFault::InvalidBase64,
            FeedError::InvalidUtf8 => FeedFault::InvalidUtf8,
            FeedError::BadNode(e) => FeedFault::BadNode(e@),
        }
    }
}

/// The views of a list of nodes.
pub open spec fn nodes_view(ns: Seq<Node>) -> Seq<NodeView> {
    ns.map_values(|n: Node| n@)
}

/// A line without the `\r` of a `\r\n` ending.
pub open spec fn line_of(p: Seq<char>) -> Seq<char> {
    if p.len() > 0 && p.last() == '\r' {
        p.drop_last()
    } else {
        p
    }
}

/// The nodes of the lines, in order, empty lines skipped; the first line that
/// does not decode fails them all.
pub open spec fn decode_lines(ps: Seq<Seq<char>>) -> Result<Seq<NodeView>, UriFault>
    decreases ps.len(),
{
    if ps.len() == 0 {
        Ok(Seq::empty())
    } else {
        match decode_lines(ps.drop_last()) {
            Err(e) => Err(e),
            Ok(ns) => if line_of(ps.last()).len() == 0 {
                Ok(ns)
            } else {
                match decode_uri(line_of(ps.last())) {
                    Err(e) => Err(e),
                    Ok(n) => Ok(ns.push(n)),
                }
            },
        }
    }
}

/// The nodes of a feed.
pub open spec fn feed_nodes(t: Seq<char>) -> Result<Seq<NodeView>, FeedFault> {
    match std_b64_decoded(t) {
        None => Err(FeedFault::InvalidBase64),
        Some(b) => if !valid_utf8(b) {
            Err(FeedFault::InvalidUtf8)
        } else {
            match decode_lines(split_on(decode_utf8(b), '\n')) {
                Err(e) => Err(FeedFault::BadNode(e)),
                Ok(ns) => Ok(ns),
            }
        },
    }
}

/// The lines fail as a whole where one of them is not a node URI.
proof fn lemma_bad_line_fails_lines(ps: Seq<Seq<char>>, i: int)
    requires
        0 <= i < ps.len(),
        line_of(ps[i]).len() > 0,
        decode_uri(line_of(ps[i])) is Err,
    ensures
        decode_lines(ps) is Err,
    decreases ps.len(),
{
    if i < ps.len() - 1 {
        assert(ps.drop_last()[i] == ps[i]);
        lemma_bad_line_fails_lines(ps.drop_last(), i);
    }
}

/// A feed with a non-empty line that holds no `://` fails as a whole, whatever
/// its other lines hold.
pub proof fn lemma_malformed_line_fails_feed(t: Seq<char>, i: int)
    requires
        std_b64_text(t) matches Some(text) && 0 <= i < split_on(text, '\n').len() && line_of(
            split_on(text, '\n')[i],
        ).len() > 0 && !has_infix(line_of(split_on(text, '\n')[i]), scheme_sep()),
    ensures
        feed_nodes(t) is Err,
{
    let text = std_b64_text(t)->Some_0;
    lemma_bad_line_fails_lines(split_on(text, '\n'), i);
}

impl Airport {
    /// Decodes the feed `encoded`: base64 (standard alphabet) of UTF-8 text,
    /// one node URI per non-empty line.
    pub fn new(name: &str, encoded: &str) -> (r: Result<Airport, FeedError>)
        ensures
            r matches Ok(a) ==> a.name@ == name@ && feed_nodes(encoded@) == Ok::<
                Seq<NodeView>,
                FeedFault,
            >(nodes_view(a.nodes@)),
            r matches Err(e) ==> feed_nodes(encoded@) == Err::<Seq<NodeView>, FeedFault>(e@),
    {
        let text = match std_text(encoded) {
            Ok(t) => t,
            Err(TextError::Base64) => return Err(FeedError::InvalidBase64),
            Err(TextError::Utf8) => return Err(FeedError::InvalidUtf8),
        };
        match Airport::from_text(name, string_of(text.as_slice()).as_str()) {
            Ok(a) => Ok(a),
            Err(e) => Err(FeedError::BadNode(e)),
        }
    }

    /// The feed `name` whose decoded text is `text`: one node URI per
    /// non-empty line (a `\r` before the `\n` ignored); the first line that
    /// is not a node URI fails the whole feed.
    pub fn from_text(name: &str, text: &str) -> (r: Result<Airport, UriError>)
        ensures
            r matches Ok(a) ==> a.name@ == name@ && decode_lines(split_on(text@, '\n')) == Ok::<
                Seq<NodeView>,
                UriFault,
            >(nodes_view(a.nodes@)),
            r matches Err(e) ==> decode_lines(split_on(text@, '\n')) == Err::<Seq<NodeView>, UriFault>(e@),
    {
        let chars = chars_of(text);
        let pieces = split_char(chars.as_slice(), '\n');
        let ghost pv = pieces@.map_values(|v: Vec<char>| v@);
        let mut nodes: Vec<Node> = Vec::new();
        let mut i: usize = 0;
        assert(pv.subrange(0, 0) =~= Seq::<Seq<char>>::empty());
        assert(nodes_view(nodes@) =~= Seq::<NodeView>::empty());
        while i < pieces.len()
            invariant
                i <= pieces@.len() == pv.len(),
                pv == pieces@.map_values(|v: Vec<char>| v@),
                pv == split_on(text@, '\n'),
                decode_lines(pv.subrange(0, i as int)) == Ok::<Seq<NodeView>, UriFault>(
                    nodes_view(nodes@),
                ),
            decreases pieces@.len() - i,
        {
            let ghost next = pv.subrange(0, i + 1);
            assert(next.drop_last() =~= pv.subrange(0, i as int));
            assert(next.last() == pv[i as int]);
            let p = pieces[i].as_slice();
            let n = p.len();
            let line = if n > 0 && p[n - 1] == '\r' {
                slice_of(p, 0, n - 1)
            } else {
                slice_of(p, 0, n)
            };
            assert(line@ =~= line_of(pv[i as int]));
            let ghost before = nodes@;
            if line.len() > 0 {
                let uri = string_of(line.as_slice());
                let dec = Node::decode(uri.as_str());
                assert(decode_view(dec) == decode_uri(line_of(next.last())));
                match dec {
                    Ok(node) => {
                        nodes.push(node);
                        assert(nodes_view(nodes@) =~= nodes_view(before).push(node@));
                        assert(decode_lines(next) == Ok::<Seq<NodeView>, UriFault>(nodes_view(nodes@)));
                    },
                    Err(e) => {
                        proof {
                            assert(decode_lines(next) == Err::<Seq<NodeView>, UriFault>(e@));
                            lemma_decode_lines_err_extends(pv, i + 1);
                            assert(decode_lines(pv) == Err::<Seq<NodeView>, UriFault>(e@));
                        }
                        return Err(e);
                    },
                }
            }
            else {
                assert(decode_lines(next) == Ok::<Seq<NodeView>, UriFault>(nodes_view(nodes@)));
            }
            i = i + 1;
        }
        assert(pv.subrange(0, pv.len() as int) =~= pv);
        Ok(Airport { name: string_of(chars_of(name).as_slice()), nodes })
    }
}

/// Once the lines up to `k` fail, all of them fail with the same error.
proof fn lemma_decode_lines_err_extends(ps: Seq<Seq<char>>, k: int)
    requires
        0 <= k <= ps.len(),
        decode_lines(ps.subrange(0, k)) is Err,
    ensures
        decode_lines(ps) == decode_lines(ps.subrange(0, k)),
    decreases ps.len() - k,
{
    if k < ps.len() {
        let next = ps.subrange(0, k + 1);
        assert(next.drop_last() =~= ps.subrange(0, k));
        lemma_decode_lines_err_extends(ps, k + 1);
    } else {
        assert(ps.subrange(0, k) =~= ps);
    }
}

} // verus!
