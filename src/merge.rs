//! Merging feeds: each feed's outcome is recorded, its nodes appended when
//! every step succeeded, and the merged nodes are written out as one feed.

use vstd::prelude::*;
use vstd::utf8::encode_utf8;
use crate::encoding::{encode_std, std_b64_encoded};
use crate::feed::{feed_nodes, nodes_view, Airport, FeedError};
use crate::fetch::FetchError;
use crate::node::{encode_node, Node, NodeView};
use crate::rename::{patterns, regex_accepts, renamed, RenameError};
use crate::text::{chars_of, joined, push_joined, string_of};

verus! {

/// Why a feed contributed nothing.
#[derive(Debug)]
pub enum Failure {
    Fetch(FetchError),
    Feed(FeedError),
    Rename(RenameError),
}

/// One feed's outcome: its node count, or why it failed.
#[derive(Debug)]
pub struct AirportResult {
    pub name: String,
    pub outcome: Result<usize, Failure>,
}

/// The merged nodes and each feed's outcome, in the order the feeds came.
#[derive(Debug)]
pub struct Merge {
    pub nodes: Vec<Node>,
    pub results: Vec<AirportResult>,
}

/// All the patterns compile.
pub open spec fn all_accepted(pats: Seq<Seq<char>>) -> bool {
    forall|i: int| 0 <= i < pats.len() ==> regex_accepts(#[trigger] pats[i])
}

/// The URIs of the nodes joined by newlines, in base64 (standard alphabet).
pub open spec fn output_text(nodes: Seq<NodeView>) -> Seq<char> {
    std_b64_encoded(
        encode_utf8(joined(nodes.map_values(|n: NodeView| encode_node(n)), '\n')),
    )
}

impl Merge {
    pub fn new() -> (r: Merge)
        ensures
            r.nodes@.len() == 0,
            r.results@.len() == 0,
    {
        Merge { nodes: Vec::new(), results: Vec::new() }
    }

    /// Records the feed `name` whose text was `fetched`: decoded, renamed with
    /// `replacements`, and its nodes appended; or, at the first step that
    /// fails, the failure recorded and nothing appended.
    pub fn add(&mut self, name: &str, fetched: Result<String, FetchError>, replacements: &Vec<String>)
        ensures
            final(self).results@.len() == old(self).results@.len() + 1,
            final(self).results@.drop_last() == old(self).results@,
            final(self).results@.last().name@ == name@,
            fetched is Err ==> final(self).nodes@ == old(self).nodes@,
            fetched matches Err(e) ==> final(self).results@.last().outcome == Err::<usize, Failure>(
                Failure::Fetch(e),
            ),
            fetched matches Ok(t) ==> match feed_nodes(t@) {
                Err(f) => final(self).nodes@ == old(self).nodes@ && (final(self).results@.last().outcome matches Err(Failure::Feed(e)) && e@ == f),
                Ok(ns) => if all_accepted(patterns(replacements@)) {
                    nodes_view(final(self).nodes@) == nodes_view(old(self).nodes@) + renamed(
                        ns,
                        patterns(replacements@),
                        name@,
                    ) && final(self).results@.last().outcome == Ok::<usize, Failure>(
                        renamed(ns, patterns(replacements@), name@).len() as usize,
                    )
                } else {
                    final(self).nodes@ == old(self).nodes@ && (final(self).results@.last().outcome matches Err(Failure::Rename(_)))
                },
            },
    {
        let label = string_of(chars_of(name).as_slice());
        let outcome = match fetched {
            Err(e) => Err(Failure::Fetch(e)),
            Ok(t) => match Airport::new(name, t.as_str()) {
                Err(e) => Err(Failure::Feed(e)),
                Ok(mut a) => match a.rename(replacements) {
                    Err(e) => Err(Failure::Rename(e)),
                    Ok(()) => {
                        let ghost before = self.nodes@;
                        let ghost added = a.nodes@;
                        let count = a.nodes.len();
                        self.nodes.append(&mut a.nodes);
                        assert(self.nodes@ == before + added);
                        assert(nodes_view(self.nodes@) =~= nodes_view(before) + nodes_view(added));
                        Ok(count)
                    },
                },
            },
        };
        proof {
            let pats = patterns(replacements@);
            assert(all_accepted(pats) == (forall|i: int|
                0 <= i < replacements@.len() ==> regex_accepts(#[trigger] replacements@[i]@))) by {
                if all_accepted(pats) {
                    assert forall|i: int| 0 <= i < replacements@.len() implies regex_accepts(
                        #[trigger] replacements@[i]@,
                    ) by {
                        assert(pats[i] == replacements@[i]@);
                    }
                }
                if forall|i: int|
                    0 <= i < replacements@.len() ==> regex_accepts(#[trigger] replacements@[i]@) {
                    assert forall|i: int| 0 <= i < pats.len() implies regex_accepts(
                        #[trigger] pats[i],
                    ) by {
                        assert(pats[i] == replacements@[i]@);
                    }
                }
            }
        }
        self.results.push(AirportResult { name: label, outcome });
    }

    /// The merged feed: the nodes' URIs joined by newlines, in base64
    /// (standard alphabet), so that it reads as a feed itself.
    pub fn output(&self) -> (r: String)
        ensures
            r@ == output_text(nodes_view(self.nodes@)),
    {
        let mut uris: Vec<Vec<char>> = Vec::new();
        let mut i: usize = 0;
        let ghost nv = nodes_view(self.nodes@);
        while i < self.nodes.len()
            invariant
                i <= self.nodes@.len() == nv.len(),
                nv == nodes_view(self.nodes@),
                uris@.len() == i,
                forall|j: int| 0 <= j < i ==> (#[trigger] uris@[j])@ == encode_node(nv[j]),
            decreases self.nodes@.len() - i,
        {
            uris.push(chars_of(self.nodes[i].to_string().as_str()));
            i = i + 1;
        }
        assert(uris@.map_values(|v: Vec<char>| v@) =~= nv.map_values(|n: NodeView| encode_node(n)));
        let mut text: Vec<char> = Vec::new();
        push_joined(&mut text, &uris, '\n');
        assert(text@ =~= joined(nv.map_values(|n: NodeView| encode_node(n)), '\n'));
        encode_std(string_of(text.as_slice()).as_str().as_bytes())
    }

    /// The number of merged nodes.
    pub fn total(&self) -> (r: usize)
        ensures
            r == self.nodes@.len(),
    {
        self.nodes.len()
    }
}

} // verus!
