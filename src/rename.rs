//! Renaming a feed's nodes: drop the noise entries, clean each name with the
//! feed's replacement patterns, number repeated names and append the feed's name.

use vstd::prelude::*;
use crate::feed::{nodes_view, Airport};
use crate::node::{name_of, named, NameError, Node, NodeView};
use crate::text::{
    chars_of, decimal, extend, find, has_infix, push_decimal, same, slice_of, string_of, trim, trimmed,
};

verus! {

#[verifier::external_type_specification]
#[verifier::external_body]
pub struct ExRegex(regex::Regex);

#[verifier::external_type_specification]
#[verifier::external_body]
pub struct ExRegexError(regex::Error);

/// Whether `regex::Regex::new` accepts the pattern `p`.
pub uninterp spec fn regex_accepts(p: Seq<char>) -> bool;

/// What is left of `s` once every match of the regex compiled from `p` is
/// replaced by the empty string (`regex::Regex::replace_all`).
pub uninterp spec fn regex_erased(p: Seq<char>, s: Seq<char>) -> Seq<char>;

/// Relies on `regex::Regex::new`: it fails exactly on the patterns it does not accept.
#[verifier::external_body]
fn compile_regex(p: &str) -> (r: Result<regex::Regex, regex::Error>)
    ensures
        (r is Ok) == regex_accepts(p@),
{
    regex::Regex::new(p)
}

/// A replacement pattern and its compiled regex.
pub struct Replacement {
    source: String,
    re: regex::Regex,
}

impl Replacement {
    /// The pattern the regex was compiled from.
    pub closed spec fn pattern(&self) -> Seq<char> {
        self.source@
    }

    /// Compiles `p`.
    pub fn compile(p: &str) -> (r: Option<Replacement>)
        ensures
            (r is Some) == regex_accepts(p@),
            r matches Some(x) ==> x.pattern() == p@,
    {
        match compile_regex(p) {
            Ok(re) => Some(Replacement { source: string_of(chars_of(p).as_slice()), re }),
            Err(_) => None,
        }
    }

    /// `s` with every match of the pattern removed.
    pub fn erase(&self, s: &str) -> (r: String)
        ensures
            r@ == regex_erased(self.pattern(), s@),
    {
        erase_matches(self, s)
    }
}

/// Relies on `regex::Regex::replace_all` with an empty replacement; the regex
/// was compiled from `rule.source`, which no other code sets.
#[verifier::external_body]
fn erase_matches(rule: &Replacement, s: &str) -> (r: String)
    ensures
        r@ == regex_erased(rule.source@, s@),
{
    rule.re.replace_all(s, "").to_string()
}

/// Why a feed could not be renamed.
#[derive(Debug)]
pub enum RenameError {
    /// A replacement pattern is not a regex.
    RegexCompile(String),
}

/// Words that mark a feed's notices rather than real nodes.
pub open spec fn blacklist() -> Seq<Seq<char>> {
    seq![
        seq!['剩', '余'], seq!['规', '则'], seq!['购', '买'], seq!['收', '入'], seq!['流', '量'],
        seq!['过', '期'], seq!['链', '接'], seq!['官', '网'], seq!['域', '名'],
    ]
}

/// The name holds a word of the blacklist.
pub open spec fn blocked(raw: Seq<char>) -> bool {
    exists|k: int| 0 <= k < blacklist().len() && has_infix(raw, #[trigger] blacklist()[k])
}

/// `s` with the patterns applied in order, each erasing its matches.
pub open spec fn erase_all(s: Seq<char>, rules: Seq<Seq<char>>) -> Seq<char>
    decreases rules.len(),
{
    if rules.len() == 0 {
        s
    } else {
        regex_erased(rules.last(), erase_all(s, rules.drop_last()))
    }
}

/// The cleaned name: the patterns applied, then trimmed.
pub open spec fn base_name(raw: Seq<char>, rules: Seq<Seq<char>>) -> Seq<char> {
    trim(erase_all(raw, rules))
}

/// How often `b` stands in `bases`.
pub open spec fn count_of(bases: Seq<Seq<char>>, b: Seq<char>) -> nat
    decreases bases.len(),
{
    if bases.len() == 0 {
        0
    } else {
        count_of(bases.drop_last(), b) + if bases.last() == b { 1nat } else { 0nat }
    }
}

/// The bases of a plan.
pub open spec fn plan_bases(p: Seq<(int, Seq<char>, nat)>) -> Seq<Seq<char>> {
    p.map_values(|e: (int, Seq<char>, nat)| e.1)
}

/// Which nodes stay, in order: each with its index, its cleaned name, and how
/// many times that cleaned name has come so far, itself included.
pub open spec fn plan(names: Seq<Result<Seq<char>, NameError>>, rules: Seq<Seq<char>>) -> Seq<(int, Seq<char>, nat)>
    decreases names.len(),
{
    if names.len() == 0 {
        Seq::empty()
    } else {
        let prev = plan(names.drop_last(), rules);
        match names.last() {
            Ok(raw) => if blocked(raw) {
                prev
            } else {
                let b = base_name(raw, rules);
                prev.push(((names.len() - 1) as int, b, count_of(plan_bases(prev), b) + 1))
            },
            Err(_) => prev,
        }
    }
}

/// The final name: `"{base} - {feed}"` the first time, `"{base}({n}) - {feed}"` after.
pub open spec fn label(base: Seq<char>, n: nat, feed: Seq<char>) -> Seq<char> {
    let tail = seq![' ', '-', ' '] + feed;
    if n == 1 {
        base + tail
    } else {
        base.push('(') + decimal(n) + seq![')'] + tail
    }
}

/// The display names of the nodes.
pub open spec fn names_of(nodes: Seq<NodeView>) -> Seq<Result<Seq<char>, NameError>> {
    nodes.map_values(|n: NodeView| name_of(n))
}

/// The renamed nodes of a feed.
pub open spec fn renamed(nodes: Seq<NodeView>, rules: Seq<Seq<char>>, feed: Seq<char>) -> Seq<NodeView> {
    plan(names_of(nodes), rules).map_values(
        |e: (int, Seq<char>, nat)| named(nodes[e.0], label(e.1, e.2, feed)),
    )
}

/// The patterns of a list of replacement strings.
pub open spec fn patterns(ps: Seq<String>) -> Seq<Seq<char>> {
    ps.map_values(|p: String| p@)
}

/// The words of the blacklist.
fn keywords() -> (r: Vec<Vec<char>>)
    ensures
        r@.map_values(|v: Vec<char>| v@) == blacklist(),
{
    let r = vec![
        vec!['剩', '余'], vec!['规', '则'], vec!['购', '买'], vec!['收', '入'], vec!['流', '量'],
        vec!['过', '期'], vec!['链', '接'], vec!['官', '网'], vec!['域', '名'],
    ];
    assert(r@.map_values(|v: Vec<char>| v@) =~= blacklist());
    r
}

/// The name holds a word of the blacklist.
pub fn is_blocked(raw: &[char]) -> (r: bool)
    ensures
        r == blocked(raw@),
{
    let kws = keywords();
    let ghost kv = kws@.map_values(|v: Vec<char>| v@);
    let mut k: usize = 0;
    while k < kws.len()
        invariant
            k <= kws@.len() == kv.len(),
            kv == kws@.map_values(|v: Vec<char>| v@),
            kv == blacklist(),
            forall|j: int| 0 <= j < k ==> !has_infix(raw@, #[trigger] blacklist()[j]),
        decreases kws@.len() - k,
    {
        if find(raw, kws[k].as_slice()).is_some() {
            assert(has_infix(raw@, blacklist()[k as int]));
            return true;
        }
        k = k + 1;
    }
    false
}

/// How often `b` stands in `bases`.
fn count_same(bases: &Vec<Vec<char>>, b: &[char]) -> (r: usize)
    ensures
        r == count_of(bases@.map_values(|v: Vec<char>| v@), b@),
        r <= bases@.len(),
{
    let ghost bv = bases@.map_values(|v: Vec<char>| v@);
    let mut n: usize = 0;
    let mut i: usize = 0;
    assert(bv.subrange(0, 0) =~= Seq::<Seq<char>>::empty());
    while i < bases.len()
        invariant
            i <= bases@.len() == bv.len(),
            bv == bases@.map_values(|v: Vec<char>| v@),
            n == count_of(bv.subrange(0, i as int), b@),
            n <= i,
        decreases bases@.len() - i,
    {
        let ghost next = bv.subrange(0, i + 1);
        assert(next.drop_last() =~= bv.subrange(0, i as int));
        if same(bases[i].as_slice(), b) {
            n = n + 1;
        }
        i = i + 1;
    }
    assert(bv.subrange(0, bv.len() as int) =~= bv);
    n
}

/// The cleaned names met so far in one feed, in order.
pub struct NameCounter {
    seen: Vec<Vec<char>>,
}

impl View for NameCounter {
    type V = Seq<Seq<char>>;

    closed spec fn view(&self) -> Seq<Seq<char>> {
        self.seen@.map_values(|v: Vec<char>| v@)
    }
}

impl NameCounter {
    pub fn new() -> (r: NameCounter)
        ensures
            r@ == Seq::<Seq<char>>::empty(),
    {
        let r = NameCounter { seen: Vec::new() };
        assert(r@ =~= Seq::<Seq<char>>::empty());
        r
    }

    /// Records the cleaned name `base` and gives its final name in the feed
    /// `feed`: numbered from the second time `base` comes.
    pub fn next_name(&mut self, base: &[char], feed: &[char]) -> (r: Vec<char>)
        requires
            old(self)@.len() < usize::MAX,
        ensures
            final(self)@ == old(self)@.push(base@),
            r@ == label(base@, count_of(old(self)@, base@) + 1, feed@),
    {
        let c = count_same(&self.seen, base);
        let mut out: Vec<char> = Vec::new();
        extend(&mut out, base);
        if c != 0 {
            out.push('(');
            push_decimal(&mut out, c + 1);
            out.push(')');
        }
        out.push(' ');
        out.push('-');
        out.push(' ');
        extend(&mut out, feed);
        assert(out@ =~= label(base@, (c + 1) as nat, feed@));
        let ghost before = self.seen@;
        let copy = slice_of(base, 0, base.len());
        assert(copy@ =~= base@);
        self.seen.push(copy);
        assert(self.seen@ == before.push(copy));
        assert(self.seen@.map_values(|v: Vec<char>| v@) =~= before.map_values(|v: Vec<char>| v@).push(base@));
        out
    }
}

/// `raw` with the replacement patterns applied in order, then trimmed.
fn clean_name(raw: String, rules: &Vec<Replacement>, pats: Ghost<Seq<Seq<char>>>) -> (r: Vec<char>)
    requires
        rules@.len() == pats@.len(),
        forall|j: int| 0 <= j < rules@.len() ==> (#[trigger] rules@[j]).pattern() == pats@[j],
    ensures
        r@ == base_name(raw@, pats@),
{
    let ghost start = raw@;
    let mut cur = raw;
    let mut i: usize = 0;
    assert(pats@.subrange(0, 0) =~= Seq::<Seq<char>>::empty());
    while i < rules.len()
        invariant
            i <= rules@.len() == pats@.len(),
            forall|j: int| 0 <= j < rules@.len() ==> (#[trigger] rules@[j]).pattern() == pats@[j],
            cur@ == erase_all(start, pats@.subrange(0, i as int)),
        decreases rules@.len() - i,
    {
        let ghost next = pats@.subrange(0, i + 1);
        assert(next.drop_last() =~= pats@.subrange(0, i as int));
        cur = rules[i].erase(cur.as_str());
        i = i + 1;
    }
    assert(pats@.subrange(0, pats@.len() as int) =~= pats@);
    trimmed(chars_of(cur.as_str()).as_slice())
}

/// Every node that stays had a readable name free of blacklisted words, and
/// the plan keeps the nodes' order.
pub proof fn lemma_plan_kept(names: Seq<Result<Seq<char>, NameError>>, rules: Seq<Seq<char>>)
    ensures
        forall|k: int| 0 <= k < plan(names, rules).len() ==> {
            let e = #[trigger] plan(names, rules)[k];
            &&& 0 <= e.0 < names.len()
            &&& names[e.0] matches Ok(raw) && !blocked(raw)
            &&& e.1 == base_name(names[e.0]->Ok_0, rules)
        },
        forall|k: int, l: int|
            0 <= k < l < plan(names, rules).len() ==> #[trigger] plan(names, rules)[k].0
                < #[trigger] plan(names, rules)[l].0,
    decreases names.len(),
{
    if names.len() > 0 {
        let prev = names.drop_last();
        lemma_plan_kept(prev, rules);
        assert forall|k: int| 0 <= k < prev.len() implies prev[k] == names[k] by {}
    }
}

/// A node whose display name holds a blacklisted word (such as "过期") is
/// absent from the renamed feed, whatever the replacement patterns.
pub proof fn lemma_blacklisted_absent(nodes: Seq<NodeView>, rules: Seq<Seq<char>>, i: int)
    requires
        0 <= i < nodes.len(),
        name_of(nodes[i]) matches Ok(raw) && blocked(raw),
    ensures
        forall|k: int|
            0 <= k < plan(names_of(nodes), rules).len() ==> (#[trigger] plan(
                names_of(nodes),
                rules,
            )[k]).0 != i,
{
    lemma_plan_kept(names_of(nodes), rules);
    assert(names_of(nodes)[i] == name_of(nodes[i]));
}

impl Airport {
    /// Renames the nodes. Every pattern is compiled first; one that does not
    /// compile fails the whole call, the feed untouched. Then, in order, a node
    /// whose name cannot be read or holds a blacklisted word is dropped; the
    /// others get the cleaned name, numbered from its second time on, and the
    /// feed's name.
    pub fn rename(&mut self, replacements: &Vec<String>) -> (r: Result<(), RenameError>)
        ensures
            (r is Ok) == (forall|i: int|
                0 <= i < replacements@.len() ==> regex_accepts(#[trigger] replacements@[i]@)),
            r matches Err(RenameError::RegexCompile(p)) ==> exists|i: int|
                0 <= i < replacements@.len() && !regex_accepts(#[trigger] replacements@[i]@)
                    && p@ == replacements@[i]@ && forall|j: int|
                    0 <= j < i ==> regex_accepts(#[trigger] replacements@[j]@),
            r is Err ==> *final(self) == *old(self),
            r is Ok ==> final(self).name == old(self).name,
            r is Ok ==> nodes_view(final(self).nodes@) == renamed(
                nodes_view(old(self).nodes@),
                patterns(replacements@),
                old(self).name@,
            ),
    {
        let ghost pats = patterns(replacements@);
        let mut rules: Vec<Replacement> = Vec::new();
        let mut i: usize = 0;
        while i < replacements.len()
            invariant
                i <= replacements@.len() == pats.len(),
                pats == patterns(replacements@),
                rules@.len() == i,
                forall|j: int| 0 <= j < i ==> (#[trigger] rules@[j]).pattern() == pats[j],
                forall|j: int| 0 <= j < i ==> regex_accepts(#[trigger] replacements@[j]@),
            decreases replacements@.len() - i,
        {
            match Replacement::compile(replacements[i].as_str()) {
                Some(x) => rules.push(x),
                None => return Err(RenameError::RegexCompile(replacements[i].clone())),
            }
            i = i + 1;
        }
        let feed = chars_of(self.name.as_str());
        let mut pending: Vec<Node> = Vec::new();
        std::mem::swap(&mut self.nodes, &mut pending);
        let ghost orig = nodes_view(pending@);
        let ghost names = names_of(orig);
        let n = pending.len();
        let mut rev: Vec<Node> = Vec::new();
        while pending.len() > 0
            invariant
                pending@.len() + rev@.len() == n == orig.len(),
                forall|j: int| 0 <= j < pending@.len() ==> (#[trigger] pending@[j])@ == orig[j],
                forall|j: int| 0 <= j < rev@.len() ==> (#[trigger] rev@[j])@ == orig[n - 1 - j],
            decreases pending@.len(),
        {
            match pending.pop() {
                Some(x) => rev.push(x),
                None => {},
            }
        }
        let mut out: Vec<Node> = Vec::new();
        let mut counter = NameCounter::new();
        let mut k: usize = 0;
        assert(names.subrange(0, 0) =~= Seq::<Result<Seq<char>, NameError>>::empty());
        assert(nodes_view(out@) =~= Seq::<NodeView>::empty());
        while k < n
            invariant
                k <= n == orig.len() == names.len(),
                names == names_of(orig),
                rules@.len() == pats.len(),
                forall|j: int| 0 <= j < rules@.len() ==> (#[trigger] rules@[j]).pattern() == pats[j],
                rev@.len() == n - k,
                forall|j: int| 0 <= j < rev@.len() ==> (#[trigger] rev@[j])@ == orig[n - 1 - j],
                feed@ == old(self).name@,
                self.name == old(self).name,
                counter@.len() <= k,
                counter@ == plan_bases(plan(names.subrange(0, k as int), pats)),
                nodes_view(out@) == plan(names.subrange(0, k as int), pats).map_values(
                    |e: (int, Seq<char>, nat)| named(orig[e.0], label(e.1, e.2, feed@)),
                ),
            decreases n - k,
        {
            let ghost prev = plan(names.subrange(0, k as int), pats);
            let ghost next = names.subrange(0, k + 1);
            assert(next.drop_last() =~= names.subrange(0, k as int));
            assert(next.last() == name_of(orig[k as int]));
            let mut node = rev.pop().unwrap();
            assert(node@ == orig[k as int]);
            match node.name() {
                Err(_) => {},
                Ok(raw) => {
                    let rc = chars_of(raw.as_str());
                    if !is_blocked(rc.as_slice()) {
                        let base = clean_name(raw, &rules, Ghost(pats));
                        let ghost c = count_of(counter@, base@);
                        let lab = counter.next_name(base.as_slice(), feed.as_slice());
                        node.set_name(string_of(lab.as_slice()).as_str());
                        let ghost before = out@;
                        out.push(node);
                        proof {
                            let e = (k as int, base@, c + 1);
                            assert(plan(next, pats) == prev.push(e));
                            assert(nodes_view(out@) =~= nodes_view(before).push(out@.last()@));
                            assert(plan_bases(prev.push(e)) =~= plan_bases(prev).push(base@));
                            assert(prev.push(e).map_values(
                                |e: (int, Seq<char>, nat)| named(orig[e.0], label(e.1, e.2, feed@)),
                            ) =~= prev.map_values(
                                |e: (int, Seq<char>, nat)| named(orig[e.0], label(e.1, e.2, feed@)),
                            ).push(named(orig[k as int], label(base@, c + 1, feed@))));
                        }
                    }
                },
            }
            k = k + 1;
        }
        assert(names.subrange(0, n as int) =~= names);
        self.nodes = out;
        Ok(())
    }
}

} // verus!
