//! Character-level helpers over `Seq<char>`: trimming, searching and splitting.

use vstd::prelude::*;

verus! {

/// Relies on `str::chars`: the characters of `s`, in order.
#[verifier::external_body]
pub(crate) fn chars_of(s: &str) -> (r: Vec<char>)
    ensures
        r@ == s@,
{
    s.chars().collect()
}

/// Relies on `String: FromIterator<char>`: the string made of `c`, in order.
#[verifier::external_body]
pub(crate) fn string_of(c: &[char]) -> (r: String)
    ensures
        r@ == c@,
{
    c.iter().collect()
}

/// Unicode's `White_Space` property, as `char::is_whitespace` tests it.
pub open spec fn is_space(c: char) -> bool {
    ('\u{9}' <= c && c <= '\u{d}') || c == ' ' || c == '\u{85}' || c == '\u{a0}'
        || c == '\u{1680}' || ('\u{2000}' <= c && c <= '\u{200a}') || c == '\u{2028}'
        || c == '\u{2029}' || c == '\u{202f}' || c == '\u{205f}' || c == '\u{3000}'
}

pub fn space(c: char) -> (r: bool)
    ensures
        r == is_space(c),
{
    ('\u{9}' <= c && c <= '\u{d}') || c == ' ' || c == '\u{85}' || c == '\u{a0}'
        || c == '\u{1680}' || ('\u{2000}' <= c && c <= '\u{200a}') || c == '\u{2028}'
        || c == '\u{2029}' || c == '\u{202f}' || c == '\u{205f}' || c == '\u{3000}'
}

/// `s` without its leading white space.
pub open spec fn trim_start(s: Seq<char>) -> Seq<char>
    decreases s.len(),
{
    if s.len() > 0 && is_space(s[0]) {
        trim_start(s.drop_first())
    } else {
        s
    }
}

/// `s` without its trailing white space.
pub open spec fn trim_end(s: Seq<char>) -> Seq<char>
    decreases s.len(),
{
    if s.len() > 0 && is_space(s.last()) {
        trim_end(s.drop_last())
    } else {
        s
    }
}

/// `s` without white space at either end.
pub open spec fn trim(s: Seq<char>) -> Seq<char> {
    trim_end(trim_start(s))
}

/// Copies `s[from..to]` into a new vector.
pub fn slice_of(s: &[char], from: usize, to: usize) -> (r: Vec<char>)
    requires
        from <= to <= s@.len(),
    ensures
        r@ == s@.subrange(from as int, to as int),
{
    let mut r: Vec<char> = Vec::new();
    let mut i: usize = from;
    while i < to
        invariant
            from <= i <= to <= s@.len(),
            r@ == s@.subrange(from as int, i as int),
        decreases to - i,
    {
        r.push(s[i]);
        i = i + 1;
        assert(r@ =~= s@.subrange(from as int, i as int));
    }
    r
}

/// Appends `t` to `out`.
pub fn extend(out: &mut Vec<char>, t: &[char])
    ensures
        final(out)@ == old(out)@ + t@,
{
    let mut i: usize = 0;
    while i < t.len()
        invariant
            i <= t@.len(),
            out@ == old(out)@ + t@.subrange(0, i as int),
        decreases t@.len() - i,
    {
        out.push(t[i]);
        i = i + 1;
        assert(out@ =~= old(out)@ + t@.subrange(0, i as int));
    }
    assert(t@.subrange(0, t@.len() as int) =~= t@);
}

proof fn lemma_trim_start_step(s: Seq<char>, i: int)
    requires
        0 <= i < s.len(),
        is_space(s[i]),
    ensures
        trim_start(s.subrange(i, s.len() as int)) == trim_start(s.subrange(i + 1, s.len() as int)),
{
    let t = s.subrange(i, s.len() as int);
    assert(t.drop_first() =~= s.subrange(i + 1, s.len() as int));
}

proof fn lemma_trim_end_step(s: Seq<char>, j: int)
    requires
        0 < j <= s.len(),
        is_space(s[j - 1]),
    ensures
        trim_end(s.subrange(0, j)) == trim_end(s.subrange(0, j - 1)),
{
    let t = s.subrange(0, j);
    assert(t.drop_last() =~= s.subrange(0, j - 1));
}

/// `s` with the white space at both ends removed, as `str::trim` does.
pub fn trimmed(s: &[char]) -> (r: Vec<char>)
    ensures
        r@ == trim(s@),
{
    let n = s.len();
    let mut i: usize = 0;
    assert(s@.subrange(0, n as int) =~= s@);
    while i < n && space(s[i])
        invariant
            i <= n == s@.len(),
            trim_start(s@) == trim_start(s@.subrange(i as int, n as int)),
        decreases n - i,
    {
        proof {
            lemma_trim_start_step(s@, i as int);
        }
        i = i + 1;
    }
    let ghost rest = s@.subrange(i as int, n as int);
    assert(trim_start(s@) == rest) by {
        if rest.len() > 0 {
            assert(rest[0] == s@[i as int]);
        }
    }
    let mut j: usize = n;
    assert(rest.subrange(0, rest.len() as int) =~= rest);
    while j > i && space(s[j - 1])
        invariant
            i <= j <= n == s@.len(),
            rest == s@.subrange(i as int, n as int),
            trim_end(rest) == trim_end(rest.subrange(0, j - i)),
        decreases j,
    {
        proof {
            lemma_trim_end_step(rest, j - i);
        }
        j = j - 1;
    }
    let r = slice_of(s, i, j);
    assert(r@ =~= rest.subrange(0, j - i));
    assert(trim_end(rest.subrange(0, j - i)) == rest.subrange(0, j - i)) by {
        if j > i {
            assert(rest.subrange(0, j - i).last() == s@[j - 1]);
        }
    }
    r
}

/// `p` stands in `s` at position `i`.
pub open spec fn occurs_at(s: Seq<char>, p: Seq<char>, i: int) -> bool {
    0 <= i && i + p.len() <= s.len() && s.subrange(i, i + p.len()) == p
}

/// Where `p` first stands in `s`, if anywhere.
pub open spec fn find_pat(s: Seq<char>, p: Seq<char>) -> Option<nat>
    decreases s.len(),
{
    if s.len() < p.len() {
        None
    } else if s.subrange(0, p.len() as int) == p {
        Some(0)
    } else if s.len() == 0 {
        None
    } else {
        match find_pat(s.drop_first(), p) {
            Some(k) => Some(k + 1),
            None => None,
        }
    }
}

/// `s` contains `p`.
pub open spec fn has_infix(s: Seq<char>, p: Seq<char>) -> bool {
    find_pat(s, p) is Some
}

/// The parts of `s` before and after the first `p`, if `s` contains `p`.
pub open spec fn cut(s: Seq<char>, p: Seq<char>) -> Option<(Seq<char>, Seq<char>)> {
    match find_pat(s, p) {
        Some(i) => Some((s.subrange(0, i as int), s.subrange(i + p.len() as int, s.len() as int))),
        None => None,
    }
}

pub proof fn lemma_find_pat_at(s: Seq<char>, p: Seq<char>, i: int)
    requires
        occurs_at(s, p, i),
        forall|j: int| 0 <= j < i ==> !occurs_at(s, p, j),
    ensures
        find_pat(s, p) == Some(i as nat),
    decreases i,
{
    if i > 0 {
        assert(!occurs_at(s, p, 0));
        let t = s.drop_first();
        assert forall|j: int| 0 <= j < i - 1 implies !occurs_at(t, p, j) by {
            assert(t.subrange(j, j + p.len()) =~= s.subrange(j + 1, j + 1 + p.len()));
            assert(!occurs_at(s, p, j + 1));
        }
        assert(t.subrange(i - 1, i - 1 + p.len()) =~= s.subrange(i, i + p.len()));
        lemma_find_pat_at(t, p, i - 1);
    } else {
        assert(s.subrange(0, p.len() as int) == p);
    }
}

pub proof fn lemma_find_pat_none(s: Seq<char>, p: Seq<char>)
    requires
        forall|j: int| !occurs_at(s, p, j),
    ensures
        find_pat(s, p) is None,
    decreases s.len(),
{
    assert(!occurs_at(s, p, 0));
    if s.len() >= p.len() && s.len() > 0 {
        let t = s.drop_first();
        assert forall|j: int| !occurs_at(t, p, j) by {
            if 0 <= j && j + p.len() <= t.len() {
                assert(t.subrange(j, j + p.len()) =~= s.subrange(j + 1, j + 1 + p.len()));
                assert(!occurs_at(s, p, j + 1));
            }
        }
        lemma_find_pat_none(t, p);
    }
}

/// `p` stands in `s` at `i`, compared character by character.
fn matches_at(s: &[char], p: &[char], i: usize) -> (r: bool)
    requires
        i + p@.len() <= s@.len(),
    ensures
        r == occurs_at(s@, p@, i as int),
{
    let n = s.len();
    let mut k: usize = 0;
    while k < p.len()
        invariant
            k <= p@.len(),
            i + p@.len() <= s@.len() == n,
            forall|m: int| 0 <= m < k ==> s@[i + m] == p@[m],
        decreases p@.len() - k,
    {
        if s[i + k] != p[k] {
            assert(s@.subrange(i as int, i + p@.len())[k as int] != p@[k as int]);
            return false;
        }
        k = k + 1;
    }
    assert(s@.subrange(i as int, i + p@.len()) =~= p@);
    true
}

/// The first position at which `p` stands in `s`.
pub fn find(s: &[char], p: &[char]) -> (r: Option<usize>)
    ensures
        r == (match find_pat(s@, p@) {
            Some(i) => Some(i as usize),
            None => None,
        }),
        r matches Some(i) ==> occurs_at(s@, p@, i as int) && find_pat(s@, p@) == Some(i as nat),
        r is None ==> find_pat(s@, p@) is None,
{
    if p.len() > s.len() {
        proof {
            lemma_find_pat_none(s@, p@);
        }
        return None;
    }
    if p.len() == 0 {
        assert(s@.subrange(0, 0) =~= p@);
        return Some(0);
    }
    let last = s.len() - p.len();
    let mut i: usize = 0;
    while i <= last
        invariant
            last + p@.len() == s@.len(),
            p@.len() >= 1,
            s@.len() <= usize::MAX,
            forall|j: int| 0 <= j < i ==> !occurs_at(s@, p@, j),
        decreases last + 1 - i,
    {
        if matches_at(s, p, i) {
            proof {
                lemma_find_pat_at(s@, p@, i as int);
            }
            return Some(i);
        }
        i = i + 1;
    }
    proof {
        lemma_find_pat_none(s@, p@);
    }
    None
}

/// The parts of `s` between the separators `c`, in order (one part when `c` is absent).
pub open spec fn split_on(s: Seq<char>, c: char) -> Seq<Seq<char>>
    decreases s.len(),
{
    if s.len() == 0 {
        seq![Seq::<char>::empty()]
    } else {
        let rest = split_on(s.drop_last(), c);
        if s.last() == c {
            rest.push(Seq::<char>::empty())
        } else {
            rest.update(rest.len() - 1, rest.last().push(s.last()))
        }
    }
}

proof fn lemma_split_on_len(s: Seq<char>, c: char)
    ensures
        split_on(s, c).len() >= 1,
    decreases s.len(),
{
    if s.len() > 0 {
        lemma_split_on_len(s.drop_last(), c);
    }
}

/// The parts of `s` between the separators `c`, as `str::split` gives them.
pub fn split_char(s: &[char], c: char) -> (r: Vec<Vec<char>>)
    ensures
        r@.map_values(|v: Vec<char>| v@) == split_on(s@, c),
{
    let mut done: Vec<Vec<char>> = Vec::new();
    let mut cur: Vec<char> = Vec::new();
    let mut i: usize = 0;
    assert(s@.subrange(0, 0) =~= Seq::<char>::empty());
    assert(done@.map_values(|v: Vec<char>| v@).push(cur@) =~= split_on(Seq::<char>::empty(), c));
    while i < s.len()
        invariant
            i <= s@.len(),
            done@.map_values(|v: Vec<char>| v@).push(cur@) == split_on(s@.subrange(0, i as int), c),
        decreases s@.len() - i,
    {
        let ghost prev = s@.subrange(0, i as int);
        let ghost next = s@.subrange(0, i + 1);
        assert(next.drop_last() =~= prev);
        assert(next.last() == s@[i as int]);
        proof {
            lemma_split_on_len(prev, c);
        }
        if s[i] == c {
            done.push(cur);
            cur = Vec::new();
            assert(done@.map_values(|v: Vec<char>| v@).push(cur@) =~= split_on(next, c));
        } else {
            cur.push(s[i]);
            assert(done@.map_values(|v: Vec<char>| v@).push(cur@) =~= split_on(next, c));
        }
        i = i + 1;
    }
    assert(s@.subrange(0, s@.len() as int) =~= s@);
    done.push(cur);
    done
}

/// The decimal digit `d`.
pub open spec fn digit(d: nat) -> char {
    if d == 0 { '0' } else if d == 1 { '1' } else if d == 2 { '2' } else if d == 3 { '3' }
    else if d == 4 { '4' } else if d == 5 { '5' } else if d == 6 { '6' } else if d == 7 { '7' }
    else if d == 8 { '8' } else { '9' }
}

/// `n` written in decimal, without leading zeros.
pub open spec fn decimal(n: nat) -> Seq<char>
    decreases n,
{
    if n < 10 {
        seq![digit(n)]
    } else {
        decimal(n / 10).push(digit(n % 10))
    }
}

fn digit_char(d: usize) -> (r: char)
    requires
        d < 10,
    ensures
        r == digit(d as nat),
{
    if d == 0 { '0' } else if d == 1 { '1' } else if d == 2 { '2' } else if d == 3 { '3' }
    else if d == 4 { '4' } else if d == 5 { '5' } else if d == 6 { '6' } else if d == 7 { '7' }
    else if d == 8 { '8' } else { '9' }
}

/// Appends `n` in decimal to `out`.
pub fn push_decimal(out: &mut Vec<char>, n: usize)
    ensures
        final(out)@ == old(out)@ + decimal(n as nat),
    decreases n,
{
    if n >= 10 {
        push_decimal(out, n / 10);
    }
    out.push(digit_char(n % 10));
    assert(final(out)@ =~= old(out)@ + decimal(n as nat));
}

/// `a` and `b` hold the same characters.
pub fn same(a: &[char], b: &[char]) -> (r: bool)
    ensures
        r == (a@ == b@),
{
    if a.len() != b.len() {
        return false;
    }
    let mut i: usize = 0;
    while i < a.len()
        invariant
            i <= a@.len() == b@.len(),
            forall|j: int| 0 <= j < i ==> a@[j] == b@[j],
        decreases a@.len() - i,
    {
        if a[i] != b[i] {
            return false;
        }
        i = i + 1;
    }
    assert(a@ =~= b@);
    true
}

/// The parts joined with `sep` between each two.
pub open spec fn joined(parts: Seq<Seq<char>>, sep: char) -> Seq<char>
    decreases parts.len(),
{
    if parts.len() == 0 {
        Seq::<char>::empty()
    } else if parts.len() == 1 {
        parts[0]
    } else {
        joined(parts.drop_last(), sep).push(sep) + parts.last()
    }
}

/// Appends the parts, joined with `sep`, to `out`.
pub fn push_joined(out: &mut Vec<char>, parts: &Vec<Vec<char>>, sep: char)
    ensures
        final(out)@ == old(out)@ + joined(parts@.map_values(|v: Vec<char>| v@), sep),
{
    let ghost all = parts@.map_values(|v: Vec<char>| v@);
    let mut i: usize = 0;
    assert(all.subrange(0, 0) =~= Seq::<Seq<char>>::empty());
    assert(out@ =~= old(out)@ + joined(all.subrange(0, 0), sep));
    while i < parts.len()
        invariant
            i <= parts@.len() == all.len(),
            all == parts@.map_values(|v: Vec<char>| v@),
            out@ == old(out)@ + joined(all.subrange(0, i as int), sep),
        decreases parts@.len() - i,
    {
        let ghost next = all.subrange(0, i + 1);
        assert(next.drop_last() =~= all.subrange(0, i as int));
        assert(next.last() == parts@[i as int]@);
        if i > 0 {
            out.push(sep);
        }
        extend(out, parts[i].as_slice());
        i = i + 1;
        assert(out@ =~= old(out)@ + joined(next, sep));
    }
    assert(all.subrange(0, all.len() as int) =~= all);
}

/// Cutting `a`, `c`, `b` at the first `c` gives `a` and `b` when `a` holds no `c`.
pub proof fn lemma_cut_first(a: Seq<char>, c: char, b: Seq<char>)
    requires
        !a.contains(c),
    ensures
        cut(a.push(c) + b, seq![c]) == Some((a, b)),
{
    let s = a.push(c) + b;
    let p = seq![c];
    assert(s.subrange(a.len() as int, a.len() + 1 as int) =~= p);
    assert forall|j: int| 0 <= j < a.len() implies !occurs_at(s, p, j) by {
        if occurs_at(s, p, j) {
            assert(s.subrange(j, j + 1)[0] == s[j]);
            assert(a[j] == c);
        }
    }
    lemma_find_pat_at(s, p, a.len() as int);
    assert(s.subrange(0, a.len() as int) =~= a);
    assert(s.subrange(a.len() + 1 as int, s.len() as int) =~= b);
}

/// Splitting `a`, `c`, `b` at each `c` gives the parts of `a`, then `b`, when `b` holds no `c`.
pub proof fn lemma_split_on_append(a: Seq<char>, c: char, b: Seq<char>)
    requires
        !b.contains(c),
    ensures
        split_on(a.push(c) + b, c) == split_on(a, c).push(b),
    decreases b.len(),
{
    let s = a.push(c) + b;
    if b.len() == 0 {
        assert(s =~= a.push(c));
        assert(s.drop_last() =~= a);
        assert(s.last() == c);
        assert(b =~= Seq::<char>::empty());
    } else {
        assert(s.drop_last() =~= a.push(c) + b.drop_last());
        assert(!b.drop_last().contains(c)) by {
            if b.drop_last().contains(c) {
                let j = choose|j: int| 0 <= j < b.drop_last().len() && b.drop_last()[j] == c;
                assert(b[j] == c);
            }
        }
        lemma_split_on_append(a, c, b.drop_last());
        assert(s.last() == b.last());
        assert(b.drop_last().push(b.last()) =~= b);
        assert(split_on(s, c) =~= split_on(a, c).push(b));
    }
}

/// A text without `c` is one part.
pub proof fn lemma_split_on_single(b: Seq<char>, c: char)
    requires
        !b.contains(c),
    ensures
        split_on(b, c) == seq![b],
    decreases b.len(),
{
    if b.len() > 0 {
        assert(!b.drop_last().contains(c)) by {
            if b.drop_last().contains(c) {
                let j = choose|j: int| 0 <= j < b.drop_last().len() && b.drop_last()[j] == c;
                assert(b[j] == c);
            }
        }
        lemma_split_on_single(b.drop_last(), c);
        assert(b.drop_last().push(b.last()) =~= b);
        assert(split_on(b, c) =~= seq![b]);
    } else {
        assert(b =~= Seq::<char>::empty());
    }
}

/// Splitting joined parts gives the parts back when none holds the separator.
pub proof fn lemma_split_joined(parts: Seq<Seq<char>>, c: char)
    requires
        parts.len() >= 1,
        forall|i: int| 0 <= i < parts.len() ==> !(#[trigger] parts[i]).contains(c),
    ensures
        split_on(joined(parts, c), c) == parts,
    decreases parts.len(),
{
    if parts.len() == 1 {
        lemma_split_on_single(parts[0], c);
        assert(seq![parts[0]] =~= parts);
    } else {
        let prev = parts.drop_last();
        assert forall|i: int| 0 <= i < prev.len() implies !(#[trigger] prev[i]).contains(c) by {
            assert(prev[i] == parts[i]);
        }
        lemma_split_joined(prev, c);
        assert(!parts.last().contains(c)) by {
            assert(parts.last() == parts[parts.len() - 1]);
        }
        lemma_split_on_append(joined(prev, c), c, parts.last());
        assert(prev.push(parts.last()) =~= parts);
    }
}

} // verus!
