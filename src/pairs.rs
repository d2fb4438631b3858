//! Ordered lists of key and value pairs in which a key stands once.

use vstd::prelude::*;
use crate::json::members_view;

verus! {

/// Where the key `k` first stands in `q`.
pub open spec fn key_pos(q: Seq<(Seq<char>, Seq<char>)>, k: Seq<char>) -> Option<nat>
    decreases q.len(),
{
    if q.len() == 0 {
        None
    } else if q[0].0 == k {
        Some(0)
    } else {
        match key_pos(q.drop_first(), k) {
            Some(i) => Some(i + 1),
            None => None,
        }
    }
}

/// The value of the key `k` in `q`.
pub open spec fn lookup(q: Seq<(Seq<char>, Seq<char>)>, k: Seq<char>) -> Option<Seq<char>> {
    match key_pos(q, k) {
        Some(i) => Some(q[i as int].1),
        None => None,
    }
}

/// `q` with the value of `k` set to `v`: replaced where `k` stands, else appended.
pub open spec fn put(q: Seq<(Seq<char>, Seq<char>)>, k: Seq<char>, v: Seq<char>) -> Seq<(Seq<char>, Seq<char>)> {
    match key_pos(q, k) {
        Some(i) => q.update(i as int, (k, v)),
        None => q.push((k, v)),
    }
}

/// No key stands twice in `q`.
pub open spec fn keys_unique(q: Seq<(Seq<char>, Seq<char>)>) -> bool {
    forall|i: int, j: int| 0 <= i < q.len() && 0 <= j < q.len() && i != j ==> q[i].0 != q[j].0
}

pub proof fn lemma_key_pos_at(q: Seq<(Seq<char>, Seq<char>)>, k: Seq<char>, i: int)
    requires
        0 <= i < q.len(),
        q[i].0 == k,
        forall|j: int| 0 <= j < i ==> q[j].0 != k,
    ensures
        key_pos(q, k) == Some(i as nat),
    decreases i,
{
    if i > 0 {
        lemma_key_pos_at(q.drop_first(), k, i - 1);
    }
}

pub proof fn lemma_key_pos_none(q: Seq<(Seq<char>, Seq<char>)>, k: Seq<char>)
    requires
        forall|j: int| 0 <= j < q.len() ==> q[j].0 != k,
    ensures
        key_pos(q, k) is None,
    decreases q.len(),
{
    if q.len() > 0 {
        lemma_key_pos_none(q.drop_first(), k);
    }
}

/// Where the key `k` first stands in `q`.
pub fn find_key(q: &Vec<(String, String)>, k: &String) -> (r: Option<usize>)
    ensures
        r == (match key_pos(members_view(q@), k@) {
            Some(i) => Some(i as usize),
            None => None,
        }),
        r matches Some(i) ==> i < q@.len() && key_pos(members_view(q@), k@) == Some(i as nat),
        r is None ==> key_pos(members_view(q@), k@) is None,
{
    let ghost m = members_view(q@);
    let mut i: usize = 0;
    while i < q.len()
        invariant
            i <= q@.len() == m.len(),
            m == members_view(q@),
            forall|j: int| 0 <= j < i ==> m[j].0 != k@,
        decreases q@.len() - i,
    {
        if q[i].0 == *k {
            proof {
                lemma_key_pos_at(m, k@, i as int);
            }
            return Some(i);
        }
        i = i + 1;
    }
    proof {
        lemma_key_pos_none(m, k@);
    }
    None
}

/// Sets the value of `k` in `q` to `v`.
pub fn put_pair(q: &mut Vec<(String, String)>, k: String, v: String)
    ensures
        members_view(final(q)@) == put(members_view(old(q)@), k@, v@),
{
    let ghost before = q@;
    let ghost (kv, vv) = (k@, v@);
    match find_key(q, &k) {
        Some(i) => {
            q.set(i, (k, v));
            assert(members_view(q@) =~= members_view(before).update(i as int, (kv, vv)));
            assert(members_view(q@) == put(members_view(before), kv, vv));
        },
        None => {
            q.push((k, v));
            assert(members_view(q@) =~= members_view(before).push((kv, vv)));
            assert(members_view(q@) == put(members_view(before), kv, vv));
        },
    }
}

} // verus!
