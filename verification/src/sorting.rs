//! The order of file names and a sort that follows it.
//!
//! Input files of a run carry an increasing sub-file index in their names, so
//! sorting the names puts the files in the order in which they were written.
//! Names are ordered character by character, by code point, a proper prefix
//! before the longer name.
use vstd::prelude::*;
use vstd::relations::*;
use vstd::seq_lib::*;
use vstd::string::*;

verus! {

/// `a` comes no later than `b`, looking only at the characters from `i` on.
pub open spec fn le_from(a: Seq<char>, b: Seq<char>, i: int) -> bool
    decreases a.len() - i,
{
    if i < 0 || i >= a.len() {
        true
    } else if i >= b.len() {
        false
    } else if a[i] != b[i] {
        (a[i] as int) < (b[i] as int)
    } else {
        le_from(a, b, i + 1)
    }
}

/// `a` comes no later than `b` in the order of names.
pub open spec fn name_le(a: Seq<char>, b: Seq<char>) -> bool {
    le_from(a, b, 0)
}

/// The order of names as a relation.
pub open spec fn name_order() -> spec_fn(Seq<char>, Seq<char>) -> bool {
    |a: Seq<char>, b: Seq<char>| name_le(a, b)
}

/// The views of a sequence of strings.
pub open spec fn texts(v: Seq<String>) -> Seq<Seq<char>> {
    Seq::new(v.len(), |i: int| v[i]@)
}

/// The views of a sequence with one more string are the views of the
/// sequence with one more view.
pub proof fn lemma_texts_push(v: Seq<String>, s: String)
    ensures
        texts(v.push(s)) == texts(v).push(s@),
{
    assert(texts(v.push(s)) =~= texts(v).push(s@));
}

/// The names in ascending order.
pub open spec fn sorted_names(names: Seq<Seq<char>>) -> Seq<Seq<char>> {
    names.sort_by(name_order())
}

proof fn lemma_le_refl(a: Seq<char>, i: int)
    requires
        0 <= i,
    ensures
        le_from(a, a, i),
    decreases a.len() - i,
{
    if i < a.len() {
        lemma_le_refl(a, i + 1);
    }
}

proof fn lemma_le_total(a: Seq<char>, b: Seq<char>, i: int)
    requires
        0 <= i,
    ensures
        le_from(a, b, i) || le_from(b, a, i),
    decreases a.len() - i,
{
    if i < a.len() && i < b.len() {
        if a[i] == b[i] {
            lemma_le_total(a, b, i + 1);
        } else {
            assert(a[i] as int != b[i] as int);
        }
    }
}

proof fn lemma_le_antisym(a: Seq<char>, b: Seq<char>, i: int)
    requires
        0 <= i,
        le_from(a, b, i),
        le_from(b, a, i),
        i <= a.len(),
        i <= b.len(),
        a.subrange(0, i) == b.subrange(0, i),
    ensures
        a == b,
    decreases a.len() - i,
{
    if i < a.len() {
        assert(i < b.len());
        assert(a[i] == b[i]);
        assert(a.subrange(0, i + 1) =~= a.subrange(0, i).push(a[i]));
        assert(b.subrange(0, i + 1) =~= b.subrange(0, i).push(b[i]));
        lemma_le_antisym(a, b, i + 1);
    } else {
        assert(i >= b.len());
        assert(a =~= a.subrange(0, i));
        assert(b =~= b.subrange(0, i));
    }
}

proof fn lemma_le_trans(a: Seq<char>, b: Seq<char>, c: Seq<char>, i: int)
    requires
        0 <= i,
        le_from(a, b, i),
        le_from(b, c, i),
    ensures
        le_from(a, c, i),
    decreases a.len() - i,
{
    if i < a.len() {
        if a[i] == b[i] && b[i] == c[i] {
            lemma_le_trans(a, b, c, i + 1);
        }
    }
}

/// The order of names is total: any two names compare, equal ones are the
/// same name, and the order carries over a middle name.
pub proof fn lemma_name_order_total()
    ensures
        total_ordering(name_order()),
{
    let r = name_order();
    assert forall|a: Seq<char>| #[trigger] r(a, a) by {
        lemma_le_refl(a, 0);
    }
    assert forall|a: Seq<char>, b: Seq<char>| #[trigger] r(a, b) && #[trigger] r(b, a) implies a
        == b by {
        assert(a.subrange(0, 0) =~= b.subrange(0, 0));
        lemma_le_antisym(a, b, 0);
    }
    assert forall|a: Seq<char>, b: Seq<char>, c: Seq<char>| #[trigger]
        r(a, b) && #[trigger] r(b, c) implies r(a, c) by {
        lemma_le_trans(a, b, c, 0);
    }
    assert forall|a: Seq<char>, b: Seq<char>| #[trigger] r(a, b) || #[trigger] r(b, a) by {
        lemma_le_total(a, b, 0);
    }
}

/// Whether `a` comes no later than `b` in the order of names.
pub fn name_le_exec(a: &str, b: &str) -> (r: bool)
    ensures
        r == name_le(a@, b@),
{
    let n = a.unicode_len();
    let m = b.unicode_len();
    let mut i: usize = 0;
    while i < n
        invariant
            i <= n,
            n == a@.len(),
            m == b@.len(),
            name_le(a@, b@) == le_from(a@, b@, i as int),
        decreases n - i,
    {
        if i >= m {
            return false;
        }
        let x = a.get_char(i);
        let y = b.get_char(i);
        if x != y {
            return (x as u32) < (y as u32);
        }
        i = i + 1;
    }
    true
}

proof fn lemma_insert_multiset(s: Seq<Seq<char>>, pos: int, x: Seq<char>)
    requires
        0 <= pos <= s.len(),
    ensures
        s.insert(pos, x).to_multiset() =~= s.to_multiset().insert(x),
{
    broadcast use vstd::seq_lib::group_to_multiset_ensures;

    let left = s.subrange(0, pos);
    let right = s.subrange(pos, s.len() as int);
    assert(s =~= left + right);
    assert(s.insert(pos, x) =~= left.push(x) + right);
    lemma_multiset_commutative(left, right);
    lemma_multiset_commutative(left.push(x), right);
}

/// The names of `files` in ascending order.
pub fn sort_names(files: &Vec<String>) -> (r: Vec<String>)
    ensures
        texts(r@) == sorted_names(texts(files@)),
{
    let mut out: Vec<String> = Vec::new();
    let mut i: usize = 0;
    proof {
        lemma_name_order_total();
        assert(texts(files@).subrange(0, 0) =~= texts(out@));
    }
    while i < files.len()
        invariant
            i <= files.len(),
            total_ordering(name_order()),
            sorted_by(texts(out@), name_order()),
            texts(out@).to_multiset() == texts(files@).subrange(0, i as int).to_multiset(),
        decreases files.len() - i,
    {
        let item = files[i].clone();
        let mut pos: usize = 0;
        while pos < out.len() && name_le_exec(out[pos].as_str(), item.as_str())
            invariant
                pos <= out.len(),
                forall|j: int| 0 <= j < pos ==> name_le(#[trigger] out@[j]@, item@),
            decreases out.len() - pos,
        {
            pos = pos + 1;
        }
        let ghost before = texts(out@);
        out.insert(pos, item);
        proof {
            let after = texts(out@);
            let r = name_order();
            assert(after =~= before.insert(pos as int, item@));
            assert forall|a: int, b: int| 0 <= a < b < after.len() implies #[trigger] r(
                after[a],
                after[b],
            ) by {
                if b < pos {
                    assert(r(before[a], before[b]));
                } else if b == pos {
                    assert(name_le(before[a], item@));
                } else if a == pos {
                    // the item comes before everything from `pos` on
                    assert(!name_le(before[pos as int], item@));
                    assert(r(item@, before[pos as int]) || r(before[pos as int], item@));
                    if b - 1 > pos {
                        assert(r(before[pos as int], before[b - 1]));
                    }
                    assert(r(item@, before[b - 1]));
                } else if a < pos {
                    assert(r(before[a], before[b - 1]));
                } else {
                    assert(r(before[a - 1], before[b - 1]));
                }
            }
            lemma_insert_multiset(before, pos as int, item@);
            let done = texts(files@).subrange(0, i as int);
            assert(texts(files@).subrange(0, i + 1) =~= done.push(item@));
            broadcast use vstd::seq_lib::group_to_multiset_ensures;

        }
        i = i + 1;
    }
    proof {
        let names = texts(files@);
        assert(names.subrange(0, i as int) =~= names);
        names.lemma_sort_by_ensures(name_order());
        lemma_sorted_unique(texts(out@), sorted_names(names), name_order());
    }
    out
}

} // verus!
