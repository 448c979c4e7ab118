//! Lexicographic order on character sequences, with the facts that make
//! it a strict total order.

use vstd::prelude::*;

verus! {

/// Strict lexicographic order on character sequences.
pub open spec fn lex_lt(a: Seq<char>, b: Seq<char>) -> bool
    decreases a.len(),
{
    if b.len() == 0 {
        false
    } else if a.len() == 0 {
        true
    } else if a[0] < b[0] {
        true
    } else if a[0] == b[0] {
        lex_lt(a.drop_first(), b.drop_first())
    } else {
        false
    }
}

/// Any two sequences are ordered or equal.
pub proof fn lemma_lex_connex(a: Seq<char>, b: Seq<char>)
    ensures
        lex_lt(a, b) || lex_lt(b, a) || a == b,
    decreases a.len(),
{
    if b.len() == 0 {
        if a.len() == 0 {
            assert(a =~= b);
        } else {
            assert(lex_lt(b, a));
        }
    } else if a.len() == 0 {
        assert(lex_lt(a, b));
    } else if a[0] == b[0] {
        lemma_lex_connex(a.drop_first(), b.drop_first());
        assert(lex_lt(a, b) == lex_lt(a.drop_first(), b.drop_first()));
        assert(lex_lt(b, a) == lex_lt(b.drop_first(), a.drop_first()));
        if !lex_lt(a, b) && !lex_lt(b, a) {
            assert(a.drop_first() =~= b.drop_first());
            assert(a.len() == b.len());
            assert forall|k: int| 0 <= k < a.len() implies a[k] == b[k] by {
                if k > 0 {
                    assert(a.drop_first()[k - 1] == b.drop_first()[k - 1]);
                    assert(a[k] == a.drop_first()[k - 1]);
                    assert(b[k] == b.drop_first()[k - 1]);
                }
            }
            assert(a =~= b);
        }
    } else {
        assert(a[0] < b[0] || b[0] < a[0]);
    }
}

/// Nothing is below itself.
pub proof fn lemma_lex_irrefl(a: Seq<char>)
    ensures
        !lex_lt(a, a),
    decreases a.len(),
{
    if a.len() > 0 {
        lemma_lex_irrefl(a.drop_first());
    }
}

/// The order is transitive.
pub proof fn lemma_lex_trans(a: Seq<char>, b: Seq<char>, c: Seq<char>)
    requires
        lex_lt(a, b),
        lex_lt(b, c),
    ensures
        lex_lt(a, c),
    decreases a.len(),
{
    if a.len() == 0 {
    } else if a[0] == b[0] && b[0] == c[0] {
        lemma_lex_trans(a.drop_first(), b.drop_first(), c.drop_first());
    }
}

/// If equal prefixes of length `i` are dropped from both sides, the
/// order is unchanged.
pub proof fn lemma_lex_skip(a: Seq<char>, b: Seq<char>, i: int)
    requires
        0 <= i <= a.len(),
        i <= b.len(),
        forall|j: int| 0 <= j < i ==> a[j] == b[j],
    ensures
        lex_lt(a, b) == lex_lt(a.skip(i), b.skip(i)),
    decreases i,
{
    if i == 0 {
        assert(a.skip(0) =~= a);
        assert(b.skip(0) =~= b);
    } else {
        assert(a[0] == b[0]);
        assert(a.len() > 0 && b.len() > 0);
        assert(lex_lt(a, b) == lex_lt(a.drop_first(), b.drop_first()));
        lemma_lex_skip(a.drop_first(), b.drop_first(), i - 1);
        assert(a.drop_first().skip(i - 1) =~= a.skip(i));
        assert(b.drop_first().skip(i - 1) =~= b.skip(i));
    }
}

/// Decide `lex_lt(a@, b@)` for strings.
pub fn str_lex_lt(a: &String, b: &String) -> (r: bool)
    ensures
        r == lex_lt(a@, b@),
{
    let av = crate::edn::chars_of(a.as_str());
    let bv = crate::edn::chars_of(b.as_str());
    let mut i: usize = 0;
    loop
        invariant
            av@ == a@,
            bv@ == b@,
            i <= av@.len(),
            i <= bv@.len(),
            forall|j: int| 0 <= j < i ==> a@[j] == b@[j],
        decreases av@.len() - i,
    {
        proof {
            lemma_lex_skip(a@, b@, i as int);
        }
        if i >= av.len() {
            proof {
                assert(a@.skip(i as int).len() == 0);
            }
            return i < bv.len();
        }
        if i >= bv.len() {
            proof {
                assert(b@.skip(i as int).len() == 0);
            }
            return false;
        }
        let ca = av[i];
        let cb = bv[i];
        if ca < cb {
            proof {
                assert(a@.skip(i as int)[0] == a@[i as int]);
                assert(b@.skip(i as int)[0] == b@[i as int]);
                assert(lex_lt(a@.skip(i as int), b@.skip(i as int)));
            }
            return true;
        }
        if cb < ca {
            proof {
                assert(a@.skip(i as int)[0] == a@[i as int]);
                assert(b@.skip(i as int)[0] == b@[i as int]);
            }
            return false;
        }
        proof {
            assert(a@[i as int] == b@[i as int]);
        }
        i = i + 1;
    }
}

/// The entid associated with `name`, if any.
pub fn tempids_get(v: &Vec<(String, i64)>, name: &String) -> (r: Option<i64>)
    ensures
        match r {
            Some(e) => exists|i: int|
                0 <= i < v@.len() && (#[trigger] v@[i]).0@ == name@ && v@[i].1 == e,
            None => forall|i: int| 0 <= i < v@.len() ==> (#[trigger] v@[i]).0@ != name@,
        },
{
    let mut i: usize = 0;
    while i < v.len()
        invariant
            i <= v@.len(),
            forall|j: int| 0 <= j < i ==> (#[trigger] v@[j]).0@ != name@,
        decreases v@.len() - i,
    {
        if v[i].0 == *name {
            return Some(v[i].1);
        }
        i = i + 1;
    }
    None
}

/// A strictly ascending vector of names: sorted and duplicate-free.
pub open spec fn strictly_sorted(s: Seq<String>) -> bool {
    forall|i: int, j: int| 0 <= i < j < s.len() ==> lex_lt((#[trigger] s[i])@, (#[trigger] s[j])@)
}

/// Insert `name` into a strictly ascending vector, keeping it strictly
/// ascending; a name already present is left alone.
pub fn insert_sorted(names: &mut Vec<String>, name: String)
    requires
        strictly_sorted(old(names)@),
    ensures
        strictly_sorted(final(names)@),
        // The new name is present.
        exists|i: int| 0 <= i < final(names)@.len() && (#[trigger] final(names)@[i])@ == name@,
        // Every old name is still present.
        forall|i: int|
            0 <= i < old(names)@.len() ==> exists|j: int|
                0 <= j < final(names)@.len() && (#[trigger] final(names)@[j])@ == (
                #[trigger] old(names)@[i])@,
        // Nothing else appears.
        forall|j: int|
            0 <= j < final(names)@.len() ==> (#[trigger] final(names)@[j])@ == name@ || exists|
                i: int,
            | 0 <= i < old(names)@.len() && (#[trigger] old(names)@[i])@ == final(names)@[j]@,
    {
    let mut pos: usize = 0;
    while pos < names.len() && str_lex_lt(&names[pos], &name)
        invariant
            pos <= names@.len(),
            old(names) == names,
            strictly_sorted(names@),
            forall|i: int| 0 <= i < pos ==> lex_lt((#[trigger] names@[i])@, name@),
        decreases names@.len() - pos,
    {
        pos = pos + 1;
    }
    if pos < names.len() {
        if names[pos] == name {
            return ;
        }
    }
    proof {
        if pos < names@.len() {
            lemma_lex_connex(names@[pos as int]@, name@);
            assert(lex_lt(name@, names@[pos as int]@));
        }
    }
    let ghost m = names@;
    names.insert(pos, name);
    proof {
        assert(names@ == m.insert(pos as int, name));
        assert(names@.len() == m.len() + 1);
        assert(forall|i: int| 0 <= i < pos ==> names@[i] == m[i]);
        assert(forall|i: int| pos < i < names@.len() ==> names@[i] == m[i - 1]);
        assert(names@[pos as int] == name);
        assert forall|i: int, j: int| 0 <= i < j < names@.len() implies lex_lt(
            (names@[i])@,
            (names@[j])@,
        ) by {
            if i == pos {
                // name < everything after: m[j-1] is at or past pos.
                if pos < m.len() {
                    if j - 1 > pos {
                        lemma_lex_trans(name@, m[pos as int]@, m[j - 1]@);
                    }
                }
            } else if j == pos {
                // everything before < name.
            } else if i < pos && j > pos {
            }
        }
        assert forall|i: int| 0 <= i < m.len() implies exists|j: int|
            0 <= j < names@.len() && (#[trigger] names@[j])@ == (#[trigger] m[i])@ by {
            if i < pos {
                assert(names@[i] == m[i]);
            } else {
                assert(names@[i + 1] == m[i]);
            }
        }
    }
}

} // verus!
