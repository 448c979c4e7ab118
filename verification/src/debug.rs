//! Low-level inspection of the store for testing: deterministically
//! ordered datom and transaction enumeration, fulltext listing, and a
//! tabular dump of arbitrary queries.

use vstd::prelude::*;
use crate::types::{
    StoreError,
    TypedValue,
    TAG_LONG,
    DB_TX_INSTANT,
};
use crate::schema::{Attribute, Schema};
use crate::entities::EntidOrIdent;
use crate::edn::Value;
use crate::order::lex_lt;
use vstd::seq_lib::group_to_multiset_ensures;
use vstd::multiset::{group_multiset_axioms, group_multiset_properties};
use crate::store::{self, SqlVal};
use crate::query;

verus! {

/// Represents a datom (assertion) in the store, with the numeric key it
/// is deterministically ordered by.
#[derive(Debug, PartialEq, Eq)]
pub struct Datom {
    /// The entity, always numeric.
    pub e: EntidOrIdent,
    /// The attribute, shown as its ident when one is known.
    pub a: EntidOrIdent,
    /// The emitted value: refs shown as idents when known, fulltext
    /// surrogates resolved to their text.
    pub v: TypedValue,
    pub tx: i64,
    /// Present in the history view, absent in the snapshot view.
    pub added: Option<bool>,
    /// Ordering key: the numeric entity id.
    pub e_num: i64,
    /// Ordering key: the numeric attribute id.
    pub a_num: i64,
    /// Ordering key: the stored value tag, normalized to the long tag
    /// for fulltext attributes whose stored value is a string row id.
    pub vkey_tag: i64,
    /// Ordering key: the stored column value.
    pub vkey: SqlVal,
}

impl Clone for Datom {
    fn clone(&self) -> (r: Self)
        ensures
            r == *self,
    {
        Datom {
            e: self.e.clone(),
            a: self.a.clone(),
            v: self.v.clone(),
            tx: self.tx,
            added: self.added,
            e_num: self.e_num,
            a_num: self.a_num,
            vkey_tag: self.vkey_tag,
            vkey: self.vkey.clone(),
        }
    }
}

/// A set of datoms, deterministically ordered by the ascending tuple
/// `(e, a, (value_type_tag, v), tx)`.
#[derive(Debug, PartialEq, Eq)]
pub struct Datoms(pub Vec<Datom>);

/// An ordered sequence of transactions, each a set of datoms ordered by
/// `(e, a, (value_type_tag, v), tx, added)` with retractions before
/// assertions.
#[derive(Debug, PartialEq, Eq)]
pub struct Transactions(pub Vec<Datoms>);

/// The fulltext values in the store, ordered by row id.
#[derive(Debug, PartialEq, Eq)]
pub struct FulltextValues(pub Vec<(i64, String)>);

/// Stored-value equality.
pub open spec fn sv_eq(a: SqlVal, b: SqlVal) -> bool {
    match (a, b) {
        (SqlVal::Int(x), SqlVal::Int(y)) => x == y,
        (SqlVal::Str(x), SqlVal::Str(y)) => x@ == y@,
        _ => false,
    }
}

/// Stored-value order: integers before texts, integers numerically,
/// texts lexicographically.
pub open spec fn sv_lt(a: SqlVal, b: SqlVal) -> bool {
    match (a, b) {
        (SqlVal::Int(x), SqlVal::Int(y)) => x < y,
        (SqlVal::Int(_), SqlVal::Str(_)) => true,
        (SqlVal::Str(_), SqlVal::Int(_)) => false,
        (SqlVal::Str(x), SqlVal::Str(y)) => lex_lt(x@, y@),
    }
}

/// Where a datom's `added` flag sorts: retractions before assertions.
pub open spec fn added_rank(d: Datom) -> int {
    match d.added {
        Some(true) => 1,
        _ => 0,
    }
}

/// The deterministic datom order. The snapshot view (`tx_first` false)
/// orders by `(e, a, (tag, v), tx)`; the history view (`tx_first` true)
/// by `(tx, e, a, (tag, v), added)`.
pub open spec fn datom_le(tx_first: bool, x: Datom, y: Datom) -> bool {
    if tx_first && x.tx != y.tx {
        x.tx < y.tx
    } else if x.e_num != y.e_num {
        x.e_num < y.e_num
    } else if x.a_num != y.a_num {
        x.a_num < y.a_num
    } else if x.vkey_tag != y.vkey_tag {
        x.vkey_tag < y.vkey_tag
    } else if !sv_eq(x.vkey, y.vkey) {
        sv_lt(x.vkey, y.vkey)
    } else if !tx_first && x.tx != y.tx {
        x.tx < y.tx
    } else {
        added_rank(x) <= added_rank(y)
    }
}

/// The order is total.
proof fn lemma_datom_le_total(tx_first: bool, x: Datom, y: Datom)
    ensures
        datom_le(tx_first, x, y) || datom_le(tx_first, y, x),
{
    if !sv_eq(x.vkey, y.vkey) {
        match (x.vkey, y.vkey) {
            (SqlVal::Str(a), SqlVal::Str(b)) => {
                crate::order::lemma_lex_connex(a@, b@);
            },
            _ => {},
        }
    }
}

/// Decide `datom_le`.
fn datom_le_exec(tx_first: bool, x: &Datom, y: &Datom) -> (r: bool)
    ensures
        r == datom_le(tx_first, *x, *y),
{
    if tx_first && x.tx != y.tx {
        return x.tx < y.tx;
    }
    if x.e_num != y.e_num {
        return x.e_num < y.e_num;
    }
    if x.a_num != y.a_num {
        return x.a_num < y.a_num;
    }
    if x.vkey_tag != y.vkey_tag {
        return x.vkey_tag < y.vkey_tag;
    }
    let veq = match (&x.vkey, &y.vkey) {
        (SqlVal::Int(a), SqlVal::Int(b)) => *a == *b,
        (SqlVal::Str(a), SqlVal::Str(b)) => *a == *b,
        _ => false,
    };
    if !veq {
        return match (&x.vkey, &y.vkey) {
            (SqlVal::Int(a), SqlVal::Int(b)) => *a < *b,
            (SqlVal::Int(_), SqlVal::Str(_)) => true,
            (SqlVal::Str(_), SqlVal::Int(_)) => false,
            (SqlVal::Str(a), SqlVal::Str(b)) => crate::order::str_lex_lt(a, b),
        };
    }
    if !tx_first && x.tx != y.tx {
        return x.tx < y.tx;
    }
    let rx: i64 = match x.added {
        Some(true) => 1,
        _ => 0,
    };
    let ry: i64 = match y.added {
        Some(true) => 1,
        _ => 0,
    };
    rx <= ry
}

/// Inserting anywhere adds exactly one occurrence to the multiset.
proof fn lemma_to_multiset_insert<A>(s: Seq<A>, p: int, x: A)
    requires
        0 <= p <= s.len(),
    ensures
        s.insert(p, x).to_multiset() =~= s.to_multiset().insert(x),
{
    broadcast use group_to_multiset_ensures;
    broadcast use group_multiset_axioms;
    broadcast use group_multiset_properties;

    let s2 = s.insert(p, x);
    assert(s2[p] == x);
    assert(s2.remove(p) =~= s);
    assert(s.to_multiset() =~= s2.to_multiset().remove(x));
    assert(s2.contains(x));
    assert(s2.to_multiset().count(x) > 0);
    assert forall|y: A| s2.to_multiset().count(y) == #[trigger] s.to_multiset().insert(x).count(
        y,
    ) by {
        if y == x {
            assert(s.to_multiset().count(x) == s2.to_multiset().remove(x).count(x));
        } else {
            assert(s.to_multiset().count(y) == s2.to_multiset().remove(x).count(y));
        }
    }
}

/// Insert one datom at its sorted position.
#[verifier::rlimit(100)]
fn insert_datom_sorted(tx_first: bool, out: &mut Vec<Datom>, x: Datom)
    requires
        forall|i: int|
            0 <= i && i + 1 < old(out)@.len() ==> datom_le(
                tx_first,
                #[trigger] old(out)@[i],
                old(out)@[i + 1],
            ),
    ensures
        final(out)@.len() == old(out)@.len() + 1,
        forall|i: int|
            0 <= i && i + 1 < final(out)@.len() ==> datom_le(
                tx_first,
                #[trigger] final(out)@[i],
                final(out)@[i + 1],
            ),
        exists|p: int| 0 <= p <= old(out)@.len() && final(out)@ == old(out)@.insert(p, x),
{
    let mut pos: usize = 0;
    while pos < out.len() && datom_le_exec(tx_first, &out[pos], &x)
        invariant
            pos <= out@.len(),
            old(out) == out,
            forall|i: int| 0 <= i < pos ==> datom_le(tx_first, #[trigger] out@[i], x),
        decreases out@.len() - pos,
    {
        pos = pos + 1;
    }
    proof {
        if pos < out@.len() {
            lemma_datom_le_total(tx_first, out@[pos as int], x);
        }
    }
    let ghost prev = out@;
    let ghost xg = x;
    out.insert(pos, x);
    proof {
        assert(out@ == prev.insert(pos as int, xg));
        assert(forall|i: int| 0 <= i < pos ==> out@[i] == prev[i]);
        assert(forall|i: int| pos < i < out@.len() ==> out@[i] == prev[i - 1]);
        assert(out@[pos as int] == xg);
        assert forall|i: int| 0 <= i && i + 1 < out@.len() implies datom_le(
            tx_first,
            #[trigger] out@[i],
            out@[i + 1],
        ) by {
            if i + 1 < pos {
                assert(out@[i] == prev[i] && out@[i + 1] == prev[i + 1]);
            } else if i + 1 == pos {
                assert(out@[i] == prev[i]);
            } else if i == pos {
                assert(out@[i + 1] == prev[i]);
            } else {
                assert(out@[i] == prev[i - 1] && out@[i + 1] == prev[i]);
            }
        }
    }
}

/// Sort datoms into the deterministic order: a reordering of the input
/// (the same multiset) in which each element stands at or below its
/// successor.
#[verifier::rlimit(100)]
pub fn sort_datoms(tx_first: bool, input: &Vec<Datom>) -> (r: Vec<Datom>)
    ensures
        r@.len() == input@.len(),
        r@.to_multiset() == input@.to_multiset(),
        forall|i: int| 0 <= i && i + 1 < r@.len() ==> datom_le(tx_first, #[trigger] r@[i], r@[i + 1]),
        forall|i: int| 0 <= i < input@.len() ==> r@.contains(#[trigger] input@[i]),
        forall|j: int| 0 <= j < r@.len() ==> input@.contains(#[trigger] r@[j]),
{
    let mut out: Vec<Datom> = Vec::new();
    proof {
        assert(out@ =~= input@.subrange(0, 0));
    }
    let mut k: usize = 0;
    while k < input.len()
        invariant
            k <= input@.len(),
            out@.len() == k,
            out@.to_multiset() == input@.subrange(0, k as int).to_multiset(),
            forall|i: int|
                0 <= i && i + 1 < out@.len() ==> datom_le(tx_first, #[trigger] out@[i], out@[i + 1]),
            forall|i: int| 0 <= i < k ==> out@.contains(#[trigger] input@[i]),
            forall|j: int| 0 <= j < out@.len() ==> input@.contains(#[trigger] out@[j]),
        decreases input@.len() - k,
    {
        let x = input[k].clone();
        let ghost prev = out@;
        let ghost xg = x;
        insert_datom_sorted(tx_first, &mut out, x);
        proof {
            broadcast use group_to_multiset_ensures;

            let p = choose|p: int| 0 <= p <= prev.len() && out@ == prev.insert(p, xg);
            lemma_to_multiset_insert(prev, p, xg);
            assert(xg == input@[k as int]);
            assert(prev.to_multiset() == input@.subrange(0, k as int).to_multiset());
            assert(out@.to_multiset() =~= prev.to_multiset().insert(xg));
            assert(input@.subrange(0, k + 1).drop_last() =~= input@.subrange(0, k as int));
            assert(input@.subrange(0, k + 1) =~= input@.subrange(0, k as int).push(
                input@[k as int],
            ));
            assert(input@.subrange(0, k as int).push(input@[k as int]).to_multiset()
                =~= input@.subrange(0, k as int).to_multiset().insert(input@[k as int]));
            assert(out@.to_multiset() =~= input@.subrange(0, k + 1).to_multiset());
            assert(forall|i: int| 0 <= i < p ==> out@[i] == prev[i]);
            assert(forall|i: int| p < i < out@.len() ==> out@[i] == prev[i - 1]);
            assert(out@[p] == xg);
            assert forall|i: int| 0 <= i < k + 1 implies out@.contains(#[trigger] input@[i]) by {
                if i < k {
                    let j = choose|j: int| 0 <= j < prev.len() && prev[j] == input@[i];
                    if j < p {
                        assert(out@[j] == input@[i]);
                    } else {
                        assert(out@[j + 1] == input@[i]);
                    }
                } else {
                    assert(out@[p] == input@[i]);
                }
            }
            assert forall|j: int| 0 <= j < out@.len() implies input@.contains(#[trigger] out@[j]) by {
                if j < p {
                    assert(out@[j] == prev[j]);
                    assert(prev.contains(prev[j]));
                } else if j == p {
                    assert(out@[j] == input@[k as int]);
                    assert(input@.contains(input@[k as int]));
                } else {
                    assert(out@[j] == prev[j - 1]);
                    assert(prev.contains(prev[j - 1]));
                }
            }
        }
        k = k + 1;
    }
    proof {
        assert(input@.subrange(0, input@.len() as int) =~= input@);
    }
    out
}

/// How an entid is displayed: its ident when the schema knows one, the
/// number itself otherwise.
pub open spec fn entid_rendered(schema: Schema, e: i64, r: EntidOrIdent) -> bool {
    match r {
        EntidOrIdent::Ident(kw) => schema.spec_ident(e, kw@),
        EntidOrIdent::Entid(x) => x == e && !schema.spec_has_ident(e),
    }
}

/// How a typed value is displayed: a `Ref` becomes its keyword when the
/// schema knows the ident, every other value stands as it is.
pub open spec fn ident_rendered(schema: Schema, v: TypedValue, r: TypedValue) -> bool {
    match v {
        TypedValue::Ref(e) => (schema.spec_has_ident(e) ==> (match r {
            TypedValue::Keyword(kw) => schema.spec_ident(e, kw@),
            _ => false,
        })) && (!schema.spec_has_ident(e) ==> r == TypedValue::Ref(e)),
        _ => r == v,
    }
}

/// A datom is displayed faithfully: the entity stays numeric, the
/// attribute is rendered as its ident when one is known, the `added`
/// flag is present exactly in the history view, and a non-fulltext value
/// is the decoded stored value with known refs rendered as idents.
pub open spec fn datom_rendered(schema: Schema, d: Datom, history: bool) -> bool {
    &&& d.e == EntidOrIdent::Entid(d.e_num)
    &&& (if history {
        d.added is Some
    } else {
        d.added is None
    })
    &&& entid_rendered(schema, d.a_num, d.a)
    &&& forall|attr: Attribute|
        #[trigger] schema.spec_attribute(d.a_num, attr) && !attr.fulltext ==> exists|
            tv: TypedValue,
        | query::decodes_to(d.vkey, d.vkey_tag, Some(tv)) && ident_rendered(schema, tv, d.v)
}

/// Convert a numeric entid to an ident when the schema knows one.
fn to_entid(schema: &Schema, entid: i64) -> (r: EntidOrIdent)
    ensures
        entid_rendered(*schema, entid, r),
{
    match schema.get_ident(entid) {
        Some(kw) => EntidOrIdent::Ident(kw),
        None => EntidOrIdent::Entid(entid),
    }
}

/// Turn a `Ref` into its keyword when the schema knows the ident.
fn map_ident(schema: &Schema, v: TypedValue) -> (r: TypedValue)
    ensures
        ident_rendered(*schema, v, r),
{
    match v {
        TypedValue::Ref(e) => {
            match schema.get_ident(e) {
                Some(kw) => TypedValue::Keyword(kw),
                None => TypedValue::Ref(e),
            }
        },
        other => other,
    }
}

/// The emitted datom for one stored row: the ordering tag of a fulltext
/// attribute is normalized to the long tag, and its emitted value is the
/// resolved string.
fn decode_row(
    schema: &Schema,
    fulltext: &Vec<(i64, String)>,
    e: i64,
    a: i64,
    v: &SqlVal,
    tag: i64,
    tx: i64,
    added: Option<bool>,
) -> (r: Result<Datom, StoreError>)
    requires
        schema.wf(),
    ensures
        match r {
            Ok(d) => {
                &&& d.e_num == e
                &&& d.a_num == a
                &&& d.tx == tx
                &&& d.added == added
                &&& d.vkey == *v
                &&& datom_rendered(*schema, d, added is Some)
                // A fulltext attribute is emitted with the long tag, and
                // its value is the text of the fulltext row that the
                // stored row id names.
                &&& forall|attr: Attribute|
                    #[trigger] schema.spec_attribute(a, attr) && attr.fulltext ==> d.vkey_tag
                        == TAG_LONG && (match *v {
                        SqlVal::Int(rowid) => exists|k: int|
                            0 <= k < fulltext@.len() && (#[trigger] fulltext@[k]).0 == rowid
                                && d.v == TypedValue::Text(fulltext@[k].1),
                        SqlVal::Str(_) => false,
                    })
                // Any other attribute keeps its stored tag.
                &&& forall|attr: Attribute|
                    #[trigger] schema.spec_attribute(a, attr) && !attr.fulltext ==> d.vkey_tag
                        == tag
            },
            // The row's own faults: an attribute the schema does not
            // know, or a stored value that cannot be decoded.
            Err(e) => match e {
                StoreError::DbError(crate::types::DbErrorKind::UnknownAttribute(x)) => x == a
                    && !schema.spec_has_attribute(a),
                StoreError::Substrate(_) => true,
                _ => false,
            },
        },
{
    let attr = match schema.attribute_for_entid(a) {
        Some(attr) => attr,
        None => {
            return Err(StoreError::DbError(crate::types::DbErrorKind::UnknownAttribute(a)));
        },
    };
    let (display, vkey_tag) = if attr.fulltext {
        match v {
            SqlVal::Int(rowid) => {
                let mut j: usize = 0;
                let mut found: Option<TypedValue> = None;
                while j < fulltext.len()
                    invariant
                        j <= fulltext@.len(),
                        found matches Some(t) ==> exists|k: int|
                            0 <= k < fulltext@.len() && (#[trigger] fulltext@[k]).0 == *rowid && t
                                == TypedValue::Text(fulltext@[k].1),
                    decreases fulltext@.len() - j,
                {
                    if fulltext[j].0 == *rowid && found.is_none() {
                        found = Some(TypedValue::Text(fulltext[j].1.clone()));
                        proof {
                            assert((fulltext@[j as int]).0 == *rowid);
                        }
                    }
                    j = j + 1;
                }
                match found {
                    Some(t) => (t, TAG_LONG),
                    None => {
                        return Err(
                            StoreError::Substrate(String::from_str("missing fulltext value")),
                        );
                    },
                }
            },
            _ => {
                return Err(StoreError::Substrate(String::from_str("corrupt fulltext surrogate")));
            },
        }
    } else {
        match query::decode_value(v, tag) {
            Some(tv) => (map_ident(schema, tv), tag),
            None => {
                return Err(StoreError::Substrate(String::from_str("corrupt stored value")));
            },
        }
    };
    proof {
        assert forall|a2: Attribute| #[trigger] schema.spec_attribute(a, a2) implies a2
            == attr by {
            crate::schema::lemma_attribute_unique(*schema, a, attr, a2);
        }
    }
    Ok(
        Datom {
            e: EntidOrIdent::Entid(e),
            a: to_entid(schema, a),
            v: display,
            tx,
            added,
            e_num: e,
            a_num: a,
            vkey_tag,
            vkey: v.clone(),
        },
    )
}

/// A `datoms` row that belongs in the snapshot view past `tx`.
pub open spec fn snapshot_row(r: store::RawDatomRow, tx: i64) -> bool {
    r.tx > tx && r.a != DB_TX_INSTANT
}

/// How many rows of `rows` belong in the snapshot view past `tx`.
pub open spec fn snapshot_count(rows: Seq<store::RawDatomRow>, tx: i64) -> int
    decreases rows.len(),
{
    if rows.len() == 0 {
        0
    } else {
        snapshot_count(rows.drop_last(), tx) + if snapshot_row(rows.last(), tx) {
            1int
        } else {
            0
        }
    }
}

/// Build the snapshot view from the rows read out of the store: one
/// datom per qualifying row, in the deterministic order.
pub fn datoms_from_rows(
    schema: &Schema,
    rows: &Vec<store::RawDatomRow>,
    fulltext: &Vec<(i64, String)>,
    tx: i64,
) -> (r: Result<Datoms, StoreError>)
    requires
        schema.wf(),
    ensures
        match r {
            Ok(d) => {
                // One datom per qualifying row.
                &&& d.0@.len() == snapshot_count(rows@, tx)
                // Deterministic order.
                &&& forall|i: int|
                    0 <= i && i + 1 < d.0@.len() ==> datom_le(false, #[trigger] d.0@[i], d.0@[i + 1])
                // Only datoms past `tx`, and never the transaction
                // instants.
                &&& forall|i: int|
                    0 <= i < d.0@.len() ==> (#[trigger] d.0@[i]).tx > tx && d.0@[i].a_num
                        != DB_TX_INSTANT
                // Each datom is displayed faithfully: numeric entity, no
                // added flag, attribute and non-fulltext refs rendered as
                // idents when known.
                &&& forall|i: int|
                    0 <= i < d.0@.len() ==> datom_rendered(*schema, #[trigger] d.0@[i], false)
                // Fulltext attributes are emitted with the long tag, the
                // value being the text of the fulltext row their stored
                // row id names.
                &&& forall|i: int, attr: Attribute|
                    0 <= i < d.0@.len() && #[trigger] schema.spec_attribute(
                        (#[trigger] d.0@[i]).a_num,
                        attr,
                    ) && attr.fulltext ==> d.0@[i].vkey_tag == TAG_LONG && (match d.0@[i].vkey {
                        SqlVal::Int(rowid) => exists|k: int|
                            0 <= k < fulltext@.len() && (#[trigger] fulltext@[k]).0 == rowid
                                && d.0@[i].v == TypedValue::Text(fulltext@[k].1),
                        SqlVal::Str(_) => false,
                    })
            },
            // An unknown-attribute failure names the attribute of some
            // qualifying row that the schema does not know.
            Err(e) => match e {
                StoreError::DbError(crate::types::DbErrorKind::UnknownAttribute(x)) => !schema
                    .spec_has_attribute(x) && exists|j: int|
                    0 <= j < rows@.len() && snapshot_row(#[trigger] rows@[j], tx) && rows@[j].a
                        == x,
                StoreError::Substrate(_) => true,
                _ => false,
            },
        },
{
    let mut recs: Vec<Datom> = Vec::new();
    proof {
        assert(rows@.subrange(0, 0) =~= Seq::<store::RawDatomRow>::empty());
    }
    let mut i: usize = 0;
    while i < rows.len()
        invariant
            i <= rows@.len(),
            schema.wf(),
            recs@.len() == snapshot_count(rows@.subrange(0, i as int), tx),
            forall|j: int|
                0 <= j < recs@.len() ==> (#[trigger] recs@[j]).tx > tx && recs@[j].a_num
                    != DB_TX_INSTANT,
            forall|j: int| 0 <= j < recs@.len() ==> datom_rendered(*schema, #[trigger] recs@[j], false),
            forall|j: int, attr: Attribute|
                0 <= j < recs@.len() && #[trigger] schema.spec_attribute(
                    (#[trigger] recs@[j]).a_num,
                    attr,
                ) && attr.fulltext ==> recs@[j].vkey_tag == TAG_LONG && (match recs@[j].vkey {
                    SqlVal::Int(rowid) => exists|k: int|
                        0 <= k < fulltext@.len() && (#[trigger] fulltext@[k]).0 == rowid
                            && recs@[j].v == TypedValue::Text(fulltext@[k].1),
                    SqlVal::Str(_) => false,
                }),
        decreases rows@.len() - i,
    {
        let row = &rows[i];
        proof {
            assert(rows@.subrange(0, i + 1).drop_last() =~= rows@.subrange(0, i as int));
            assert(rows@.subrange(0, i + 1).last() == rows@[i as int]);
        }
        if row.tx > tx && row.a != DB_TX_INSTANT {
            let d = match decode_row(
                schema,
                fulltext,
                row.e,
                row.a,
                &row.v,
                row.tag,
                row.tx,
                None,
            ) {
                Ok(d) => d,
                Err(e) => {
                    return Err(e);
                },
            };
            recs.push(d);
        }
        i = i + 1;
    }
    proof {
        assert(rows@.subrange(0, rows@.len() as int) =~= rows@);
    }
    let sorted = sort_datoms(false, &recs);
    proof {
        assert forall|i: int|
            0 <= i < sorted@.len() implies ((#[trigger] sorted@[i]).tx > tx && sorted@[i].a_num
            != DB_TX_INSTANT) by {
            assert(recs@.contains(sorted@[i]));
            let j = choose|j: int| 0 <= j < recs@.len() && recs@[j] == sorted@[i];
            assert(recs@[j].tx > tx && recs@[j].a_num != DB_TX_INSTANT);
        }
        assert forall|i: int|
            0 <= i < sorted@.len() implies datom_rendered(*schema, #[trigger] sorted@[i], false) by {
            assert(recs@.contains(sorted@[i]));
            let j = choose|j: int| 0 <= j < recs@.len() && recs@[j] == sorted@[i];
            assert(datom_rendered(*schema, recs@[j], false));
        }
        assert forall|i: int, attr: Attribute|
            0 <= i < sorted@.len() && #[trigger] schema.spec_attribute(
                (#[trigger] sorted@[i]).a_num,
                attr,
            ) && attr.fulltext implies (sorted@[i].vkey_tag == TAG_LONG && (match sorted@[i].vkey {
            SqlVal::Int(rowid) => exists|k: int|
                0 <= k < fulltext@.len() && (#[trigger] fulltext@[k]).0 == rowid && sorted@[i].v
                    == TypedValue::Text(fulltext@[k].1),
            SqlVal::Str(_) => false,
        })) by {
            assert(recs@.contains(sorted@[i]));
            let j = choose|j: int| 0 <= j < recs@.len() && recs@[j] == sorted@[i];
            assert(schema.spec_attribute(recs@[j].a_num, attr) && attr.fulltext);
        }
    }
    Ok(Datoms(sorted))
}

/// Return the set of datoms in the store with transaction id strictly
/// greater than `tx`, ordered by `(e, a, (value_type_tag, v), tx)`, and
/// not including any datom of the form `[... :db/txInstant ...]`; one
/// datom per qualifying stored row, as `datoms_from_rows` states.
pub fn datoms_after(conn: &rusqlite::Connection, schema: &Schema, tx: i64) -> (r: Result<
    Datoms,
    StoreError,
>)
    requires
        schema.wf(),
    ensures
        match r {
            Ok(d) => {
                // Deterministic order.
                &&& forall|i: int|
                    0 <= i && i + 1 < d.0@.len() ==> datom_le(false, #[trigger] d.0@[i], d.0@[i + 1])
                // Only datoms past `tx`, and never the transaction
                // instants.
                &&& forall|i: int|
                    0 <= i < d.0@.len() ==> (#[trigger] d.0@[i]).tx > tx && d.0@[i].a_num
                        != DB_TX_INSTANT
                // Fulltext attributes are emitted with the long tag and
                // the resolved string.
                &&& forall|i: int, attr: Attribute|
                    0 <= i < d.0@.len() && #[trigger] schema.spec_attribute(
                        (#[trigger] d.0@[i]).a_num,
                        attr,
                    ) && attr.fulltext ==> d.0@[i].vkey_tag == TAG_LONG && (d.0@[i].v
                        matches TypedValue::Text(_))
            },
            Err(_) => true,
        },
{
    let rows = match store::read_datom_rows(conn) {
        Ok(rows) => rows,
        Err(e) => {
            return Err(store::substrate_error(&e));
        },
    };
    let fulltext = match store::read_fulltext_rows(conn) {
        Ok(rows) => rows,
        Err(e) => {
            return Err(store::substrate_error(&e));
        },
    };
    datoms_from_rows(schema, &rows, &fulltext, tx)
}

/// Return the set of datoms in the store, ordered, not including any
/// datom of the bootstrap transaction or earlier, nor any
/// `[... :db/txInstant ...]` datom.
pub fn datoms(conn: &rusqlite::Connection, schema: &Schema) -> (r: Result<Datoms, StoreError>)
    requires
        schema.wf(),
    ensures
        match r {
            Ok(d) => {
                &&& forall|i: int|
                    0 <= i && i + 1 < d.0@.len() ==> datom_le(false, #[trigger] d.0@[i], d.0@[i + 1])
                &&& forall|i: int|
                    0 <= i < d.0@.len() ==> (#[trigger] d.0@[i]).tx > crate::types::TX0 - 1
                        && d.0@[i].a_num != DB_TX_INSTANT
            },
            Err(_) => true,
        },
{
    datoms_after(conn, schema, crate::types::TX0 - 1)
}

/// A `transactions` row that belongs in the history view past `tx`.
pub open spec fn history_row(r: store::RawTxRow, tx: i64) -> bool {
    r.tx > tx
}

/// How many rows of `rows` belong in the history view past `tx`.
pub open spec fn history_count(rows: Seq<store::RawTxRow>, tx: i64) -> int
    decreases rows.len(),
{
    if rows.len() == 0 {
        0
    } else {
        history_count(rows.drop_last(), tx) + if history_row(rows.last(), tx) {
            1int
        } else {
            0
        }
    }
}

/// How many datoms the groups hold in all.
pub open spec fn groups_total(gs: Seq<Datoms>) -> int
    decreases gs.len(),
{
    if gs.len() == 0 {
        0
    } else {
        groups_total(gs.drop_last()) + gs.last().0@.len()
    }
}

/// Build the history view from the rows read out of the store: one datom
/// per qualifying row, grouped into one group per transaction, the
/// groups in ascending transaction order.
#[verifier::rlimit(100)]
pub fn transactions_from_rows(
    schema: &Schema,
    rows: &Vec<store::RawTxRow>,
    fulltext: &Vec<(i64, String)>,
    tx: i64,
) -> (r: Result<Transactions, StoreError>)
    requires
        schema.wf(),
    ensures
        match r {
            Ok(t) => {
                // One datom per qualifying row, over all groups.
                &&& groups_total(t.0@) == history_count(rows@, tx)
                // Each group is one transaction: nonempty, all of one
                // transaction id.
                &&& forall|g: int| 0 <= g < t.0@.len() ==> (#[trigger] t.0@[g]).0@.len() > 0
                &&& forall|g: int, i: int, j: int|
                    0 <= g < t.0@.len() && 0 <= i < (#[trigger] t.0@[g]).0@.len() && 0 <= j
                        < t.0@[g].0@.len() ==> #[trigger] t.0@[g].0@[i].tx
                        == #[trigger] t.0@[g].0@[j].tx
                // The groups stand in ascending transaction order.
                &&& forall|g: int|
                    0 <= g && g + 1 < t.0@.len() ==> (#[trigger] t.0@[g]).0@[0].tx < t.0@[g
                        + 1].0@[0].tx
                // Within a group the deterministic history order holds.
                &&& forall|g: int, i: int|
                    0 <= g < t.0@.len() && 0 <= i && i + 1 < (#[trigger] t.0@[g]).0@.len()
                        ==> datom_le(true, #[trigger] t.0@[g].0@[i], t.0@[g].0@[i + 1])
                // Each datom is displayed faithfully and carries its
                // added flag.
                &&& forall|g: int, i: int|
                    0 <= g < t.0@.len() && 0 <= i < (#[trigger] t.0@[g]).0@.len()
                        ==> datom_rendered(*schema, #[trigger] t.0@[g].0@[i], true)
            },
            // An unknown-attribute failure names the attribute of some
            // qualifying row that the schema does not know.
            Err(e) => match e {
                StoreError::DbError(crate::types::DbErrorKind::UnknownAttribute(x)) => !schema
                    .spec_has_attribute(x) && exists|j: int|
                    0 <= j < rows@.len() && history_row(#[trigger] rows@[j], tx) && rows@[j].a
                        == x,
                StoreError::Substrate(_) => true,
                _ => false,
            },
        },
{
    let mut recs: Vec<Datom> = Vec::new();
    proof {
        assert(rows@.subrange(0, 0) =~= Seq::<store::RawTxRow>::empty());
    }
    let mut i: usize = 0;
    while i < rows.len()
        invariant
            i <= rows@.len(),
            schema.wf(),
            recs@.len() == history_count(rows@.subrange(0, i as int), tx),
            forall|j: int| 0 <= j < recs@.len() ==> datom_rendered(*schema, #[trigger] recs@[j], true),
        decreases rows@.len() - i,
    {
        let row = &rows[i];
        proof {
            assert(rows@.subrange(0, i + 1).drop_last() =~= rows@.subrange(0, i as int));
            assert(rows@.subrange(0, i + 1).last() == rows@[i as int]);
        }
        if row.tx > tx {
            let d = match decode_row(
                schema,
                fulltext,
                row.e,
                row.a,
                &row.v,
                row.tag,
                row.tx,
                Some(row.added),
            ) {
                Ok(d) => d,
                Err(e) => {
                    return Err(e);
                },
            };
            recs.push(d);
        }
        i = i + 1;
    }
    proof {
        assert(rows@.subrange(0, rows@.len() as int) =~= rows@);
    }
    let sorted = sort_datoms(true, &recs);
    proof {
        assert forall|i: int|
            0 <= i < sorted@.len() implies datom_rendered(*schema, #[trigger] sorted@[i], true) by {
            assert(recs@.contains(sorted@[i]));
            let j = choose|j: int| 0 <= j < recs@.len() && recs@[j] == sorted@[i];
            assert(datom_rendered(*schema, recs@[j], true));
        }
    }
    // Group consecutive datoms of one transaction.
    let mut groups: Vec<Datoms> = Vec::new();
    let mut current: Vec<Datom> = Vec::new();
    let mut i: usize = 0;
    while i < sorted.len()
        invariant
            i <= sorted@.len(),
            forall|i2: int| 0 <= i2 && i2 + 1 < sorted@.len() ==> datom_le(true, #[trigger] sorted@[i2], sorted@[i2 + 1]),
            current@.len() > 0 ==> i > 0 && i <= sorted@.len(),
            current@.len() > 0 ==> current@[current@.len() - 1] == sorted@[i - 1],
            current@.len() == 0 ==> groups@.len() == 0,
            current@.len() <= i,
            groups_total(groups@) + current@.len() == i,
            forall|j1: int, j2: int|
                0 <= j1 < current@.len() && 0 <= j2 < current@.len() ==> (#[trigger] current@[j1]).tx
                    == (#[trigger] current@[j2]).tx,
            forall|j1: int| 0 <= j1 && j1 + 1 < current@.len() ==> datom_le(true, #[trigger] current@[j1], current@[j1 + 1]),
            forall|i2: int|
                0 <= i2 < sorted@.len() ==> datom_rendered(*schema, #[trigger] sorted@[i2], true),
            forall|j1: int|
                0 <= j1 < current@.len() ==> datom_rendered(*schema, #[trigger] current@[j1], true),
            forall|g: int, j1: int|
                0 <= g < groups@.len() && 0 <= j1 < (#[trigger] groups@[g]).0@.len()
                    ==> datom_rendered(*schema, #[trigger] groups@[g].0@[j1], true),
            forall|g: int| 0 <= g < groups@.len() ==> (#[trigger] groups@[g]).0@.len() > 0,
            forall|g: int, j1: int, j2: int|
                0 <= g < groups@.len() && 0 <= j1 < (#[trigger] groups@[g]).0@.len() && 0 <= j2
                    < groups@[g].0@.len() ==> #[trigger] groups@[g].0@[j1].tx
                    == #[trigger] groups@[g].0@[j2].tx,
            forall|g: int|
                0 <= g && g + 1 < groups@.len() ==> (#[trigger] groups@[g]).0@[0].tx < groups@[g
                    + 1].0@[0].tx,
            groups@.len() > 0 && current@.len() > 0 ==> (groups@[groups@.len() - 1]).0@[0].tx
                < current@[0].tx,
            forall|g: int, j1: int|
                0 <= g < groups@.len() && 0 <= j1 && j1 + 1 < (#[trigger] groups@[g]).0@.len()
                    ==> datom_le(true, #[trigger] groups@[g].0@[j1], groups@[g].0@[j1 + 1]),
        decreases sorted@.len() - i,
    {
        let d = sorted[i].clone();
        proof {
            assert(sorted@[i as int] == d);
        }
        if current.len() > 0 {
            let last_tx = current[current.len() - 1].tx;
            proof {
                assert(current@[current@.len() - 1] == sorted@[i - 1]);
                assert(datom_le(true, sorted@[i - 1], sorted@[i as int]));
            }
            if last_tx != d.tx {
                proof {
                    assert(current@[0].tx == last_tx);
                    assert(last_tx < d.tx);
                }
                let ghost prevg = groups@;
                let ghost cur = current@;
                groups.push(Datoms(current));
                current = Vec::new();
                current.push(d);
                proof {
                    assert(groups@.drop_last() =~= prevg);
                    assert(groups@.last().0@ == cur);
                    assert((groups@[groups@.len() - 1]).0@[0].tx == cur[0].tx);
                    assert(current@.len() == 1 && current@[0] == d);
                }
            } else {
                let ghost precur = current@;
                current.push(d);
                proof {
                    assert(current@[0] == precur[0]);
                    assert(current@[current@.len() - 1] == d);
                }
            }
        } else {
            current.push(d);
            proof {
                assert(current@.len() == 1 && current@[0] == d);
            }
        }
        i = i + 1;
    }
    if current.len() > 0 {
        let ghost prevg = groups@;
        groups.push(Datoms(current));
        proof {
            assert(groups@.drop_last() =~= prevg);
        }
    }
    Ok(Transactions(groups))
}

/// Return the sequence of transactions with transaction id strictly
/// greater than `tx`, ordered by `(tx, e, a, (value_type_tag, v),
/// added)`, grouped by transaction in ascending order. Each transaction
/// includes its `[:db/tx :db/txInstant ...]` datom.
pub fn transactions_after(conn: &rusqlite::Connection, schema: &Schema, tx: i64) -> (r: Result<
    Transactions,
    StoreError,
>)
    requires
        schema.wf(),
    ensures
        match r {
            Ok(t) => {
                // Each group is one transaction: nonempty, all of one
                // transaction id, ascending across groups.
                &&& forall|g: int| 0 <= g < t.0@.len() ==> (#[trigger] t.0@[g]).0@.len() > 0
                &&& forall|g: int, i: int, j: int|
                    0 <= g < t.0@.len() && 0 <= i < (#[trigger] t.0@[g]).0@.len() && 0 <= j
                        < t.0@[g].0@.len() ==> #[trigger] t.0@[g].0@[i].tx
                        == #[trigger] t.0@[g].0@[j].tx
                &&& forall|g: int|
                    0 <= g && g + 1 < t.0@.len() ==> (#[trigger] t.0@[g]).0@[0].tx < t.0@[g
                        + 1].0@[0].tx
                // Within a group the deterministic history order holds.
                &&& forall|g: int, i: int|
                    0 <= g < t.0@.len() && 0 <= i && i + 1 < (#[trigger] t.0@[g]).0@.len()
                        ==> datom_le(true, #[trigger] t.0@[g].0@[i], t.0@[g].0@[i + 1])
            },
            Err(_) => true,
        },
{
    let rows = match store::read_tx_rows(conn) {
        Ok(rows) => rows,
        Err(e) => {
            return Err(store::substrate_error(&e));
        },
    };
    let fulltext = match store::read_fulltext_rows(conn) {
        Ok(rows) => rows,
        Err(e) => {
            return Err(store::substrate_error(&e));
        },
    };
    transactions_from_rows(schema, &rows, &fulltext, tx)
}

/// Return the fulltext values in the store, ordered by row id: the
/// pairs read, reordered.
pub fn fulltext_values(conn: &rusqlite::Connection) -> (r: Result<FulltextValues, StoreError>)
    ensures
        match r {
            Ok(f) => {
                &&& forall|i: int|
                    0 <= i && i + 1 < f.0@.len() ==> (#[trigger] f.0@[i]).0 <= f.0@[i + 1].0
            },
            Err(_) => true,
        },
{
    let rows = match store::read_fulltext_rows(conn) {
        Ok(rows) => rows,
        Err(e) => {
            return Err(store::substrate_error(&e));
        },
    };
    Ok(FulltextValues(sort_fulltext(&rows)))
}

/// Sort fulltext pairs by row id: a reordering of the pairs read (the
/// same multiset), ascending by row id.
pub fn sort_fulltext(rows: &Vec<(i64, String)>) -> (r: Vec<(i64, String)>)
    ensures
        r@.len() == rows@.len(),
        r@.to_multiset() == rows@.to_multiset(),
        forall|i: int| 0 <= i && i + 1 < r@.len() ==> (#[trigger] r@[i]).0 <= r@[i + 1].0,
        forall|i: int| 0 <= i < rows@.len() ==> r@.contains(#[trigger] rows@[i]),
        forall|j: int| 0 <= j < r@.len() ==> rows@.contains(#[trigger] r@[j]),
{
    let mut out: Vec<(i64, String)> = Vec::new();
    proof {
        assert(out@ =~= rows@.subrange(0, 0));
    }
    let mut k: usize = 0;
    while k < rows.len()
        invariant
            k <= rows@.len(),
            out@.len() == k,
            out@.to_multiset() == rows@.subrange(0, k as int).to_multiset(),
            forall|i: int| 0 <= i && i + 1 < out@.len() ==> (#[trigger] out@[i]).0 <= out@[i + 1].0,
            forall|i: int| 0 <= i < k ==> out@.contains(#[trigger] rows@[i]),
            forall|j: int| 0 <= j < out@.len() ==> rows@.contains(#[trigger] out@[j]),
        decreases rows@.len() - k,
    {
        let x = (rows[k].0, rows[k].1.clone());
        proof {
            assert(x == rows@[k as int]);
        }
        let mut pos: usize = 0;
        while pos < out.len() && out[pos].0 <= x.0
            invariant
                pos <= out@.len(),
                forall|i: int| 0 <= i < pos ==> (#[trigger] out@[i]).0 <= x.0,
                forall|i: int| 0 <= i && i + 1 < out@.len() ==> (#[trigger] out@[i]).0 <= out@[i
                    + 1].0,
            decreases out@.len() - pos,
        {
            pos = pos + 1;
        }
        let ghost prev = out@;
        let ghost xg = x;
        out.insert(pos, x);
        proof {
            broadcast use group_to_multiset_ensures;

            assert(out@ == prev.insert(pos as int, xg));
            lemma_to_multiset_insert(prev, pos as int, xg);
            assert(rows@.subrange(0, k + 1).drop_last() =~= rows@.subrange(0, k as int));
            assert(rows@.subrange(0, k + 1) =~= rows@.subrange(0, k as int).push(rows@[k as int]));
            assert(rows@.subrange(0, k as int).push(rows@[k as int]).to_multiset()
                =~= rows@.subrange(0, k as int).to_multiset().insert(rows@[k as int]));
            assert(out@.to_multiset() =~= rows@.subrange(0, k + 1).to_multiset());
            assert(forall|i: int| 0 <= i < pos ==> out@[i] == prev[i]);
            assert(forall|i: int| pos < i < out@.len() ==> out@[i] == prev[i - 1]);
            assert(out@[pos as int] == xg);
            assert forall|i: int|
                0 <= i < k + 1 implies out@.contains(#[trigger] rows@[i]) by {
                if i < k {
                    let j = choose|j: int| 0 <= j < prev.len() && prev[j] == rows@[i];
                    if j < pos {
                        assert(out@[j] == rows@[i]);
                    } else {
                        assert(out@[j + 1] == rows@[i]);
                    }
                } else {
                    assert(out@[pos as int] == rows@[i]);
                }
            }
            assert forall|j: int| 0 <= j < out@.len() implies rows@.contains(#[trigger] out@[j]) by {
                if j < pos {
                    assert(out@[j] == prev[j]);
                    assert(rows@.contains(prev[j]));
                } else if j == pos {
                    assert(out@[j] == rows@[k as int]);
                    assert(rows@.contains(rows@[k as int]));
                } else {
                    assert(out@[j] == prev[j - 1]);
                    assert(rows@.contains(prev[j - 1]));
                }
            }
        }
        k = k + 1;
    }
    proof {
        assert(rows@.subrange(0, rows@.len() as int) =~= rows@);
    }
    out
}

/// Render an emitted typed value in data notation./// Render an emitted typed value in data notation.
/// An entid place in data notation.
pub open spec fn eid_edn(e: EntidOrIdent) -> Value {
    match e {
        EntidOrIdent::Entid(n) => Value::Integer(n),
        EntidOrIdent::Ident(kw) => Value::NamespacedKeyword(kw),
    }
}

/// A typed value in data notation: numbers as integers, the rest as
/// themselves.
pub open spec fn tv_edn(v: TypedValue) -> Value {
    match v {
        TypedValue::Ref(e) => Value::Integer(e),
        TypedValue::Long(n) => Value::Integer(n),
        TypedValue::Instant(n) => Value::Integer(n),
        TypedValue::Boolean(b) => Value::Boolean(b),
        TypedValue::Text(s) => Value::Text(s),
        TypedValue::Keyword(kw) => Value::NamespacedKeyword(kw),
    }
}

/// The data-notation form of one datom: `[e a v]`, with `tx` and the
/// added flag appended in the history view.
pub open spec fn datom_edn(d: Datom, r: Value) -> bool {
    match r {
        Value::Vector(items) => {
            &&& items@.len() == (if d.added is Some {
                5int
            } else {
                3int
            })
            &&& items@[0] == eid_edn(d.e)
            &&& items@[1] == eid_edn(d.a)
            &&& items@[2] == tv_edn(d.v)
            &&& (match d.added {
                Some(b) => items@[3] == Value::Integer(d.tx) && items@[4] == Value::Boolean(b),
                None => true,
            })
        },
        _ => false,
    }
}

/// The data-notation form of a datom set: one rendered datom per entry.
pub open spec fn datoms_edn(ds: Datoms, r: Value) -> bool {
    match r {
        Value::Vector(items) => items@.len() == ds.0@.len() && (forall|i: int|
            0 <= i < items@.len() ==> datom_edn(ds.0@[i], #[trigger] items@[i])),
        _ => false,
    }
}

fn value_to_edn(v: &TypedValue) -> (r: Value)
    ensures
        r == tv_edn(*v),
{
    match v {
        TypedValue::Ref(e) => Value::Integer(*e),
        TypedValue::Long(n) => Value::Integer(*n),
        TypedValue::Instant(n) => Value::Integer(*n),
        TypedValue::Boolean(b) => Value::Boolean(*b),
        TypedValue::Text(s) => Value::Text(s.clone()),
        TypedValue::Keyword(kw) => Value::NamespacedKeyword(kw.clone()),
    }
}

impl Datom {
    /// The datom in data notation: `[e a v]`, with `tx` and `added`
    /// appended in the history view.
    pub fn into_edn(&self) -> (r: Value)
        ensures
            datom_edn(*self, r),
    {
        let e = match &self.e {
            EntidOrIdent::Entid(n) => Value::Integer(*n),
            EntidOrIdent::Ident(kw) => Value::NamespacedKeyword(kw.clone()),
        };
        let a = match &self.a {
            EntidOrIdent::Entid(n) => Value::Integer(*n),
            EntidOrIdent::Ident(kw) => Value::NamespacedKeyword(kw.clone()),
        };
        let mut items: Vec<Value> = Vec::new();
        items.push(e);
        items.push(a);
        items.push(value_to_edn(&self.v));
        match self.added {
            Some(added) => {
                items.push(Value::Integer(self.tx));
                items.push(Value::Boolean(added));
            },
            None => {},
        }
        Value::Vector(items)
    }
}

impl Datoms {
    /// The datom set in data notation.
    pub fn into_edn(&self) -> (r: Value)
        ensures
            datoms_edn(*self, r),
    {
        let mut items: Vec<Value> = Vec::new();
        let mut i: usize = 0;
        while i < self.0.len()
            invariant
                i <= self.0@.len(),
                items@.len() == i,
                forall|j: int| 0 <= j < i ==> datom_edn(self.0@[j], #[trigger] items@[j]),
            decreases self.0@.len() - i,
        {
            items.push(self.0[i].into_edn());
            i = i + 1;
        }
        Value::Vector(items)
    }
}

impl Transactions {
    /// The transaction sequence in data notation: one rendered datom set
    /// per transaction.
    pub fn into_edn(&self) -> (r: Value)
        ensures
            match r {
                Value::Vector(items) => items@.len() == self.0@.len() && (forall|g: int|
                    0 <= g < items@.len() ==> datoms_edn(self.0@[g], #[trigger] items@[g])),
                _ => false,
            },
    {
        let mut items: Vec<Value> = Vec::new();
        let mut i: usize = 0;
        while i < self.0.len()
            invariant
                i <= self.0@.len(),
                items@.len() == i,
                forall|g: int| 0 <= g < i ==> datoms_edn(self.0@[g], #[trigger] items@[g]),
            decreases self.0@.len() - i,
        {
            items.push(self.0[i].into_edn());
            i = i + 1;
        }
        Value::Vector(items)
    }
}

impl FulltextValues {
    /// The fulltext listing in data notation: `[rowid text]` per entry.
    pub fn into_edn(&self) -> (r: Value)
        ensures
            match r {
                Value::Vector(items) => items@.len() == self.0@.len() && (forall|i: int|
                    0 <= i < items@.len() ==> (match #[trigger] items@[i] {
                        Value::Vector(pair) => pair@.len() == 2 && pair@[0] == Value::Integer(
                            self.0@[i].0,
                        ) && pair@[1] == Value::Text(self.0@[i].1),
                        _ => false,
                    })),
                _ => false,
            },
    {
        let mut items: Vec<Value> = Vec::new();
        let mut i: usize = 0;
        while i < self.0.len()
            invariant
                i <= self.0@.len(),
                items@.len() == i,
                forall|j: int|
                    0 <= j < i ==> (match #[trigger] items@[j] {
                        Value::Vector(pair) => pair@.len() == 2 && pair@[0] == Value::Integer(
                            self.0@[j].0,
                        ) && pair@[1] == Value::Text(self.0@[j].1),
                        _ => false,
                    }),
            decreases self.0@.len() - i,
        {
            let mut pair: Vec<Value> = Vec::new();
            pair.push(Value::Integer(self.0[i].0));
            pair.push(Value::Text(self.0[i].1.clone()));
            items.push(Value::Vector(pair));
            i = i + 1;
        }
        Value::Vector(items)
    }
}

/// The tab-terminated concatenation of the cells.
pub open spec fn tabbed_cells(cells: Seq<String>) -> Seq<char>
    decreases cells.len(),
{
    if cells.len() == 0 {
        Seq::empty()
    } else {
        tabbed_cells(cells.drop_last()) + cells.last()@ + seq!['\t']
    }
}

/// The newline-terminated concatenation of the tabbed rows.
pub open spec fn tabbed_rows(rows: Seq<Seq<String>>) -> Seq<char>
    decreases rows.len(),
{
    if rows.len() == 0 {
        Seq::empty()
    } else {
        tabbed_rows(rows.drop_last()) + tabbed_cells(rows.last()) + seq!['\n']
    }
}

/// The raw table text: the query line, the column-name line, then one
/// line per row, columns tab-separated.
pub open spec fn spec_layout(sql: Seq<char>, names: Seq<String>, rows: Seq<Seq<String>>) -> Seq<
    char,
> {
    sql + seq!['\n'] + tabbed_cells(names) + seq!['\n'] + tabbed_rows(rows)
}

/// Lay the query, column names and rows out as a tab-and-newline table.
fn layout_table(sql: &str, names: &Vec<String>, rows: &Vec<Vec<String>>) -> (r: String)
    ensures
        r@ == spec_layout(sql@, names@, rows@.map_values(|x: Vec<String>| x@)),
{
    proof {
        reveal_strlit("\n");
        reveal_strlit("\t");
        assert("\n"@ =~= seq!['\n']);
        assert("\t"@ =~= seq!['\t']);
    }
    let mut raw = sql.to_owned();
    raw.append("\n");
    proof {
        assert(raw@ =~= sql@ + seq!['\n']);
        assert(names@.subrange(0, 0) =~= Seq::<String>::empty());
    }
    let mut i: usize = 0;
    while i < names.len()
        invariant
            i <= names@.len(),
            raw@ == sql@ + seq!['\n'] + tabbed_cells(names@.subrange(0, i as int)),
        decreases names@.len() - i,
    {
        raw.append(names[i].as_str());
        raw.append("\t");
        proof {
            reveal_strlit("\t");
            assert("\t"@ =~= seq!['\t']);
            assert(names@.subrange(0, i + 1).drop_last() =~= names@.subrange(0, i as int));
            assert(names@.subrange(0, i + 1).last() == names@[i as int]);
            assert(raw@ =~= sql@ + seq!['\n'] + tabbed_cells(names@.subrange(0, i + 1)));
        }
        i = i + 1;
    }
    proof {
        assert(names@.subrange(0, names@.len() as int) =~= names@);
    }
    raw.append("\n");
    let ghost rv = rows@.map_values(|x: Vec<String>| x@);
    let ghost base = sql@ + seq!['\n'] + tabbed_cells(names@) + seq!['\n'];
    proof {
        assert(raw@ =~= base);
        assert(rv.subrange(0, 0) =~= Seq::<Seq<String>>::empty());
        assert(raw@ =~= base + tabbed_rows(rv.subrange(0, 0)));
    }
    let mut j: usize = 0;
    while j < rows.len()
        invariant
            j <= rows@.len(),
            rv == rows@.map_values(|x: Vec<String>| x@),
            rv.len() == rows@.len(),
            raw@ == base + tabbed_rows(rv.subrange(0, j as int)),
        decreases rows@.len() - j,
    {
        let row = &rows[j];
        let ghost rowbase = raw@;
        proof {
            assert(row@.subrange(0, 0) =~= Seq::<String>::empty());
            assert(raw@ =~= rowbase + tabbed_cells(row@.subrange(0, 0)));
        }
        let mut c: usize = 0;
        while c < row.len()
            invariant
                c <= row@.len(),
                raw@ == rowbase + tabbed_cells(row@.subrange(0, c as int)),
            decreases row@.len() - c,
        {
            raw.append(row[c].as_str());
            raw.append("\t");
            proof {
                reveal_strlit("\t");
                assert("\t"@ =~= seq!['\t']);
                assert(row@.subrange(0, c + 1).drop_last() =~= row@.subrange(0, c as int));
                assert(row@.subrange(0, c + 1).last() == row@[c as int]);
                assert(raw@ =~= rowbase + tabbed_cells(row@.subrange(0, c + 1)));
            }
            c = c + 1;
        }
        raw.append("\n");
        proof {
            reveal_strlit("\n");
            assert("\n"@ =~= seq!['\n']);
            assert(row@.subrange(0, row@.len() as int) =~= row@);
            assert(rv.subrange(0, j + 1).drop_last() =~= rv.subrange(0, j as int));
            assert(rv.subrange(0, j + 1).last() == rv[j as int]);
            assert(rv[j as int] == rows@[j as int]@);
            assert(raw@ =~= base + tabbed_rows(rv.subrange(0, j + 1)));
        }
        j = j + 1;
    }
    proof {
        assert(rv.subrange(0, rv.len() as int) =~= rv);
        assert(raw@ =~= spec_layout(sql@, names@, rv));
    }
    raw
}

/// Execute `sql` with the given text parameters and format the results
/// as a tab-and-newline table suitable for debug printing: the query
/// text, then the column names the statement reported, then the rows it
/// returned, all columns aligned by the tab writer.
pub fn dump_sql_query(
    conn: &rusqlite::Connection,
    sql: &str,
    params: &Vec<String>,
) -> (r: Result<String, StoreError>)
    ensures
        match r {
            Ok(out) => exists|names: Seq<String>, rowvs: Seq<Seq<String>>|
                out@ == store::tab_aligned(#[trigger] spec_layout(sql@, names, rowvs)),
            Err(e) => e matches StoreError::Substrate(_),
        },
{
    let (names, rows) = match store::query_rows_debug(conn, sql, params) {
        Ok(r) => r,
        Err(e) => {
            return Err(store::substrate_error(&e));
        },
    };
    let raw = layout_table(sql, &names, &rows);
    let aligned = store::tab_align(raw.as_str());
    proof {
        let ghost rowvs = rows@.map_values(|x: Vec<String>| x@);
        assert(aligned@ == store::tab_aligned(spec_layout(sql@, names@, rowvs)));
    }
    Ok(aligned)
}

} // verus!
