//! A declarative point-query engine over the datom rows: scalar `:find`
//! with one `:where` pattern, and direct attribute lookup.

use vstd::prelude::*;
use crate::types::{
    Entid,
    StoreError,
    Keyword,
    TypedValue,
    TAG_REF,
    TAG_BOOLEAN,
    TAG_INSTANT,
    TAG_LONG,
    TAG_TEXT,
    TAG_KEYWORD,
};
use crate::schema::{lemma_ident_unique_by_keyword, Schema};
use crate::store::{RawDatomRow, SqlVal};
use crate::edn::{self, Value};

verus! {

/// The result of a query.
#[derive(Debug, PartialEq, Eq)]
pub enum QueryResults {
    /// `[:find ?x . :where ...]`: at most one binding.
    Scalar(Option<TypedValue>),
}

/// `i` is the first slash of `s`.
pub open spec fn first_slash_at(s: Seq<char>, i: int) -> bool {
    &&& 0 <= i < s.len()
    &&& s[i] == '/'
    &&& forall|j: int| 0 <= j < i ==> s[j] != '/'
}

/// `s` splits at its first slash into the nonempty halves of `kw`.
pub open spec fn splits_to(s: Seq<char>, kw: (Seq<char>, Seq<char>)) -> bool {
    exists|i: int|
        #[trigger] first_slash_at(s, i) && 0 < i && i + 1 < s.len() && kw.0 == s.subrange(0, i)
            && kw.1 == s.subrange(i + 1, s.len() as int)
}

/// A text splits one way only.
pub proof fn lemma_splits_unique(s: Seq<char>, k1: (Seq<char>, Seq<char>), k2: (Seq<char>, Seq<char>))
    requires
        splits_to(s, k1),
        splits_to(s, k2),
    ensures
        k1 == k2,
{
    let i1 = choose|i: int|
        #[trigger] first_slash_at(s, i) && 0 < i && i + 1 < s.len() && k1.0 == s.subrange(0, i)
            && k1.1 == s.subrange(i + 1, s.len() as int);
    let i2 = choose|i: int|
        #[trigger] first_slash_at(s, i) && 0 < i && i + 1 < s.len() && k2.0 == s.subrange(0, i)
            && k2.1 == s.subrange(i + 1, s.len() as int);
    if i1 < i2 {
        assert(s[i1] == '/');
    } else if i2 < i1 {
        assert(s[i2] == '/');
    }
}

/// Split a stored `namespace/name` text back into a keyword.
pub fn keyword_of_text(s: &str) -> (r: Option<Keyword>)
    ensures
        match r {
            Some(kw) => splits_to(s@, kw@),
            None => forall|kw: (Seq<char>, Seq<char>)| !splits_to(s@, kw),
        },
{
    let chars = edn::chars_of(s);
    let mut slash: usize = chars.len();
    let mut i: usize = 0;
    while i < chars.len()
        invariant
            i <= chars@.len(),
            chars@ == s@,
            slash == chars@.len() || slash < i,
            slash == chars@.len() ==> forall|j: int| 0 <= j < i ==> s@[j] != '/',
            slash < chars@.len() ==> s@[slash as int] == '/' && (forall|j: int|
                0 <= j < slash ==> s@[j] != '/'),
        decreases chars@.len() - i,
    {
        if chars[i] == '/' && slash == chars.len() {
            slash = i;
        }
        i = i + 1;
    }
    if slash == chars.len() {
        proof {
            assert forall|kw: (Seq<char>, Seq<char>)| !splits_to(s@, kw) by {
                if splits_to(s@, kw) {
                    let p = choose|p: int|
                        #[trigger] first_slash_at(s@, p) && 0 < p && p + 1 < s@.len() && kw.0
                            == s@.subrange(0, p) && kw.1 == s@.subrange(p + 1, s@.len() as int);
                    assert(s@[p] == '/');
                }
            }
        }
        return None;
    }
    if slash == 0 || slash + 1 >= chars.len() {
        proof {
            assert forall|kw: (Seq<char>, Seq<char>)| !splits_to(s@, kw) by {
                if splits_to(s@, kw) {
                    let p = choose|p: int|
                        #[trigger] first_slash_at(s@, p) && 0 < p && p + 1 < s@.len() && kw.0
                            == s@.subrange(0, p) && kw.1 == s@.subrange(p + 1, s@.len() as int);
                    if p != slash {
                        if p < slash {
                            assert(s@[p] == '/');
                        } else {
                            assert(s@[slash as int] == '/');
                        }
                    }
                }
            }
        }
        return None;
    }
    let mut ns: Vec<char> = Vec::new();
    let mut j: usize = 0;
    while j < slash
        invariant
            j <= slash,
            slash < chars@.len(),
            chars@ == s@,
            ns@ == s@.subrange(0, j as int),
        decreases slash - j,
    {
        ns.push(chars[j]);
        proof {
            assert(ns@ =~= s@.subrange(0, j + 1));
        }
        j = j + 1;
    }
    let mut nm: Vec<char> = Vec::new();
    let mut k: usize = slash + 1;
    while k < chars.len()
        invariant
            slash < k <= chars@.len(),
            chars@ == s@,
            nm@ == s@.subrange(slash + 1, k as int),
        decreases chars@.len() - k,
    {
        nm.push(chars[k]);
        proof {
            assert(nm@ =~= s@.subrange(slash + 1, k + 1));
        }
        k = k + 1;
    }
    let kw = Keyword { namespace: edn::string_from_chars(&ns), name: edn::string_from_chars(&nm) };
    proof {
        assert(first_slash_at(s@, slash as int));
    }
    Some(kw)
}

/// What a stored `(value, tag)` pair decodes to: the typed value of the
/// tag's type, `None` where the pair is not of that shape. A keyword is
/// stored as its `namespace/name` text.
pub open spec fn decodes_to(v: SqlVal, tag: i64, r: Option<TypedValue>) -> bool {
    if tag == TAG_REF {
        r == (match v {
            SqlVal::Int(n) => Some(TypedValue::Ref(n)),
            SqlVal::Str(_) => None::<TypedValue>,
        })
    } else if tag == TAG_LONG {
        r == (match v {
            SqlVal::Int(n) => Some(TypedValue::Long(n)),
            SqlVal::Str(_) => None::<TypedValue>,
        })
    } else if tag == TAG_INSTANT {
        r == (match v {
            SqlVal::Int(n) => Some(TypedValue::Instant(n)),
            SqlVal::Str(_) => None::<TypedValue>,
        })
    } else if tag == TAG_BOOLEAN {
        r == (match v {
            SqlVal::Int(n) => Some(TypedValue::Boolean(n != 0)),
            SqlVal::Str(_) => None::<TypedValue>,
        })
    } else if tag == TAG_TEXT {
        r == (match v {
            SqlVal::Str(s) => Some(TypedValue::Text(s)),
            SqlVal::Int(_) => None::<TypedValue>,
        })
    } else if tag == TAG_KEYWORD {
        match v {
            SqlVal::Str(st) => match r {
                Some(tv) => tv matches TypedValue::Keyword(kw) && splits_to(st@, kw@),
                None => forall|kw: (Seq<char>, Seq<char>)| !splits_to(st@, kw),
            },
            SqlVal::Int(_) => r is None,
        }
    } else {
        r is None
    }
}

/// Decode a stored `(value, tag)` pair into its typed value. A fulltext
/// surrogate must be resolved before decoding.
pub fn decode_value(v: &SqlVal, tag: i64) -> (r: Option<TypedValue>)
    ensures
        decodes_to(*v, tag, r),
{
    match v {
        SqlVal::Int(n) => {
            if tag == TAG_REF {
                Some(TypedValue::Ref(*n))
            } else if tag == TAG_BOOLEAN {
                Some(TypedValue::Boolean(*n != 0))
            } else if tag == TAG_INSTANT {
                Some(TypedValue::Instant(*n))
            } else if tag == TAG_LONG {
                Some(TypedValue::Long(*n))
            } else {
                None
            }
        },
        SqlVal::Str(s) => {
            if tag == TAG_TEXT {
                Some(TypedValue::Text(s.clone()))
            } else if tag == TAG_KEYWORD {
                match keyword_of_text(s.as_str()) {
                    Some(kw) => Some(TypedValue::Keyword(kw)),
                    None => None,
                }
            } else {
                None
            }
        },
    }
}

/// One place of a `:where` pattern.
pub enum Place {
    Variable,
    Constant(Value),
}

/// A parsed scalar query: `[:find ?var . :where [p1 p2 p3]]`.
pub struct ScalarQuery {
    pub e: Place,
    pub a: Place,
    pub v: Place,
    /// Which position the find variable binds: 0 = e, 1 = a, 2 = v.
    pub find_pos: usize,
}

/// Whether a pattern place admits an entid in entity or attribute
/// position: a variable admits anything, an integer itself, a keyword
/// the entity it aliases.
pub open spec fn spec_e_match(schema: Schema, place: Place, e: Entid) -> bool {
    match place {
        Place::Variable => true,
        Place::Constant(Value::Integer(n)) => n == e,
        Place::Constant(Value::NamespacedKeyword(kw)) => schema.spec_ident(e, kw@),
        Place::Constant(_) => false,
    }
}

/// Whether a pattern place admits a stored value.
pub open spec fn spec_v_match(place: Place, v: SqlVal, tag: i64) -> bool {
    match place {
        Place::Variable => true,
        Place::Constant(Value::Integer(n)) => (match v {
            SqlVal::Int(m) => n == m,
            SqlVal::Str(_) => false,
        }),
        Place::Constant(Value::Text(s)) => (match v {
            SqlVal::Str(t) => tag == TAG_TEXT && s@ == t@,
            SqlVal::Int(_) => false,
        }),
        Place::Constant(Value::NamespacedKeyword(kw)) => (match v {
            SqlVal::Str(t) => tag == TAG_KEYWORD && splits_to(t@, kw@),
            SqlVal::Int(_) => false,
        }),
        Place::Constant(Value::Boolean(b)) => (match v {
            SqlVal::Int(m) => tag == TAG_BOOLEAN && ((m != 0) == b),
            SqlVal::Str(_) => false,
        }),
        Place::Constant(_) => false,
    }
}

/// Whether a row satisfies the query's pattern.
pub open spec fn spec_row_match(schema: Schema, q: ScalarQuery, row: RawDatomRow) -> bool {
    &&& spec_e_match(schema, q.e, row.e)
    &&& spec_e_match(schema, q.a, row.a)
    &&& spec_v_match(q.v, row.v, row.tag)
}

/// What the find variable binds to on a matching row.
pub open spec fn binds_to(q: ScalarQuery, row: RawDatomRow, r: Option<TypedValue>) -> bool {
    if q.find_pos == 0 {
        r == Some(TypedValue::Ref(row.e))
    } else if q.find_pos == 1 {
        r == Some(TypedValue::Ref(row.a))
    } else {
        decodes_to(row.v, row.tag, r)
    }
}

/// Parse the query text; only the scalar single-pattern form is known.
fn parse_query(query: &str) -> (r: Result<ScalarQuery, StoreError>)
    ensures
        match r {
            Ok(q) => q.find_pos <= 2,
            Err(e) => e matches StoreError::EdnParseError(_) || e
                matches StoreError::TxParseError(_),
        },
{
    let top = match edn::parse(query) {
        Ok(v) => v,
        Err(e) => {
            return Err(e);
        },
    };
    let items = match &top {
        Value::Vector(items) => items,
        _ => {
            return Err(StoreError::TxParseError(0));
        },
    };
    if items.len() != 5 {
        return Err(StoreError::TxParseError(0));
    }
    let find_ok = match &items[0] {
        Value::PlainKeyword(k) => *k == String::from_str("find"),
        _ => false,
    };
    let var = match &items[1] {
        Value::PlainSymbol(s) => s.clone(),
        _ => {
            return Err(StoreError::TxParseError(0));
        },
    };
    let dot_ok = match &items[2] {
        Value::PlainSymbol(s) => *s == String::from_str("."),
        _ => false,
    };
    let where_ok = match &items[3] {
        Value::PlainKeyword(k) => *k == String::from_str("where"),
        _ => false,
    };
    if !find_ok || !dot_ok || !where_ok {
        return Err(StoreError::TxParseError(0));
    }
    let pattern = match &items[4] {
        Value::Vector(p) => p,
        _ => {
            return Err(StoreError::TxParseError(0));
        },
    };
    if pattern.len() != 3 {
        return Err(StoreError::TxParseError(0));
    }
    let mut places: Vec<Place> = Vec::new();
    let mut find_pos: usize = 3;
    let mut i: usize = 0;
    while i < 3
        invariant
            i <= 3,
            pattern@.len() == 3,
            places@.len() == i,
            find_pos <= 3,
        decreases 3 - i,
    {
        match &pattern[i] {
            Value::PlainSymbol(s) => {
                if *s == var {
                    find_pos = i;
                }
                places.push(Place::Variable);
            },
            Value::Integer(n) => {
                places.push(Place::Constant(Value::Integer(*n)));
            },
            Value::NamespacedKeyword(kw) => {
                places.push(Place::Constant(Value::NamespacedKeyword(kw.clone())));
            },
            Value::Text(s) => {
                places.push(Place::Constant(Value::Text(s.clone())));
            },
            Value::Boolean(b) => {
                places.push(Place::Constant(Value::Boolean(*b)));
            },
            _ => {
                return Err(StoreError::TxParseError(0));
            },
        }
        i = i + 1;
    }
    if find_pos == 3 {
        return Err(StoreError::TxParseError(0));
    }
    let vv = places.pop().unwrap();
    let aa = places.pop().unwrap();
    let ee = places.pop().unwrap();
    Ok(ScalarQuery { e: ee, a: aa, v: vv, find_pos })
}

/// Whether a constant place matches an entity-position entid.
fn entid_place_matches(schema: &Schema, place: &Place, e: Entid) -> (r: bool)
    requires
        schema.wf(),
    ensures
        r == spec_e_match(*schema, *place, e),
{
    match place {
        Place::Variable => true,
        Place::Constant(Value::Integer(n)) => *n == e,
        Place::Constant(Value::NamespacedKeyword(kw)) => {
            match schema.get_entid(kw) {
                Some(found) => {
                    proof {
                        if found != e && schema.spec_ident(e, kw@) {
                            lemma_ident_unique_by_keyword(*schema, e, found, kw@);
                        }
                    }
                    found == e
                },
                None => false,
            }
        },
        Place::Constant(_) => false,
    }
}

/// Whether a constant place matches a stored value.
fn value_place_matches(place: &Place, v: &SqlVal, tag: i64) -> (r: bool)
    ensures
        r == spec_v_match(*place, *v, tag),
{
    match place {
        Place::Variable => true,
        Place::Constant(Value::Integer(n)) => {
            match v {
                SqlVal::Int(m) => *n == *m,
                _ => false,
            }
        },
        Place::Constant(Value::Text(s)) => {
            match v {
                SqlVal::Str(t) => tag == TAG_TEXT && *s == *t,
                _ => false,
            }
        },
        Place::Constant(Value::NamespacedKeyword(kw)) => {
            match v {
                SqlVal::Str(t) => {
                    if tag != TAG_KEYWORD {
                        false
                    } else {
                        match keyword_of_text(t.as_str()) {
                            Some(parsed) => {
                                let hit = parsed.eqv(kw);
                                proof {
                                    if !hit && splits_to(t@, kw@) {
                                        lemma_splits_unique(t@, kw@, parsed@);
                                    }
                                }
                                hit
                            },
                            None => false,
                        }
                    }
                },
                _ => false,
            }
        },
        Place::Constant(Value::Boolean(b)) => {
            match v {
                SqlVal::Int(m) => tag == TAG_BOOLEAN && ((*m != 0) == *b),
                _ => false,
            }
        },
        Place::Constant(_) => false,
    }
}

/// Evaluate a parsed query over the rows read from the store: the first
/// matching row binds the find variable; no match binds nothing.
pub fn evaluate(schema: &Schema, q: &ScalarQuery, rows: &Vec<RawDatomRow>) -> (r: QueryResults)
    requires
        schema.wf(),
    ensures
        match r {
            QueryResults::Scalar(res) => (res is None && (forall|i: int|
                0 <= i < rows@.len() ==> !spec_row_match(*schema, *q, #[trigger] rows@[i])))
                || (exists|i: int|
                0 <= i < rows@.len() && #[trigger] spec_row_match(*schema, *q, rows@[i]) && (forall|
                    j: int,
                | 0 <= j < i ==> !spec_row_match(*schema, *q, #[trigger] rows@[j])) && binds_to(
                    *q,
                    rows@[i],
                    res,
                )),
        },
{
    let mut i: usize = 0;
    while i < rows.len()
        invariant
            i <= rows@.len(),
            schema.wf(),
            forall|j: int| 0 <= j < i ==> !spec_row_match(*schema, *q, #[trigger] rows@[j]),
        decreases rows@.len() - i,
    {
        let row = &rows[i];
        let e_ok = entid_place_matches(schema, &q.e, row.e);
        let a_ok = entid_place_matches(schema, &q.a, row.a);
        let v_ok = value_place_matches(&q.v, &row.v, row.tag);
        if e_ok && a_ok && v_ok {
            proof {
                assert(spec_row_match(*schema, *q, rows@[i as int]));
            }
            if q.find_pos == 0 {
                return QueryResults::Scalar(Some(TypedValue::Ref(row.e)));
            }
            if q.find_pos == 1 {
                return QueryResults::Scalar(Some(TypedValue::Ref(row.a)));
            }
            return QueryResults::Scalar(decode_value(&row.v, row.tag));
        }
        i = i + 1;
    }
    QueryResults::Scalar(None)
}

/// Run a scalar query over datom rows with the given schema.
///
/// A malformed query text fails with a parse error before any row is
/// looked at; the result on success is what `evaluate` states for the
/// parsed query.
pub fn q_once_rows(schema: &Schema, query: &str, rows: &Vec<RawDatomRow>) -> (r: Result<
    QueryResults,
    StoreError,
>)
    requires
        schema.wf(),
    ensures
        r matches Err(e) ==> (e matches StoreError::EdnParseError(_) || e
            matches StoreError::TxParseError(_)),
{
    let q = match parse_query(query) {
        Ok(q) => q,
        Err(e) => {
            return Err(e);
        },
    };
    Ok(evaluate(schema, &q, rows))
}

/// The stored row id resolves through the fulltext rows: the text of the
/// first row carrying it, or nothing where none does.
pub open spec fn resolves_surrogate(
    fulltext: Seq<(i64, String)>,
    v: SqlVal,
    r: Option<TypedValue>,
) -> bool {
    match v {
        SqlVal::Int(rowid) => match r {
            Some(tv) => exists|k: int|
                0 <= k < fulltext.len() && (#[trigger] fulltext[k]).0 == rowid && tv
                    == TypedValue::Text(fulltext[k].1) && (forall|l: int|
                    0 <= l < k ==> (#[trigger] fulltext[l]).0 != rowid),
            None => forall|k: int| 0 <= k < fulltext.len() ==> (#[trigger] fulltext[k]).0 != rowid,
        },
        SqlVal::Str(_) => r is None,
    }
}

/// What a point lookup of `(e, a)` yields over given rows: the first row
/// asserting that attribute of that entity, decoded — through the
/// fulltext rows where the attribute is fulltext-indexed — or nothing
/// where no row matches or the stored value cannot be decoded.
pub open spec fn looked_up(
    rows: Seq<RawDatomRow>,
    fulltext: Seq<(i64, String)>,
    e: Entid,
    a: Entid,
    is_fulltext: bool,
    r: Option<TypedValue>,
) -> bool {
    ||| (r is None && forall|i: int|
        0 <= i < rows.len() ==> !((#[trigger] rows[i]).e == e && rows[i].a == a))
    ||| exists|i: int|
        0 <= i < rows.len() && (#[trigger] rows[i]).e == e && rows[i].a == a && (forall|j: int|
            0 <= j < i ==> !((#[trigger] rows[j]).e == e && rows[j].a == a)) && (if is_fulltext {
            resolves_surrogate(fulltext, rows[i].v, r)
        } else {
            decodes_to(rows[i].v, rows[i].tag, r)
        })
}

/// The first row asserting attribute `a` of entity `e`, decoded; a
/// fulltext surrogate is resolved through the fulltext rows.
pub fn lookup_rows(
    schema: &Schema,
    rows: &Vec<RawDatomRow>,
    fulltext: &Vec<(i64, String)>,
    e: Entid,
    a: Entid,
    is_fulltext: bool,
) -> (r: Option<TypedValue>)
    ensures
        looked_up(rows@, fulltext@, e, a, is_fulltext, r),
{
    let mut i: usize = 0;
    while i < rows.len()
        invariant
            i <= rows@.len(),
            forall|j: int| 0 <= j < i ==> !((#[trigger] rows@[j]).e == e && rows@[j].a == a),
        decreases rows@.len() - i,
    {
        let row = &rows[i];
        if row.e == e && row.a == a {
            if is_fulltext {
                match &row.v {
                    SqlVal::Int(rowid) => {
                        let mut j: usize = 0;
                        while j < fulltext.len()
                            invariant
                                is_fulltext,
                                j <= fulltext@.len(),
                                i < rows@.len(),
                                rows@[i as int].e == e,
                                rows@[i as int].a == a,
                                rows@[i as int].v == SqlVal::Int(*rowid),
                                forall|jj: int|
                                    0 <= jj < i ==> !((#[trigger] rows@[jj]).e == e && rows@[jj].a
                                        == a),
                                forall|l: int|
                                    0 <= l < j ==> (#[trigger] fulltext@[l]).0 != *rowid,
                            decreases fulltext@.len() - j,
                        {
                            if fulltext[j].0 == *rowid {
                                proof {
                                    assert((fulltext@[j as int]).0 == *rowid);
                                    assert(resolves_surrogate(
                                        fulltext@,
                                        rows@[i as int].v,
                                        Some(TypedValue::Text(fulltext@[j as int].1)),
                                    ));
                                    assert((rows@[i as int]).e == e && rows@[i as int].a == a);
                                    assert(looked_up(
                                        rows@,
                                        fulltext@,
                                        e,
                                        a,
                                        is_fulltext,
                                        Some(TypedValue::Text(fulltext@[j as int].1)),
                                    ));
                                }
                                return Some(TypedValue::Text(fulltext[j].1.clone()));
                            }
                            j = j + 1;
                        }
                        return None;
                    },
                    _ => {
                        return None;
                    },
                }
            }
            return decode_value(&row.v, row.tag);
        }
        i = i + 1;
    }
    None
}

} // verus!
