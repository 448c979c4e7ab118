//! Transaction entity forms: what a parsed transaction text denotes.

use vstd::prelude::*;
use crate::types::{Entid, StoreError, Keyword};
use crate::edn::Value;

verus! {

/// An entity named either by number or by ident.
#[derive(Debug, PartialEq, Eq)]
pub enum EntidOrIdent {
    Entid(Entid),
    Ident(Keyword),
}

impl Clone for EntidOrIdent {
    fn clone(&self) -> (r: Self)
        ensures
            r == *self,
    {
        match self {
            EntidOrIdent::Entid(e) => EntidOrIdent::Entid(*e),
            EntidOrIdent::Ident(k) => EntidOrIdent::Ident(k.clone()),
        }
    }
}

/// The entity position of an assertion: an existing entity or a tempid.
#[derive(Debug, PartialEq, Eq)]
pub enum EntityPlace {
    Existing(EntidOrIdent),
    TempId(String),
}

/// The value position of an assertion, uninterpreted until the
/// attribute's value type is known.
#[derive(Debug, PartialEq, Eq)]
pub enum ValueLiteral {
    Integer(i64),
    Boolean(bool),
    Text(String),
    Keyword(Keyword),
}

impl Clone for EntityPlace {
    fn clone(&self) -> (r: Self)
        ensures
            r == *self,
    {
        match self {
            EntityPlace::Existing(x) => EntityPlace::Existing(x.clone()),
            EntityPlace::TempId(t) => EntityPlace::TempId(t.clone()),
        }
    }
}

impl Clone for ValueLiteral {
    fn clone(&self) -> (r: Self)
        ensures
            r == *self,
    {
        match self {
            ValueLiteral::Integer(n) => ValueLiteral::Integer(*n),
            ValueLiteral::Boolean(b) => ValueLiteral::Boolean(*b),
            ValueLiteral::Text(s) => ValueLiteral::Text(s.clone()),
            ValueLiteral::Keyword(k) => ValueLiteral::Keyword(k.clone()),
        }
    }
}

/// Whether the form asserts or retracts.
#[derive(Clone, Copy, Debug, PartialEq, Eq, Structural)]
pub enum OpType {
    Add,
    Retract,
}

/// One entity form of a transaction.
#[derive(Debug, PartialEq, Eq)]
pub enum Entity {
    /// `[:db/add e a v]` or `[:db/retract e a v]`.
    AddOrRetract { op: OpType, e: EntityPlace, a: EntidOrIdent, v: ValueLiteral },
    /// `{a v, ...}`: one fresh or upserted entity carrying each pair.
    MapForm { pairs: Vec<(EntidOrIdent, ValueLiteral)> },
}

/// A value that may stand in attribute position.
pub open spec fn attribute_place_wf(v: Value) -> bool {
    v matches Value::Integer(_) || v matches Value::NamespacedKeyword(_)
}

/// A value that may stand in value position.
pub open spec fn value_place_wf(v: Value) -> bool {
    ||| v matches Value::Integer(_)
    ||| v matches Value::Boolean(_)
    ||| v matches Value::Text(_)
    ||| v matches Value::NamespacedKeyword(_)
}

/// A value that may stand in entity position.
pub open spec fn entity_place_wf(v: Value) -> bool {
    ||| v matches Value::Integer(_)
    ||| v matches Value::NamespacedKeyword(_)
    ||| v matches Value::Text(_)
}

/// A well-formed entity form: a four-place `[op e a v]` vector whose op
/// is `:db/add` or `:db/retract`, or a map of attribute-value pairs.
pub open spec fn entity_form_wf(v: Value) -> bool {
    match v {
        Value::Vector(form) => {
            &&& form@.len() == 4
            &&& (match form@[0] {
                Value::NamespacedKeyword(kw) => kw@.0 == "db"@ && (kw@.1 == "add"@ || kw@.1
                    == "retract"@),
                _ => false,
            })
            &&& entity_place_wf(form@[1])
            &&& attribute_place_wf(form@[2])
            &&& value_place_wf(form@[3])
        },
        Value::MapForm(pairs) => forall|j: int|
            0 <= j < pairs@.len() ==> attribute_place_wf((#[trigger] pairs@[j]).0)
                && value_place_wf(pairs@[j].1),
        _ => false,
    }
}

/// Every entity form of the sequence is well formed.
pub open spec fn tx_items_wf(items: Seq<Value>) -> bool {
    forall|i: int| 0 <= i < items.len() ==> entity_form_wf(#[trigger] items[i])
}

/// A well-formed transaction: a vector of well-formed entity forms.
pub open spec fn tx_form_wf(top: Value) -> bool {
    top matches Value::Vector(items) && tx_items_wf(items@)
}

/// Interpret an attribute position: a namespaced keyword or an entid.
fn parse_attribute(v: &Value) -> (r: Option<EntidOrIdent>)
    ensures
        r is Some <==> attribute_place_wf(*v),
{
    match v {
        Value::Integer(n) => Some(EntidOrIdent::Entid(*n)),
        Value::NamespacedKeyword(kw) => Some(EntidOrIdent::Ident(kw.clone())),
        _ => None,
    }
}

/// Interpret a value position.
fn parse_value_literal(v: &Value) -> (r: Option<ValueLiteral>)
    ensures
        r is Some <==> value_place_wf(*v),
{
    match v {
        Value::Integer(n) => Some(ValueLiteral::Integer(*n)),
        Value::Boolean(b) => Some(ValueLiteral::Boolean(*b)),
        Value::Text(s) => Some(ValueLiteral::Text(s.clone())),
        Value::NamespacedKeyword(kw) => Some(ValueLiteral::Keyword(kw.clone())),
        _ => None,
    }
}

/// Parse a transaction: a vector of `[op e a v]` vectors and `{a v}` maps.
///
/// Exactly the well-formed transactions parse; anything else fails with
/// `TxParseError`, carrying the index of the offending form.
pub fn parse_entities(top: &Value) -> (r: Result<Vec<Entity>, StoreError>)
    ensures
        r is Ok <==> tx_form_wf(*top),
        match r {
            Ok(entities) => (top matches Value::Vector(items) && entities@.len() == items@.len()),
            Err(e) => e matches StoreError::TxParseError(_),
        },
{
    let items = match top {
        Value::Vector(items) => items,
        _ => {
            return Err(StoreError::TxParseError(0));
        },
    };
    let mut out: Vec<Entity> = Vec::new();
    let mut i: usize = 0;
    while i < items.len()
        invariant
            i <= items@.len(),
            out@.len() == i,
            *top == Value::Vector(*items),
            forall|k: int| 0 <= k < i ==> entity_form_wf(#[trigger] items@[k]),
        decreases items@.len() - i,
    {
        match &items[i] {
            Value::Vector(form) => {
                if form.len() != 4 {
                    proof {
                        bad_form(*top, *items, i as int);
                    }
                    return Err(StoreError::TxParseError(i));
                }
                let op = match &form[0] {
                    Value::NamespacedKeyword(kw) => {
                        let is_db = kw.namespace == String::from_str("db");
                        if is_db && kw.name == String::from_str("add") {
                            OpType::Add
                        } else if is_db && kw.name == String::from_str("retract") {
                            OpType::Retract
                        } else {
                            proof {
                                bad_form(*top, *items, i as int);
                            }
                            return Err(StoreError::TxParseError(i));
                        }
                    },
                    _ => {
                        proof {
                            bad_form(*top, *items, i as int);
                        }
                        return Err(StoreError::TxParseError(i));
                    },
                };
                let e = match &form[1] {
                    Value::Integer(n) => EntityPlace::Existing(EntidOrIdent::Entid(*n)),
                    Value::NamespacedKeyword(kw) => EntityPlace::Existing(
                        EntidOrIdent::Ident(kw.clone()),
                    ),
                    Value::Text(t) => EntityPlace::TempId(t.clone()),
                    _ => {
                        proof {
                            bad_form(*top, *items, i as int);
                        }
                        return Err(StoreError::TxParseError(i));
                    },
                };
                let a = match parse_attribute(&form[2]) {
                    Some(a) => a,
                    None => {
                        proof {
                            bad_form(*top, *items, i as int);
                        }
                        return Err(StoreError::TxParseError(i));
                    },
                };
                let v = match parse_value_literal(&form[3]) {
                    Some(v) => v,
                    None => {
                        proof {
                            bad_form(*top, *items, i as int);
                        }
                        return Err(StoreError::TxParseError(i));
                    },
                };
                proof {
                    assert(entity_form_wf(items@[i as int]));
                }
                out.push(Entity::AddOrRetract { op, e, a, v });
            },
            Value::MapForm(entries) => {
                let mut pairs: Vec<(EntidOrIdent, ValueLiteral)> = Vec::new();
                let mut j: usize = 0;
                while j < entries.len()
                    invariant
                        j <= entries@.len(),
                        i < items@.len(),
                        *top == Value::Vector(*items),
                        items@[i as int] == Value::MapForm(*entries),
                        forall|l: int|
                            0 <= l < j ==> attribute_place_wf((#[trigger] entries@[l]).0)
                                && value_place_wf(entries@[l].1),
                    decreases entries@.len() - j,
                {
                    let a = match parse_attribute(&entries[j].0) {
                        Some(a) => a,
                        None => {
                            proof {
                                bad_pair(*top, *items, i as int, *entries, j as int);
                            }
                            return Err(StoreError::TxParseError(i));
                        },
                    };
                    let v = match parse_value_literal(&entries[j].1) {
                        Some(v) => v,
                        None => {
                            proof {
                                bad_pair(*top, *items, i as int, *entries, j as int);
                            }
                            return Err(StoreError::TxParseError(i));
                        },
                    };
                    pairs.push((a, v));
                    j = j + 1;
                }
                proof {
                    assert(entity_form_wf(items@[i as int]));
                }
                out.push(Entity::MapForm { pairs });
            },
            _ => {
                proof {
                    bad_form(*top, *items, i as int);
                }
                return Err(StoreError::TxParseError(i));
            },
        }
        i = i + 1;
    }
    proof {
        assert(tx_form_wf(*top));
    }
    Ok(out)
}

/// A transaction with one ill-formed entity form is ill-formed.
proof fn bad_form(top: Value, items: Vec<Value>, i: int)
    requires
        top == Value::Vector(items),
        0 <= i < items@.len(),
        !entity_form_wf(items@[i]),
    ensures
        !tx_form_wf(top),
{
    if tx_items_wf(items@) {
        assert(entity_form_wf(items@[i]));
    }
    if tx_form_wf(top) {
        assert(tx_form_wf(Value::Vector(items)));
        assert(tx_items_wf(items@));
    }
}

/// A map form with one ill-formed pair is ill-formed, and so is its
/// transaction.
proof fn bad_pair(top: Value, items: Vec<Value>, i: int, entries: Vec<(Value, Value)>, j: int)
    requires
        top == Value::Vector(items),
        0 <= i < items@.len(),
        items@[i] == Value::MapForm(entries),
        0 <= j < entries@.len(),
        !(attribute_place_wf(entries@[j].0) && value_place_wf(entries@[j].1)),
    ensures
        !tx_form_wf(top),
{
    if entity_form_wf(items@[i]) {
        assert(entity_form_wf(Value::MapForm(entries)));
        assert(attribute_place_wf(entries@[j].0) && value_place_wf(entries@[j].1));
    }
    bad_form(top, items, i);
}

} // verus!
