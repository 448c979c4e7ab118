//! The transactor: resolves tempids and upserts, gates user-supplied
//! entity ids, allocates fresh ids from the partition map, and produces
//! the datom operations, the next partition map and the next schema.

use vstd::prelude::*;
use crate::types::{
    Entid,
    StoreError,
    DbErrorKind,
    TypedValue,
    ValueType,
    DB_IDENT,
    DB_TX_INSTANT,
};
use crate::partition::PartitionMap;
use crate::schema::{Attribute, Schema};
use crate::entities::{Entity, EntityPlace, EntidOrIdent, OpType, ValueLiteral};
use crate::order::{insert_sorted, lemma_lex_irrefl, lemma_lex_trans, lex_lt, strictly_sorted, tempids_get};

verus! {

/// The outcome of one committed transaction: its transaction id and the
/// mapping from input tempid strings to resolved entids.
#[derive(Debug, PartialEq, Eq)]
pub struct TxReport {
    pub tx_id: Entid,
    pub tempids: Vec<(String, Entid)>,
}

/// Distinct tempid strings resolve to distinct entids, and each string
/// appears once.
pub open spec fn tempids_injective(t: Seq<(String, Entid)>) -> bool {
    forall|i: int, j: int|
        0 <= i < j < t.len() ==> (#[trigger] t[i]).0@ != (#[trigger] t[j]).0@ && t[i].1 != t[j].1
}

impl TxReport {
    /// The entid a tempid string resolved to, if it appeared.
    pub fn tempid(&self, name: &str) -> (r: Option<Entid>)
        ensures
            match r {
                Some(e) => exists|i: int|
                    0 <= i < self.tempids@.len() && (#[trigger] self.tempids@[i]).0@ == name@
                        && self.tempids@[i].1 == e,
                None => forall|i: int|
                    0 <= i < self.tempids@.len() ==> (#[trigger] self.tempids@[i]).0@ != name@,
            },
    {
        let owned = name.to_owned();
        tempids_get(&self.tempids, &owned)
    }
}

/// One row-level operation the transaction performs.
#[derive(Debug, PartialEq, Eq)]
pub struct Dop {
    pub e: Entid,
    pub a: Entid,
    pub v: TypedValue,
    pub added: bool,
    /// The attribute is fulltext-indexed and `v` is its text: the store
    /// keeps the text in the fulltext table and the row holds its row id.
    pub fulltext: bool,
}

/// What a successful transaction hands back for installation.
#[derive(Debug)]
pub struct TxOutcome {
    pub report: TxReport,
    pub partition_map: PartitionMap,
    pub schema: Schema,
    pub schema_changed: bool,
    pub ops: Vec<Dop>,
}

/// An entity position after map-form resolution.
enum Place {
    Known(Entid),
    Temp(String),
}

impl Clone for Place {
    fn clone(&self) -> (r: Self)
        ensures
            r == *self,
    {
        match self {
            Place::Known(e) => Place::Known(*e),
            Place::Temp(t) => Place::Temp(t.clone()),
        }
    }
}

/// A flattened assertion whose attribute is resolved.
struct Triple {
    op: OpType,
    e: Place,
    a: Entid,
    attr: Attribute,
    v: ValueLiteral,
}

/// The e-position gate: a numeric entity id named by the caller must lie
/// in the allocated region of some partition.
pub open spec fn entity_e_gated(ent: Entity, pm: PartitionMap) -> bool {
    match ent {
        Entity::AddOrRetract { op, e, a, v } => match e {
            EntityPlace::Existing(EntidOrIdent::Entid(n)) => pm.spec_allocated(n),
            _ => true,
        },
        Entity::MapForm { pairs } => true,
    }
}

/// The entity position of the form names `n` numerically.
pub open spec fn entity_names(ent: Entity, n: Entid) -> bool {
    match ent {
        Entity::AddOrRetract { op, e, a, v } => match e {
            EntityPlace::Existing(EntidOrIdent::Entid(m)) => m == n,
            _ => false,
        },
        _ => false,
    }
}

/// Some entity form names `n` in entity position while `n` lies outside
/// every allocated region.
pub open spec fn names_ungated(entities: Seq<Entity>, pm: PartitionMap, n: Entid) -> bool {
    &&& exists|k: int| 0 <= k < entities.len() && entity_names(#[trigger] entities[k], n)
    &&& !pm.spec_allocated(n)
}

/// The attribute position resolves to `a_id`, a registered attribute.
pub open spec fn attr_resolves_to(schema: Schema, a: EntidOrIdent, a_id: Entid) -> bool {
    &&& match a {
        EntidOrIdent::Entid(n) => a_id == n,
        EntidOrIdent::Ident(kw) => schema.spec_ident(a_id, kw@),
    }
    &&& schema.spec_has_attribute(a_id)
}

/// `name` resolves to `e` in the tempid map.
pub open spec fn tempid_maps(t: Seq<(String, Entid)>, name: Seq<char>, e: Entid) -> bool {
    exists|i: int| 0 <= i < t.len() && (#[trigger] t[i]).0@ == name && t[i].1 == e
}

/// The value place resolves against the attribute's registered type:
/// integers by the type, strings on a ref attribute through the tempid
/// map, keywords on a ref attribute through the schema's idents.
pub open spec fn value_resolves(
    schema: Schema,
    t: Seq<(String, Entid)>,
    a_id: Entid,
    v: ValueLiteral,
    out_v: TypedValue,
) -> bool {
    exists|attr: Attribute|
        #[trigger] schema.spec_attribute(a_id, attr) && (match attr.value_type {
            ValueType::Ref => match v {
                ValueLiteral::Integer(n) => out_v == TypedValue::Ref(n),
                ValueLiteral::Text(st) => (out_v matches TypedValue::Ref(e) && tempid_maps(
                    t,
                    st@,
                    e,
                )),
                ValueLiteral::Keyword(kw) => (out_v matches TypedValue::Ref(e)
                    && schema.spec_ident(e, kw@)),
                ValueLiteral::Boolean(_) => false,
            },
            ValueType::Boolean => match v {
                ValueLiteral::Boolean(b) => out_v == TypedValue::Boolean(b),
                _ => false,
            },
            ValueType::Long => match v {
                ValueLiteral::Integer(n) => out_v == TypedValue::Long(n),
                _ => false,
            },
            ValueType::Instant => match v {
                ValueLiteral::Integer(n) => out_v == TypedValue::Instant(n),
                _ => false,
            },
            ValueType::Text => match v {
                ValueLiteral::Text(st) => out_v == TypedValue::Text(st),
                _ => false,
            },
            ValueType::Keyword => match v {
                ValueLiteral::Keyword(kw) => out_v == TypedValue::Keyword(kw),
                _ => false,
            },
        })
}

/// The operation carries out the entity form: same polarity, the places
/// resolved through the schema and the tempid map.
pub open spec fn op_carries(schema: Schema, t: Seq<(String, Entid)>, ent: Entity, op: Dop) -> bool {
    match ent {
        Entity::AddOrRetract { op: o, e, a, v } => {
            &&& op.added == (o == OpType::Add)
            &&& (match e {
                EntityPlace::Existing(EntidOrIdent::Entid(n)) => op.e == n,
                EntityPlace::Existing(EntidOrIdent::Ident(kw)) => schema.spec_ident(op.e, kw@),
                EntityPlace::TempId(name) => tempid_maps(t, name@, op.e),
            })
            &&& attr_resolves_to(schema, a, op.a)
            &&& value_resolves(schema, t, op.a, v, op.v)
        },
        Entity::MapForm { pairs } => true,
    }
}

/// Every entity form is a four-place assertion (no map forms).
pub open spec fn all_vector_forms(entities: Seq<Entity>) -> bool {
    forall|k: int|
        0 <= k < entities.len() ==> (match #[trigger] entities[k] {
            Entity::AddOrRetract { op, e, a, v } => true,
            Entity::MapForm { pairs } => false,
        })
}

/// The transaction itself justifies the upsert: it asserts `:db/ident`
/// of the tempid with a keyword the schema already maps to the resolved
/// entity.
pub open spec fn upsert_justified(entities: Seq<Entity>, schema: Schema, pair: (String, Entid)) -> bool {
    exists|k: int|
        0 <= k < entities.len() && (match #[trigger] entities[k] {
            Entity::AddOrRetract { op, e, a, v } => (match (e, v) {
                (EntityPlace::TempId(name), ValueLiteral::Keyword(kw)) => name@ == pair.0@
                    && attr_resolves_to(schema, a, DB_IDENT) && schema.spec_ident(pair.1, kw@),
                _ => false,
            }),
            _ => false,
        })
}

/// Some entity form mentions the tempid: in entity position, or in value
/// position under a ref-typed attribute.
pub open spec fn mentions_tempid(entities: Seq<Entity>, schema: Schema, name: Seq<char>) -> bool {
    exists|k: int|
        0 <= k < entities.len() && (match #[trigger] entities[k] {
            Entity::AddOrRetract { op, e, a, v } => (match e {
                EntityPlace::TempId(t) => t@ == name,
                _ => false,
            }) || (match v {
                ValueLiteral::Text(st) => st@ == name && exists|a_id: Entid, attr: Attribute|
                    attr_resolves_to(schema, a, a_id) && #[trigger] schema.spec_attribute(
                        a_id,
                        attr,
                    ) && attr.value_type == ValueType::Ref,
                _ => false,
            }),
            _ => false,
        })
}

/// A triple carries out one four-place entity form.
spec fn triple_from(schema: Schema, ent: Entity, t: Triple) -> bool {
    match ent {
        Entity::AddOrRetract { op, e, a, v } => {
            &&& t.op == op
            &&& (match e {
                EntityPlace::Existing(EntidOrIdent::Entid(n)) => (match t.e {
                    Place::Known(m) => m == n,
                    _ => false,
                }),
                EntityPlace::Existing(EntidOrIdent::Ident(kw)) => (match t.e {
                    Place::Known(m) => schema.spec_ident(m, kw@),
                    _ => false,
                }),
                EntityPlace::TempId(name) => (match t.e {
                    Place::Temp(t2) => t2@ == name@,
                    _ => false,
                }),
            })
            &&& attr_resolves_to(schema, a, t.a)
            &&& schema.spec_attribute(t.a, t.attr)
            &&& t.v == v
        },
        _ => false,
    }
}

/// Resolve an attribute position to its entid and schema entry.
fn resolve_attr(schema: &Schema, a: &EntidOrIdent) -> (r: Result<(Entid, Attribute), StoreError>)
    ensures
        !(r matches Err(StoreError::DbError(DbErrorKind::UnrecognizedEntid(_)))),
        r matches Ok(pair) ==> attr_resolves_to(*schema, *a, pair.0) && schema.spec_attribute(
            pair.0,
            pair.1,
        ),
{
    match a {
        EntidOrIdent::Entid(n) => match schema.attribute_for_entid(*n) {
            Some(attr) => Ok((*n, attr)),
            None => Err(StoreError::DbError(DbErrorKind::UnknownAttribute(*n))),
        },
        EntidOrIdent::Ident(kw) => match schema.get_entid(kw) {
            Some(e) => match schema.attribute_for_entid(e) {
                Some(attr) => Ok((e, attr)),
                None => Err(StoreError::DbError(DbErrorKind::UnknownAttribute(e))),
            },
            None => Err(StoreError::DbError(DbErrorKind::UnrecognizedIdent(kw.clone()))),
        },
    }
}

/// Flatten the entity forms into attribute-resolved triples, applying the
/// e-position gate and resolving map forms through their `:db/ident`.
fn flatten(pm: &PartitionMap, schema: &Schema, entities: &Vec<Entity>) -> (r: Result<
    Vec<Triple>,
    StoreError,
>)
    requires
        schema.wf(),
    ensures
        match r {
            Ok(ts) => (forall|k: int|
                0 <= k < entities@.len() ==> entity_e_gated(#[trigger] entities@[k], *pm)) && (
            all_vector_forms(entities@) ==> ts@.len() == entities@.len() && (forall|k: int|
                0 <= k < entities@.len() ==> triple_from(
                    *schema,
                    #[trigger] entities@[k],
                    ts@[k],
                ))),
            Err(e) => match e {
                StoreError::DbError(DbErrorKind::UnrecognizedEntid(n)) => !pm.spec_allocated(n),
                _ => true,
            },
        },
{
    let mut triples: Vec<Triple> = Vec::new();
    let mut idx: usize = 0;
    while idx < entities.len()
        invariant
            idx <= entities@.len(),
            schema.wf(),
            forall|k: int| 0 <= k < idx ==> entity_e_gated(#[trigger] entities@[k], *pm),
            all_vector_forms(entities@) ==> triples@.len() == idx && (forall|k: int|
                0 <= k < idx ==> triple_from(*schema, #[trigger] entities@[k], triples@[k])),
        decreases entities@.len() - idx,
    {
        match &entities[idx] {
            Entity::AddOrRetract { op, e, a, v } => {
                let place = match e {
                    EntityPlace::Existing(EntidOrIdent::Entid(n)) => {
                        if !pm.allocated(*n) {
                            return Err(StoreError::DbError(DbErrorKind::UnrecognizedEntid(*n)));
                        }
                        Place::Known(*n)
                    },
                    EntityPlace::Existing(EntidOrIdent::Ident(kw)) => {
                        match schema.get_entid(kw) {
                            Some(found) => {
                                if !pm.allocated(found) {
                                    return Err(
                                        StoreError::DbError(DbErrorKind::UnrecognizedEntid(found)),
                                    );
                                }
                                Place::Known(found)
                            },
                            None => {
                                return Err(
                                    StoreError::DbError(DbErrorKind::UnrecognizedIdent(kw.clone())),
                                );
                            },
                        }
                    },
                    EntityPlace::TempId(t) => Place::Temp(t.clone()),
                };
                let (a_id, attr) = match resolve_attr(schema, a) {
                    Ok(pair) => pair,
                    Err(err) => {
                        return Err(err);
                    },
                };
                let trip = Triple { op: *op, e: place, a: a_id, attr, v: v.clone() };
                let ghost prevt = triples@;
                proof {
                    assert(triple_from(*schema, entities@[idx as int], trip));
                }
                triples.push(trip);
                proof {
                    assert(forall|k: int| 0 <= k < prevt.len() ==> #[trigger] triples@[k] == prevt[k]);
                    assert(triples@[prevt.len() as int] == trip);
                }
            },
            Entity::MapForm { pairs } => {
                proof {
                    assert(!all_vector_forms(entities@)) by {
                        if all_vector_forms(entities@) {
                            assert(match entities@[idx as int] {
                                Entity::AddOrRetract { op, e, a, v } => true,
                                Entity::MapForm { pairs } => false,
                            });
                        }
                    }
                }
                // Resolve the entity through a `:db/ident` pair naming a
                // known keyword; an unresolvable map form is not yet
                // handled.
                let mut place: Option<Place> = None;
                let mut j: usize = 0;
                while j < pairs.len()
                    invariant
                        j <= pairs@.len(),
                        schema.wf(),
                    decreases pairs@.len() - j,
                {
                    let is_ident_attr = match &pairs[j].0 {
                        EntidOrIdent::Entid(n) => *n == DB_IDENT,
                        EntidOrIdent::Ident(kw) => {
                            kw.namespace == String::from_str("db") && kw.name == String::from_str(
                                "ident",
                            )
                        },
                    };
                    if is_ident_attr {
                        match &pairs[j].1 {
                            ValueLiteral::Keyword(k) => {
                                match schema.get_entid(k) {
                                    Some(found) => {
                                        if pm.allocated(found) {
                                            place = Some(Place::Known(found));
                                        }
                                    },
                                    None => {},
                                }
                            },
                            _ => {},
                        }
                    }
                    j = j + 1;
                }
                let resolved_place = match place {
                    Some(p) => p,
                    None => {
                        return Err(
                            StoreError::DbError(
                                DbErrorKind::NotYetImplemented(
                                    String::from_str("map form without a known ident"),
                                ),
                            ),
                        );
                    },
                };
                let mut j: usize = 0;
                while j < pairs.len()
                    invariant
                        j <= pairs@.len(),
                        schema.wf(),
                    decreases pairs@.len() - j,
                {
                    let (a_id, attr) = match resolve_attr(schema, &pairs[j].0) {
                        Ok(pair) => pair,
                        Err(err) => {
                            return Err(err);
                        },
                    };
                    triples.push(
                        Triple {
                            op: OpType::Add,
                            e: resolved_place.clone(),
                            a: a_id,
                            attr,
                            v: pairs[j].1.clone(),
                        },
                    );
                    j = j + 1;
                }
            },
        }
        idx = idx + 1;
    }
    Ok(triples)
}

/// Some ident of the schema aliases `e`.
pub open spec fn has_ident_alias(schema: Schema, e: Entid) -> bool {
    exists|kw: (Seq<char>, Seq<char>)| schema.spec_ident(e, kw)
}

/// How one successful transaction resolves its tempid map against the
/// partition cursors: each tempid either upserted to an entity that was
/// already allocated and aliased by an ident of the schema, or received
/// a fresh id out of the region the user cursor advanced over; that
/// region is covered exactly, in ascending lexicographic order of the
/// tempid strings. In particular, a transaction without fresh tempids
/// leaves the user cursor where it was.
pub open spec fn tempids_allocated(
    t: Seq<(String, Entid)>,
    schema: Schema,
    old_pm: PartitionMap,
    new_pm: PartitionMap,
) -> bool {
    // Each tempid is upsert-resolved or fresh.
    &&& forall|i: int|
        0 <= i < t.len() ==> ((old_pm.spec_allocated((#[trigger] t[i]).1) && has_ident_alias(
            schema,
            t[i].1,
        )) || (old_pm.user.index <= t[i].1 < new_pm.user.index))
    // The advanced region is covered exactly by the fresh tempids.
    &&& forall|e: Entid|
        #[trigger] new_pm.user.spec_allocated(e) && !old_pm.user.spec_allocated(e) ==> exists|
            i: int,
        | 0 <= i < t.len() && (#[trigger] t[i]).1 == e
    // Fresh ids ascend with their tempid strings.
    &&& forall|i: int, j: int|
        0 <= i < t.len() && 0 <= j < t.len() && old_pm.user.index <= (#[trigger] t[i]).1
            < new_pm.user.index && old_pm.user.index <= (#[trigger] t[j]).1 < new_pm.user.index
            ==> (lex_lt(t[i].0@, t[j].0@) <==> t[i].1 < t[j].1)
}

/// `tempids_allocated` reads the schema only through its ident map, so
/// two schemas with equal ident maps agree on it.
pub proof fn lemma_tempids_allocated_ident_views(
    t: Seq<(String, Entid)>,
    s1: Schema,
    s2: Schema,
    old_pm: PartitionMap,
    new_pm: PartitionMap,
)
    requires
        s1.ident_map@ == s2.ident_map@,
        tempids_allocated(t, s1, old_pm, new_pm),
    ensures
        tempids_allocated(t, s2, old_pm, new_pm),
{
    assert forall|e: Entid| #[trigger] has_ident_alias(s1, e) implies has_ident_alias(s2, e) by {
        let kw = choose|kw: (Seq<char>, Seq<char>)| s1.spec_ident(e, kw);
        let i = choose|i: int|
            0 <= i < s1.ident_map@.len() && (#[trigger] s1.ident_map@[i]).0 == e
                && s1.ident_map@[i].1@ == kw;
        assert((s2.ident_map@[i]).0 == e && s2.ident_map@[i].1@ == kw);
        assert(s2.spec_ident(e, kw));
    }
    assert forall|i: int|
        0 <= i < t.len() implies ((old_pm.spec_allocated((#[trigger] t[i]).1) && has_ident_alias(
        s2,
        t[i].1,
    )) || (old_pm.user.index <= t[i].1 < new_pm.user.index)) by {
        assert((old_pm.spec_allocated(t[i].1) && has_ident_alias(s1, t[i].1)) || (old_pm.user.index
            <= t[i].1 < new_pm.user.index));
    }
}

/// Pairwise-distinct entids, each allocated in `pm` and aliased by an
/// ident of `schema`.
spec fn resolved_ok(t: Seq<(String, Entid)>, pm: PartitionMap, schema: Schema) -> bool {
    &&& tempids_injective(t)
    &&& forall|i: int| 0 <= i < t.len() ==> pm.spec_allocated((#[trigger] t[i]).1)
    &&& forall|i: int| 0 <= i < t.len() ==> has_ident_alias(schema, (#[trigger] t[i]).1)
}

/// Run one transaction against a consistent `(partition map, schema)`
/// pair: resolve and gate every entity form, allocate what is fresh, and
/// return the report, the datom operations, and the next metadata.
///
/// Tempid strings resolve injectively: identical strings to the same
/// entid, distinct strings to distinct entids. Fresh entids are handed
/// out from the user partition in ascending lexicographic order of the
/// unresolved tempid strings. The transaction itself takes the next
/// transaction-partition id, which the report carries as `tx_id`.
pub fn transact_core(
    pm: &PartitionMap,
    schema: &Schema,
    entities: &Vec<Entity>,
    tx_instant: i64,
) -> (r: Result<TxOutcome, StoreError>)
    requires
        pm.wf(),
        schema.wf(),
    ensures
        // The user-entid gate forces rejection: a transaction naming an
        // unallocated entid fails with `UnrecognizedEntid` of such an id.
        (exists|k: int| 0 <= k < entities@.len() && !entity_e_gated(#[trigger] entities@[k], *pm))
            ==> (r matches Err(e) && (e matches StoreError::DbError(
            DbErrorKind::UnrecognizedEntid(n),
        ) && names_ungated(entities@, *pm, n))),
        match r {
            Ok(out) => {
                &&& out.partition_map.wf()
                &&& out.schema.wf()
                // The database partition does not move; the user and
                // transaction partitions keep their ranges and only ever
                // advance.
                &&& out.partition_map.db == pm.db
                &&& out.partition_map.user.start == pm.user.start
                &&& out.partition_map.user.end == pm.user.end
                &&& out.partition_map.user.index >= pm.user.index
                &&& out.partition_map.tx.start == pm.tx.start
                &&& out.partition_map.tx.end == pm.tx.end
                &&& out.partition_map.tx.index == pm.tx.index + 1
                // The transaction entity is the next transaction id.
                &&& out.report.tx_id == pm.tx.index
                // Tempid resolution is injective.
                &&& tempids_injective(out.report.tempids@)
                // Every resolved tempid lies in the allocated region.
                &&& forall|i: int|
                    0 <= i < out.report.tempids@.len() ==> out.partition_map.spec_allocated(
                        (#[trigger] out.report.tempids@[i]).1,
                    )
                // Every numeric entity id the caller named was allocated.
                &&& forall|k: int|
                    0 <= k < entities@.len() ==> entity_e_gated(#[trigger] entities@[k], *pm)
                // Tempids are upsert-resolved or take exactly the fresh
                // region, ascending by string.
                &&& tempids_allocated(out.report.tempids@, *schema, *pm, out.partition_map)
                // For a transaction of four-place forms, the operations
                // carry out the forms one for one (plus the instant), the
                // report's tempids are exactly ones the forms mention,
                // and an upsert happens only where the forms justify it.
                &&& (all_vector_forms(entities@) ==> out.ops@.len() == entities@.len() + 1 && (
                forall|k: int|
                    0 <= k < entities@.len() ==> op_carries(
                        *schema,
                        out.report.tempids@,
                        #[trigger] entities@[k],
                        out.ops@[k],
                    )))
                &&& (all_vector_forms(entities@) ==> forall|x: int|
                    0 <= x < out.report.tempids@.len() ==> mentions_tempid(
                        entities@,
                        *schema,
                        (#[trigger] out.report.tempids@[x]).0@,
                    ))
                &&& (all_vector_forms(entities@) ==> forall|x: int|
                    0 <= x < out.report.tempids@.len() && pm.spec_allocated(
                        (#[trigger] out.report.tempids@[x]).1,
                    ) ==> upsert_justified(entities@, *schema, out.report.tempids@[x]))
                // The last operation asserts the transaction's instant.
                &&& out.ops@.len() >= 1
                &&& out.ops@.last() == (Dop {
                    e: out.report.tx_id,
                    a: DB_TX_INSTANT,
                    v: TypedValue::Instant(tx_instant),
                    added: true,
                    fulltext: false,
                })
            },
            Err(e) => match e {
                StoreError::DbError(DbErrorKind::UnrecognizedEntid(n)) => !pm.spec_allocated(n),
                _ => true,
            },
        },
{
    let mut g: usize = 0;
    while g < entities.len()
        invariant
            g <= entities@.len(),
            forall|k: int| 0 <= k < g ==> entity_e_gated(#[trigger] entities@[k], *pm),
        decreases entities@.len() - g,
    {
        match &entities[g] {
            Entity::AddOrRetract { e: EntityPlace::Existing(EntidOrIdent::Entid(n)), .. } => {
                if !pm.allocated(*n) {
                    proof {
                        assert(entity_names(entities@[g as int], *n));
                    }
                    return Err(StoreError::DbError(DbErrorKind::UnrecognizedEntid(*n)));
                }
            },
            _ => {},
        }
        g = g + 1;
    }
    let triples = match flatten(pm, schema, entities) {
        Ok(t) => t,
        Err(e) => {
            return Err(e);
        },
    };
    // Upsert resolution: a tempid asserted as `:db/ident` of a keyword
    // that already names an entity resolves to that entity. A tempid
    // pulled toward two entities, or two tempids pulled toward one, are
    // conflicts the transactor does not yet handle.
    let mut resolved: Vec<(String, Entid)> = Vec::new();
    let mut i: usize = 0;
    while i < triples.len()
        invariant
            i <= triples@.len(),
            resolved_ok(resolved@, *pm, *schema),
            forall|k: int| 0 <= k < entities@.len() ==> entity_e_gated(#[trigger] entities@[k], *pm),
            all_vector_forms(entities@) ==> triples@.len() == entities@.len() && (forall|k2: int|
                0 <= k2 < entities@.len() ==> triple_from(
                    *schema,
                    #[trigger] entities@[k2],
                    triples@[k2],
                )),
            all_vector_forms(entities@) ==> (forall|x: int|
                0 <= x < resolved@.len() ==> upsert_justified(
                    entities@,
                    *schema,
                    #[trigger] resolved@[x],
                )),
        decreases triples@.len() - i,
    {
        let t = &triples[i];
        match &t.e {
            Place::Temp(name) => {
                if t.a == DB_IDENT {
                    match &t.v {
                        ValueLiteral::Keyword(k) => {
                            match schema.get_entid(k) {
                                Some(found) => {
                                    if pm.allocated(found) {
                                        match tempids_get(&resolved, name) {
                                            Some(already) => {
                                                if already != found {
                                                    return Err(
                                                        StoreError::DbError(
                                                            DbErrorKind::NotYetImplemented(
                                                                name.clone(),
                                                            ),
                                                        ),
                                                    );
                                                }
                                            },
                                            None => {
                                                if contains_entid(&resolved, found) {
                                                    return Err(
                                                        StoreError::DbError(
                                                            DbErrorKind::NotYetImplemented(
                                                                name.clone(),
                                                            ),
                                                        ),
                                                    );
                                                }
                                                let ghost prevr = resolved@;
                                                let entry = (name.clone(), found);
                                                resolved.push(entry);
                                                proof {
                                                    assert(schema.spec_ident(found, k@));
                                                    assert(has_ident_alias(*schema, found));
                                                    assert(forall|i: int|
                                                        0 <= i < prevr.len()
                                                            ==> #[trigger] resolved@[i]
                                                            == prevr[i]);
                                                    assert(resolved@[prevr.len() as int]
                                                        == entry);
                                                    if all_vector_forms(entities@) {
                                                        assert(triple_from(
                                                            *schema,
                                                            entities@[i as int],
                                                            triples@[i as int],
                                                        ));
                                                        assert(upsert_justified(
                                                            entities@,
                                                            *schema,
                                                            entry,
                                                        ));
                                                    }
                                                }
                                            },
                                        }
                                    }
                                },
                                None => {},
                            }
                        },
                        _ => {},
                    }
                }
            },
            _ => {},
        }
        i = i + 1;
    }
    // Collect the tempid strings still unresolved, in ascending order.
    let mut names: Vec<String> = Vec::new();
    let mut i: usize = 0;
    while i < triples.len()
        invariant
            i <= triples@.len(),
            resolved_ok(resolved@, *pm, *schema),
            forall|k: int| 0 <= k < entities@.len() ==> entity_e_gated(#[trigger] entities@[k], *pm),
            all_vector_forms(entities@) ==> triples@.len() == entities@.len() && (forall|k2: int|
                0 <= k2 < entities@.len() ==> triple_from(
                    *schema,
                    #[trigger] entities@[k2],
                    triples@[k2],
                )),
            all_vector_forms(entities@) ==> (forall|x: int|
                0 <= x < resolved@.len() ==> upsert_justified(
                    entities@,
                    *schema,
                    #[trigger] resolved@[x],
                )),
            all_vector_forms(entities@) ==> (forall|x: int|
                0 <= x < names@.len() ==> mentions_tempid(
                    entities@,
                    *schema,
                    (#[trigger] names@[x])@,
                )),
            strictly_sorted(names@),
            forall|a: int, b: int|
                0 <= a < names@.len() && 0 <= b < resolved@.len() ==> (#[trigger] names@[a])@ != (
                #[trigger] resolved@[b]).0@,
        decreases triples@.len() - i,
    {
        let t = &triples[i];
        match &t.e {
            Place::Temp(name) => {
                match tempids_get(&resolved, name) {
                    None => {
                        let ghost prevn = names@;
                        let ghost inserted = name@;
                        insert_sorted(&mut names, name.clone());
                        proof {
                            if all_vector_forms(entities@) {
                                assert(triple_from(
                                    *schema,
                                    entities@[i as int],
                                    triples@[i as int],
                                ));
                                assert(mentions_tempid(entities@, *schema, inserted));
                                assert forall|x: int|
                                    0 <= x < names@.len() implies mentions_tempid(
                                    entities@,
                                    *schema,
                                    (#[trigger] names@[x])@,
                                ) by {
                                    if names@[x]@ != inserted {
                                        let y = choose|y: int|
                                            0 <= y < prevn.len() && (#[trigger] prevn[y])@
                                                == names@[x]@;
                                        assert(mentions_tempid(entities@, *schema, prevn[y]@));
                                    }
                                }
                            }
                        }
                    },
                    Some(_) => {},
                }
            },
            _ => {},
        }
        let is_ref = match t.attr.value_type {
            ValueType::Ref => true,
            _ => false,
        };
        if is_ref {
            match &t.v {
                ValueLiteral::Text(s) => {
                    match tempids_get(&resolved, s) {
                        None => {
                            let ghost prevn = names@;
                            let ghost inserted = s@;
                            insert_sorted(&mut names, s.clone());
                            proof {
                                if all_vector_forms(entities@) {
                                    assert(triple_from(
                                        *schema,
                                        entities@[i as int],
                                        triples@[i as int],
                                    ));
                                    assert(schema.spec_attribute(
                                        triples@[i as int].a,
                                        triples@[i as int].attr,
                                    ));
                                    assert(mentions_tempid(entities@, *schema, inserted));
                                    assert forall|x: int|
                                        0 <= x < names@.len() implies mentions_tempid(
                                        entities@,
                                        *schema,
                                        (#[trigger] names@[x])@,
                                    ) by {
                                        if names@[x]@ != inserted {
                                            let y = choose|y: int|
                                                0 <= y < prevn.len() && (#[trigger] prevn[y])@
                                                    == names@[x]@;
                                            assert(mentions_tempid(entities@, *schema, prevn[y]@));
                                        }
                                    }
                                }
                            }
                        },
                        Some(_) => {},
                    }
                },
                _ => {},
            }
        }
        i = i + 1;
    }
    // Allocate: fresh user entids for the unresolved tempids, one
    // transaction id for the transaction entity.
    let mut pm2 = *pm;
    let first = match pm2.allocate_user(names.len()) {
        Ok(f) => f,
        Err(e) => {
            return Err(e);
        },
    };
    let tx_id = match pm2.allocate_tx() {
        Ok(t) => t,
        Err(e) => {
            return Err(e);
        },
    };
    let mut tempids: Vec<(String, Entid)> = resolved;
    let ghost n_resolved = tempids@.len();
    proof {
        if all_vector_forms(entities@) {
            assert forall|x: int|
                0 <= x < tempids@.len() implies mentions_tempid(
                entities@,
                *schema,
                (#[trigger] tempids@[x]).0@,
            ) by {
                assert(upsert_justified(entities@, *schema, tempids@[x]));
                let kk = choose|kk: int|
                    0 <= kk < entities@.len() && (match #[trigger] entities@[kk] {
                        Entity::AddOrRetract { op, e, a, v } => (match (e, v) {
                            (EntityPlace::TempId(name), ValueLiteral::Keyword(kw)) => name@
                                == tempids@[x].0@ && attr_resolves_to(*schema, a, DB_IDENT)
                                && schema.spec_ident(tempids@[x].1, kw@),
                            _ => false,
                        }),
                        _ => false,
                    });
                assert(0 <= kk < entities@.len());
            }
        }
    }
    let mut k: usize = 0;
    while k < names.len()
        invariant
            k <= names@.len(),
            pm.wf(),
            all_vector_forms(entities@) ==> (forall|x: int|
                0 <= x < n_resolved ==> upsert_justified(
                    entities@,
                    *schema,
                    #[trigger] tempids@[x],
                )),
            all_vector_forms(entities@) ==> (forall|x: int|
                0 <= x < tempids@.len() ==> mentions_tempid(
                    entities@,
                    *schema,
                    (#[trigger] tempids@[x]).0@,
                )),
            all_vector_forms(entities@) ==> (forall|x: int|
                0 <= x < names@.len() ==> mentions_tempid(
                    entities@,
                    *schema,
                    (#[trigger] names@[x])@,
                )),
            forall|k2: int|
                0 <= k2 < entities@.len() ==> entity_e_gated(#[trigger] entities@[k2], *pm),
            pm2.user.index == pm.user.index + names@.len(),
            pm2.user.start == pm.user.start,
            first == pm.user.index,
            first + names@.len() <= pm2.user.end,
            pm2.user.end == pm.user.end,
            strictly_sorted(names@),
            tempids@.len() == n_resolved + k,
            n_resolved <= tempids@.len(),
            forall|i: int|
                0 <= i < n_resolved ==> pm.spec_allocated((#[trigger] tempids@[i]).1),
            forall|i: int|
                0 <= i < n_resolved ==> has_ident_alias(*schema, (#[trigger] tempids@[i]).1),
            forall|i: int, j: int|
                0 <= i < j < tempids@.len() ==> (#[trigger] tempids@[i]).0@ != (
                #[trigger] tempids@[j]).0@ && tempids@[i].1 != tempids@[j].1,
            forall|a: int, b: int|
                0 <= a < names@.len() && 0 <= b < n_resolved ==> (#[trigger] names@[a])@ != (
                #[trigger] tempids@[b]).0@,
            forall|j: int|
                n_resolved <= j < tempids@.len() ==> (#[trigger] tempids@[j]).0@ == names@[j
                    - n_resolved]@ && tempids@[j].1 == first + (j - n_resolved),
        decreases names@.len() - k,
    {
        let assigned = first + k as i64;
        let ghost prev = tempids@;
        tempids.push((names[k].clone(), assigned));
        proof {
            assert(tempids@ == prev.push((names@[k as int], assigned)));
            assert forall|i: int, j: int|
                0 <= i < j < tempids@.len() implies (#[trigger] tempids@[i]).0@ != (
            #[trigger] tempids@[j]).0@ && tempids@[i].1 != tempids@[j].1 by {
                if j == tempids@.len() - 1 {
                    if i < n_resolved {
                        assert(pm.spec_allocated(tempids@[i].1));
                        assert(tempids@[i].1 < first);
                    } else {
                        assert(tempids@[i].0@ == names@[i - n_resolved]@);
                        let ghost ai = i - n_resolved;
                        let ghost aj = k as int;
                        assert(crate::order::lex_lt(names@[ai]@, names@[aj]@));
                        if names@[ai]@ == names@[aj]@ {
                            lemma_lex_irrefl(names@[aj]@);
                        }
                    }
                }
            }
        }
        k = k + 1;
    }
    proof {
        assert forall|i: int|
            0 <= i < tempids@.len() implies ((pm.spec_allocated((#[trigger] tempids@[i]).1)
            && has_ident_alias(*schema, tempids@[i].1)) || (pm.user.index <= tempids@[i].1
            < pm2.user.index)) by {
            if i >= n_resolved {
                assert(tempids@[i].1 == first + (i - n_resolved));
            }
        }
        assert forall|e: Entid|
            #[trigger] pm2.user.spec_allocated(e) && !pm.user.spec_allocated(e) implies exists|
            i: int,
        | 0 <= i < tempids@.len() && (#[trigger] tempids@[i]).1 == e by {
            let i = n_resolved + (e - first);
            assert(tempids@[i].1 == e);
        }
        assert forall|i: int, j: int|
            0 <= i < tempids@.len() && 0 <= j < tempids@.len() && pm.user.index <= (
            #[trigger] tempids@[i]).1 < pm2.user.index && pm.user.index <= (
        #[trigger] tempids@[j]).1 < pm2.user.index implies (lex_lt(tempids@[i].0@, tempids@[j].0@)
            <==> tempids@[i].1 < tempids@[j].1) by {
            assert(i >= n_resolved) by {
                if i < n_resolved {
                    assert(pm.spec_allocated(tempids@[i].1));
                }
            }
            assert(j >= n_resolved) by {
                if j < n_resolved {
                    assert(pm.spec_allocated(tempids@[j].1));
                }
            }
            let ni = names@[i - n_resolved]@;
            let nj = names@[j - n_resolved]@;
            assert(tempids@[i].0@ == ni && tempids@[j].0@ == nj);
            if i < j {
                assert(lex_lt(ni, nj));
            } else if j < i {
                assert(lex_lt(nj, ni));
                if lex_lt(ni, nj) {
                    lemma_lex_trans(ni, nj, ni);
                    lemma_lex_irrefl(ni);
                }
            } else {
                lemma_lex_irrefl(ni);
            }
        }
        assert(tempids_allocated(tempids@, *schema, *pm, pm2));
    }
    // Interpret each triple's value against its attribute, install any
    // ident assertions into the working schema, and emit the operations.
    proof {
        if all_vector_forms(entities@) {
            assert forall|x: int|
                0 <= x < tempids@.len() && pm.spec_allocated(
                    (#[trigger] tempids@[x]).1,
                ) implies upsert_justified(entities@, *schema, tempids@[x]) by {
                if x >= n_resolved {
                    assert(tempids@[x].1 == first + (x - n_resolved));
                    assert(first >= crate::types::USER0);
                    assert(!pm.spec_allocated(tempids@[x].1));
                }
            }
        }
    }
    let mut schema2 = schema.clone();
    let mut schema_changed = false;
    let mut ops: Vec<Dop> = Vec::new();
    let mut i: usize = 0;
    while i < triples.len()
        invariant
            i <= triples@.len(),
            schema2.wf(),
            forall|k: int| 0 <= k < entities@.len() ==> entity_e_gated(#[trigger] entities@[k], *pm),
            tempids_injective(tempids@),
            forall|j: int|
                0 <= j < tempids@.len() ==> pm2.spec_allocated((#[trigger] tempids@[j]).1),
            pm2.wf(),
            tempids_allocated(tempids@, *schema, *pm, pm2),
            all_vector_forms(entities@) ==> triples@.len() == entities@.len() && (forall|k2: int|
                0 <= k2 < entities@.len() ==> triple_from(
                    *schema,
                    #[trigger] entities@[k2],
                    triples@[k2],
                )),
            all_vector_forms(entities@) ==> (forall|x: int|
                0 <= x < tempids@.len() ==> mentions_tempid(
                    entities@,
                    *schema,
                    (#[trigger] tempids@[x]).0@,
                )),
            all_vector_forms(entities@) ==> (forall|x: int|
                0 <= x < tempids@.len() && pm.spec_allocated((#[trigger] tempids@[x]).1)
                    ==> upsert_justified(entities@, *schema, tempids@[x])),
            all_vector_forms(entities@) ==> (ops@.len() == i && (forall|k2: int|
                0 <= k2 < i ==> op_carries(
                    *schema,
                    tempids@,
                    #[trigger] entities@[k2],
                    ops@[k2],
                ))),
        decreases triples@.len() - i,
    {
        let t = &triples[i];
        let e_id = match &t.e {
            Place::Known(known) => *known,
            Place::Temp(name) => {
                match tempids_get(&tempids, name) {
                    Some(found) => found,
                    None => {
                        return Err(StoreError::DbError(DbErrorKind::NotYetImplemented(name.clone())));
                    },
                }
            },
        };
        let v_tv = match t.attr.value_type {
            ValueType::Ref => match &t.v {
                ValueLiteral::Integer(n) => {
                    if !pm.allocated(*n) {
                        return Err(StoreError::DbError(DbErrorKind::UnrecognizedEntid(*n)));
                    }
                    TypedValue::Ref(*n)
                },
                ValueLiteral::Text(s) => {
                    match tempids_get(&tempids, s) {
                        Some(found) => TypedValue::Ref(found),
                        None => {
                            return Err(StoreError::DbError(DbErrorKind::NotYetImplemented(s.clone())));
                        },
                    }
                },
                ValueLiteral::Keyword(kw) => {
                    match schema.get_entid(kw) {
                        Some(found) => {
                            if !pm.allocated(found) {
                                return Err(StoreError::DbError(DbErrorKind::UnrecognizedEntid(found)));
                            }
                            TypedValue::Ref(found)
                        },
                        None => {
                            return Err(
                                StoreError::DbError(DbErrorKind::UnrecognizedIdent(kw.clone())),
                            );
                        },
                    }
                },
                ValueLiteral::Boolean(_) => {
                    return Err(
                        StoreError::DbError(
                            DbErrorKind::NotYetImplemented(String::from_str("value type")),
                        ),
                    );
                },
            },
            ValueType::Boolean => match &t.v {
                ValueLiteral::Boolean(b) => TypedValue::Boolean(*b),
                _ => {
                    return Err(
                        StoreError::DbError(
                            DbErrorKind::NotYetImplemented(String::from_str("value type")),
                        ),
                    );
                },
            },
            ValueType::Long => match &t.v {
                ValueLiteral::Integer(n) => TypedValue::Long(*n),
                _ => {
                    return Err(
                        StoreError::DbError(
                            DbErrorKind::NotYetImplemented(String::from_str("value type")),
                        ),
                    );
                },
            },
            ValueType::Instant => match &t.v {
                ValueLiteral::Integer(n) => TypedValue::Instant(*n),
                _ => {
                    return Err(
                        StoreError::DbError(
                            DbErrorKind::NotYetImplemented(String::from_str("value type")),
                        ),
                    );
                },
            },
            ValueType::Text => match &t.v {
                ValueLiteral::Text(s) => TypedValue::Text(s.clone()),
                _ => {
                    return Err(
                        StoreError::DbError(
                            DbErrorKind::NotYetImplemented(String::from_str("value type")),
                        ),
                    );
                },
            },
            ValueType::Keyword => match &t.v {
                ValueLiteral::Keyword(kw) => TypedValue::Keyword(kw.clone()),
                _ => {
                    return Err(
                        StoreError::DbError(
                            DbErrorKind::NotYetImplemented(String::from_str("value type")),
                        ),
                    );
                },
            },
        };
        let added = match t.op {
            OpType::Add => true,
            OpType::Retract => false,
        };
        let is_text = match &v_tv {
            TypedValue::Text(_) => true,
            _ => false,
        };
        let fulltext = t.attr.fulltext && is_text;
        if t.a == DB_IDENT && added {
            match &v_tv {
                TypedValue::Keyword(kw) => {
                    match schema2.install_ident(e_id, kw.clone()) {
                        Ok(()) => {
                            schema_changed = true;
                        },
                        Err(err) => {
                            return Err(err);
                        },
                    }
                },
                _ => {},
            }
        }
        let op = Dop { e: e_id, a: t.a, v: v_tv, added, fulltext };
        let ghost prevo = ops@;
        proof {
            if all_vector_forms(entities@) {
                assert(triple_from(*schema, entities@[i as int], triples@[i as int]));
                assert(schema.spec_attribute(triples@[i as int].a, triples@[i as int].attr));
                assert(op_carries(*schema, tempids@, entities@[i as int], op));
            }
        }
        ops.push(op);
        proof {
            assert(forall|k2: int| 0 <= k2 < prevo.len() ==> #[trigger] ops@[k2] == prevo[k2]);
            assert(ops@[prevo.len() as int] == op);
        }
        i = i + 1;
    }
    let ghost preops = ops@;
    ops.push(
        Dop {
            e: tx_id,
            a: DB_TX_INSTANT,
            v: TypedValue::Instant(tx_instant),
            added: true,
            fulltext: false,
        },
    );
    proof {
        assert(forall|k2: int| 0 <= k2 < preops.len() ==> #[trigger] ops@[k2] == preops[k2]);
    }
    Ok(
        TxOutcome {
            report: TxReport { tx_id, tempids },
            partition_map: pm2,
            schema: schema2,
            schema_changed,
            ops,
        },
    )
}

/// Whether some pair of the map already resolves to `e`.
fn contains_entid(v: &Vec<(String, Entid)>, e: Entid) -> (r: bool)
    ensures
        r == exists|i: int| 0 <= i < v@.len() && (#[trigger] v@[i]).1 == e,
{
    let mut i: usize = 0;
    while i < v.len()
        invariant
            i <= v@.len(),
            forall|j: int| 0 <= j < i ==> (#[trigger] v@[j]).1 != e,
        decreases v@.len() - i,
    {
        if v[i].1 == e {
            return true;
        }
        i = i + 1;
    }
    false
}

} // verus!
