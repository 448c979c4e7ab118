//! The schema: known attributes plus the bijection between entity ids and
//! their symbolic idents.

use vstd::prelude::*;
use crate::types::{Entid, Keyword, StoreError, ValueType};

verus! {

/// A schema entry for an attribute: its value type and whether values are
/// stored through the fulltext index.
#[derive(Clone, Copy, Debug, PartialEq, Eq)]
pub struct Attribute {
    pub value_type: ValueType,
    pub fulltext: bool,
}

/// The set of known attributes plus the entid <-> ident bijection.
///
/// Both maps are association vectors; `wf()` keeps their keys unique, the
/// ident map in both directions.
#[derive(Debug)]
pub struct Schema {
    pub attribute_map: Vec<(Entid, Attribute)>,
    pub ident_map: Vec<(Entid, Keyword)>,
}

impl Clone for Schema {
    fn clone(&self) -> (res: Self)
        ensures
            res.attribute_map@ == self.attribute_map@,
            res.ident_map@ == self.ident_map@,
    {
        let mut attrs: Vec<(Entid, Attribute)> = Vec::new();
        let mut i: usize = 0;
        while i < self.attribute_map.len()
            invariant
                i <= self.attribute_map@.len(),
                attrs@ == self.attribute_map@.subrange(0, i as int),
            decreases self.attribute_map@.len() - i,
        {
            attrs.push(self.attribute_map[i]);
            proof {
                assert(attrs@ =~= self.attribute_map@.subrange(0, i + 1));
            }
            i = i + 1;
        }
        let mut idents: Vec<(Entid, Keyword)> = Vec::new();
        let mut j: usize = 0;
        while j < self.ident_map.len()
            invariant
                j <= self.ident_map@.len(),
                idents@ == self.ident_map@.subrange(0, j as int),
            decreases self.ident_map@.len() - j,
        {
            let pair = &self.ident_map[j];
            idents.push((pair.0, pair.1.clone()));
            proof {
                assert(idents@ =~= self.ident_map@.subrange(0, j + 1));
            }
            j = j + 1;
        }
        proof {
            assert(attrs@ =~= self.attribute_map@);
            assert(idents@ =~= self.ident_map@);
        }
        Schema { attribute_map: attrs, ident_map: idents }
    }
}

impl Schema {
    /// Attribute entids are unique; the ident map is injective in both
    /// directions, a bijection between entids and keywords.
    pub open spec fn wf(self) -> bool {
        &&& forall|i: int, j: int|
            0 <= i < j < self.attribute_map@.len() ==> #[trigger] self.attribute_map@[i].0
                != #[trigger] self.attribute_map@[j].0
        &&& forall|i: int, j: int|
            0 <= i < j < self.ident_map@.len() ==> #[trigger] self.ident_map@[i].0
                != #[trigger] self.ident_map@[j].0
        &&& forall|i: int, j: int|
            0 <= i < j < self.ident_map@.len() ==> (#[trigger] self.ident_map@[i].1)@
                != (#[trigger] self.ident_map@[j].1)@
    }

    /// Some attribute is registered under `e`.
    pub open spec fn spec_has_attribute(self, e: Entid) -> bool {
        exists|i: int| 0 <= i < self.attribute_map@.len() && (#[trigger] self.attribute_map@[i]).0 == e
    }

    /// `a` is registered as the attribute of `e`.
    pub open spec fn spec_attribute(self, e: Entid, a: Attribute) -> bool {
        exists|i: int| 0 <= i < self.attribute_map@.len() && #[trigger] self.attribute_map@[i] == (e, a)
    }

    /// Some ident aliases `e`.
    pub open spec fn spec_has_ident(self, e: Entid) -> bool {
        exists|i: int| 0 <= i < self.ident_map@.len() && (#[trigger] self.ident_map@[i]).0 == e
    }

    /// The keyword `kw` aliases `e`.
    pub open spec fn spec_ident(self, e: Entid, kw: (Seq<char>, Seq<char>)) -> bool {
        exists|i: int|
            0 <= i < self.ident_map@.len() && (#[trigger] self.ident_map@[i]).0 == e
                && self.ident_map@[i].1@ == kw
    }

    /// Some entid is aliased by the keyword `kw`.
    pub open spec fn spec_has_entid(self, kw: (Seq<char>, Seq<char>)) -> bool {
        exists|i: int| 0 <= i < self.ident_map@.len() && (#[trigger] self.ident_map@[i]).1@ == kw
    }

    /// The attribute registered under `e`, if any.
    pub fn attribute_for_entid(&self, e: Entid) -> (r: Option<Attribute>)
        ensures
            match r {
                Some(a) => self.spec_attribute(e, a),
                None => !self.spec_has_attribute(e),
            },
    {
        let mut i: usize = 0;
        while i < self.attribute_map.len()
            invariant
                i <= self.attribute_map@.len(),
                forall|j: int| 0 <= j < i ==> (#[trigger] self.attribute_map@[j]).0 != e,
            decreases self.attribute_map@.len() - i,
        {
            if self.attribute_map[i].0 == e {
                return Some(self.attribute_map[i].1);
            }
            i = i + 1;
        }
        None
    }

    /// The ident aliasing `e`, if any.
    pub fn get_ident(&self, e: Entid) -> (r: Option<Keyword>)
        ensures
            match r {
                Some(kw) => self.spec_ident(e, kw@),
                None => !self.spec_has_ident(e),
            },
    {
        let mut i: usize = 0;
        while i < self.ident_map.len()
            invariant
                i <= self.ident_map@.len(),
                forall|j: int| 0 <= j < i ==> (#[trigger] self.ident_map@[j]).0 != e,
            decreases self.ident_map@.len() - i,
        {
            if self.ident_map[i].0 == e {
                return Some(self.ident_map[i].1.clone());
            }
            i = i + 1;
        }
        None
    }

    /// The entid aliased by `kw`, if any.
    pub fn get_entid(&self, kw: &Keyword) -> (r: Option<Entid>)
        ensures
            match r {
                Some(e) => self.spec_ident(e, kw@),
                None => !self.spec_has_entid(kw@),
            },
    {
        let mut i: usize = 0;
        while i < self.ident_map.len()
            invariant
                i <= self.ident_map@.len(),
                forall|j: int| 0 <= j < i ==> (#[trigger] self.ident_map@[j]).1@ != kw@,
            decreases self.ident_map@.len() - i,
        {
            if self.ident_map[i].1.eqv(kw) {
                return Some(self.ident_map[i].0);
            }
            i = i + 1;
        }
        None
    }

    /// Register `kw` as the ident of `e`: a fresh pair is appended, an
    /// entity's existing ident is overwritten in place. Re-pointing a
    /// keyword that already aliases a *different* entity is not yet
    /// handled and is rejected, so the bijection is kept.
    pub fn install_ident(&mut self, e: Entid, kw: Keyword) -> (r: Result<(), crate::types::StoreError>)
        requires
            old(self).wf(),
        ensures
            final(self).wf(),
            final(self).attribute_map == old(self).attribute_map,
            match r {
                Ok(()) => final(self).spec_ident(e, kw@) && (final(self).ident_map@ == old(
                    self,
                ).ident_map@ || final(self).ident_map@ == old(self).ident_map@.push((e, kw))
                    || exists|a: int|
                    0 <= a < old(self).ident_map@.len() && (#[trigger] old(self).ident_map@[a]).0
                        == e && final(self).ident_map@ == old(self).ident_map@.update(a, (e, kw))),
                Err(err) => {
                    &&& *final(self) == *old(self)
                    &&& err == crate::types::StoreError::DbError(
                        crate::types::DbErrorKind::NotYetImplemented(kw.name),
                    )
                    &&& exists|b: Entid| old(self).spec_ident(b, kw@) && b != e
                },
            },
    {
        match self.get_entid(&kw) {
            Some(b) => {
                if b != e {
                    return Err(crate::types::StoreError::DbError(
                        crate::types::DbErrorKind::NotYetImplemented(kw.name.clone()),
                    ));
                }
                proof {
                    assert(*self == *old(self));
                    assert(self.spec_ident(e, kw@));
                    assert(self.wf());
                }
                return Ok(());
            },
            None => {},
        }
        let mut a: usize = 0;
        while a < self.ident_map.len()
            invariant
                a <= self.ident_map@.len(),
                old(self) == self,
                old(self).wf(),
                !old(self).spec_has_entid(kw@),
                forall|j: int| 0 <= j < a ==> (#[trigger] self.ident_map@[j]).0 != e,
            decreases self.ident_map@.len() - a,
        {
            if self.ident_map[a].0 == e {
                self.ident_map.set(a, (e, kw));
                proof {
                    let ghost m = old(self).ident_map@;
                    assert(self.ident_map@ == m.update(a as int, (e, kw)));
                    assert(self.ident_map@[a as int] == (e, kw));
                    assert(self.spec_ident(e, kw@));
                    assert forall|i: int|
                        0 <= i < m.len() && i != a implies #[trigger] self.ident_map@[i]
                        == m[i] by {}
                    assert(m[a as int].0 == e);
                    assert forall|i: int, j: int|
                        0 <= i < j < self.ident_map@.len() implies (#[trigger] self.ident_map@[i]).0
                            != (#[trigger] self.ident_map@[j]).0 && self.ident_map@[i].1@
                            != self.ident_map@[j].1@ by {
                        if i != a && j != a {
                            assert(self.ident_map@[i] == m[i]);
                            assert(self.ident_map@[j] == m[j]);
                        } else if i == a {
                            assert(self.ident_map@[j] == old(self).ident_map@[j]);
                            assert((old(self).ident_map@[j]).1@ != kw@);
                            assert((old(self).ident_map@[a as int]).0 == e);
                            assert((old(self).ident_map@[j]).0 != e);
                        } else {
                            assert(self.ident_map@[i] == old(self).ident_map@[i]);
                            assert((old(self).ident_map@[i]).1@ != kw@);
                            assert((old(self).ident_map@[a as int]).0 == e);
                            assert((old(self).ident_map@[i]).0 != e);
                        }
                    }
                    assert(self.wf());
                }
                return Ok(());
            }
            a = a + 1;
        }
        let ghost m = self.ident_map@;
        self.ident_map.push((e, kw));
        proof {
            assert(self.ident_map@ == m.push((e, kw)));
            assert(self.ident_map@[m.len() as int] == (e, kw));
            assert(self.spec_ident(e, kw@));
            assert forall|i: int| 0 <= i < m.len() implies #[trigger] self.ident_map@[i]
                == m[i] by {}
            assert(self.wf());
        }
        Ok(())
    }
}

/// Two ident maps carry the same mappings, keyword for keyword.
pub open spec fn ident_views_eq(a: Seq<(Entid, Keyword)>, b: Seq<(Entid, Keyword)>) -> bool {
    &&& a.len() == b.len()
    &&& forall|i: int|
        0 <= i < a.len() ==> (#[trigger] a[i]).0 == (#[trigger] b[i]).0 && a[i].1@ == b[i].1@
}

/// Decide whether two schemas carry the same attributes and the same
/// ident mappings.
pub fn schema_eq(a: &Schema, b: &Schema) -> (r: bool)
    ensures
        r == (a.attribute_map@ == b.attribute_map@ && ident_views_eq(a.ident_map@, b.ident_map@)),
{
    if a.attribute_map.len() != b.attribute_map.len() {
        return false;
    }
    if a.ident_map.len() != b.ident_map.len() {
        return false;
    }
    let mut i: usize = 0;
    while i < a.attribute_map.len()
        invariant
            i <= a.attribute_map@.len(),
            a.attribute_map@.len() == b.attribute_map@.len(),
            a.ident_map@.len() == b.ident_map@.len(),
            forall|j: int| 0 <= j < i ==> #[trigger] a.attribute_map@[j] == b.attribute_map@[j],
        decreases a.attribute_map@.len() - i,
    {
        let pa = a.attribute_map[i];
        let pb = b.attribute_map[i];
        if pa.0 != pb.0 || !pa.1.value_type.eqv(pb.1.value_type) || pa.1.fulltext != pb.1.fulltext {
            proof {
                assert(a.attribute_map@[i as int] != b.attribute_map@[i as int]);
            }
            return false;
        }
        i = i + 1;
    }
    proof {
        assert(a.attribute_map@ =~= b.attribute_map@);
    }
    let mut i: usize = 0;
    while i < a.ident_map.len()
        invariant
            i <= a.ident_map@.len(),
            a.attribute_map@ == b.attribute_map@,
            a.ident_map@.len() == b.ident_map@.len(),
            forall|j: int|
                0 <= j < i ==> (#[trigger] a.ident_map@[j]).0 == (#[trigger] b.ident_map@[j]).0
                    && a.ident_map@[j].1@ == b.ident_map@[j].1@,
        decreases a.ident_map@.len() - i,
    {
        if a.ident_map[i].0 != b.ident_map[i].0 || !a.ident_map[i].1.eqv(&b.ident_map[i].1) {
            return false;
        }
        i = i + 1;
    }
    true
}

/// `install_ident` never removes an entity's ident: whatever entity had
/// one before the call still has one after it.
pub proof fn lemma_has_ident_preserved(
    before: Schema,
    after: Schema,
    e2: Entid,
    kw2: Keyword,
    e: Entid,
)
    requires
        after.ident_map@ == before.ident_map@ || after.ident_map@ == before.ident_map@.push(
            (e2, kw2),
        ) || exists|a: int|
            0 <= a < before.ident_map@.len() && (#[trigger] before.ident_map@[a]).0 == e2
                && after.ident_map@ == before.ident_map@.update(a, (e2, kw2)),
        before.spec_has_ident(e),
    ensures
        after.spec_has_ident(e),
{
    let i = choose|i: int|
        0 <= i < before.ident_map@.len() && (#[trigger] before.ident_map@[i]).0 == e;
    if after.ident_map@ == before.ident_map@ || after.ident_map@ == before.ident_map@.push(
        (e2, kw2),
    ) {
        assert((after.ident_map@[i]).0 == e);
    } else {
        let a = choose|a: int|
            0 <= a < before.ident_map@.len() && (#[trigger] before.ident_map@[a]).0 == e2
                && after.ident_map@ == before.ident_map@.update(a, (e2, kw2));
        if i == a {
            assert((after.ident_map@[i]).0 == e2 && e2 == e);
        } else {
            assert((after.ident_map@[i]).0 == e);
        }
    }
}

/// Under `wf()`, at most one attribute is registered per entid.
pub proof fn lemma_attribute_unique(s: Schema, e: Entid, a1: Attribute, a2: Attribute)
    requires
        s.wf(),
        s.spec_attribute(e, a1),
        s.spec_attribute(e, a2),
    ensures
        a1 == a2,
{
    let i = choose|i: int|
        0 <= i < s.attribute_map@.len() && #[trigger] s.attribute_map@[i] == (e, a1);
    let j = choose|j: int|
        0 <= j < s.attribute_map@.len() && #[trigger] s.attribute_map@[j] == (e, a2);
    if i != j {
        assert(s.attribute_map@[i].0 == s.attribute_map@[j].0);
    }
}

/// Under `wf()`, a keyword aliases at most one entity.
pub proof fn lemma_ident_unique_by_keyword(
    s: Schema,
    e1: Entid,
    e2: Entid,
    kw: (Seq<char>, Seq<char>),
)
    requires
        s.wf(),
        s.spec_ident(e1, kw),
        s.spec_ident(e2, kw),
    ensures
        e1 == e2,
{
    let i = choose|i: int|
        0 <= i < s.ident_map@.len() && (#[trigger] s.ident_map@[i]).0 == e1 && s.ident_map@[i].1@
            == kw;
    let j = choose|j: int|
        0 <= j < s.ident_map@.len() && (#[trigger] s.ident_map@[j]).0 == e2 && s.ident_map@[j].1@
            == kw;
    if i != j {
        assert(s.ident_map@[i].1@ == s.ident_map@[j].1@);
    }
}

/// The schema a freshly bootstrapped store carries: the system idents
/// and the attributes the core itself uses.
pub fn bootstrap_schema() -> (r: Result<Schema, StoreError>)
    ensures
        r matches Ok(s) ==> {
            &&& s.wf()
            &&& s.spec_attribute(
                crate::types::DB_IDENT,
                Attribute { value_type: ValueType::Keyword, fulltext: false },
            )
            &&& s.spec_attribute(
                crate::types::DB_DOC,
                Attribute { value_type: ValueType::Text, fulltext: true },
            )
            &&& s.spec_attribute(
                crate::types::DB_TX_INSTANT,
                Attribute { value_type: ValueType::Instant, fulltext: false },
            )
            &&& s.spec_attribute(
                crate::types::DB_SCHEMA_ATTRIBUTE,
                Attribute { value_type: ValueType::Ref, fulltext: false },
            )
            &&& s.spec_ident(crate::types::DB_IDENT, ("db"@, "ident"@))
        },
{
    let mut s = Schema { attribute_map: Vec::new(), ident_map: Vec::new() };
    s.attribute_map.push(
        (crate::types::DB_IDENT, Attribute { value_type: ValueType::Keyword, fulltext: false }),
    );
    s.attribute_map.push(
        (crate::types::DB_DOC, Attribute { value_type: ValueType::Text, fulltext: true }),
    );
    s.attribute_map.push(
        (crate::types::DB_TX_INSTANT, Attribute { value_type: ValueType::Instant, fulltext: false }),
    );
    s.attribute_map.push(
        (
            crate::types::DB_SCHEMA_ATTRIBUTE,
            Attribute { value_type: ValueType::Ref, fulltext: false },
        ),
    );
    proof {
        assert(s.wf());
        assert(s.attribute_map@[0] == (
            crate::types::DB_IDENT,
            Attribute { value_type: ValueType::Keyword, fulltext: false },
        ));
        assert(s.attribute_map@[1] == (
            crate::types::DB_DOC,
            Attribute { value_type: ValueType::Text, fulltext: true },
        ));
        assert(s.attribute_map@[2] == (
            crate::types::DB_TX_INSTANT,
            Attribute { value_type: ValueType::Instant, fulltext: false },
        ));
        assert(s.attribute_map@[3] == (
            crate::types::DB_SCHEMA_ATTRIBUTE,
            Attribute { value_type: ValueType::Ref, fulltext: false },
        ));
        assert(s.spec_attribute(
            crate::types::DB_IDENT,
            Attribute { value_type: ValueType::Keyword, fulltext: false },
        ));
        assert(s.spec_attribute(
            crate::types::DB_DOC,
            Attribute { value_type: ValueType::Text, fulltext: true },
        ));
        assert(s.spec_attribute(
            crate::types::DB_TX_INSTANT,
            Attribute { value_type: ValueType::Instant, fulltext: false },
        ));
        assert(s.spec_attribute(
            crate::types::DB_SCHEMA_ATTRIBUTE,
            Attribute { value_type: ValueType::Ref, fulltext: false },
        ));
    }
    let names: Vec<(i64, &str, &str)> = vec![
        (0i64, "db.part", "db"),
        (2i64, "db", "doc"),
        (3i64, "db", "txInstant"),
        (4i64, "db.install", "partition"),
        (5i64, "db.install", "valueType"),
        (6i64, "db.install", "attribute"),
        (7i64, "db", "valueType"),
        (8i64, "db", "cardinality"),
        (9i64, "db", "unique"),
        (10i64, "db", "isComponent"),
        (11i64, "db", "index"),
        (12i64, "db", "fulltext"),
        (13i64, "db", "noHistory"),
        (14i64, "db.schema", "attribute"),
    ];
    let mut i: usize = 0;
    while i < names.len()
        invariant
            s.wf(),
            s.spec_attribute(
                crate::types::DB_IDENT,
                Attribute { value_type: ValueType::Keyword, fulltext: false },
            ),
            s.spec_attribute(
                crate::types::DB_DOC,
                Attribute { value_type: ValueType::Text, fulltext: true },
            ),
            s.spec_attribute(
                crate::types::DB_TX_INSTANT,
                Attribute { value_type: ValueType::Instant, fulltext: false },
            ),
            s.spec_attribute(
                crate::types::DB_SCHEMA_ATTRIBUTE,
                Attribute { value_type: ValueType::Ref, fulltext: false },
            ),
        decreases names@.len() - i,
    {
        let entry = names[i];
        match s.install_ident(entry.0, Keyword::new(entry.1, entry.2)) {
            Ok(()) => {},
            Err(e) => {
                return Err(e);
            },
        }
        i = i + 1;
    }
    // Installed last, so its mapping is pinned without tracking it
    // through the loop.
    match s.install_ident(crate::types::DB_IDENT, Keyword::new("db", "ident")) {
        Ok(()) => {},
        Err(e) => {
            return Err(e);
        },
    }
    Ok(s)
}

} // verus!
