//! Core value model: entity ids, namespaced keywords, typed values and
//! their numeric storage tags.

use vstd::prelude::*;

verus! {

/// A signed 64-bit integer naming an entity, attribute or transaction.
pub type Entid = i64;

/// First entity id of the user partition.
pub const USER0: Entid = 0x10000000;

/// Entity id of the bootstrap transaction; first id of the transaction
/// partition.
pub const TX0: Entid = 0x10000000;

/// Largest entity id any partition may hand out.
pub const MAX_ENTID: Entid = 0x7fff_ffff_ffff_ffff;

/// Entid of the bootstrapped `:db/ident` attribute.
pub const DB_IDENT: Entid = 1;

/// Entid of the bootstrapped `:db/doc` attribute, a fulltext-indexed
/// string.
pub const DB_DOC: Entid = 2;

/// Entid of the bootstrapped `:db/txInstant` attribute.
pub const DB_TX_INSTANT: Entid = 3;

/// Entid of the bootstrapped `:db.install/partition` attribute.
pub const DB_INSTALL_PARTITION: Entid = 4;

/// Entid of the bootstrapped `:db.install/valueType` attribute.
pub const DB_INSTALL_VALUE_TYPE: Entid = 5;

/// Entid of the bootstrapped `:db.install/attribute` attribute.
pub const DB_INSTALL_ATTRIBUTE: Entid = 6;

/// Entid of the bootstrapped `:db/valueType` attribute.
pub const DB_VALUE_TYPE: Entid = 7;

/// Entid of the bootstrapped `:db/cardinality` attribute.
pub const DB_CARDINALITY: Entid = 8;

/// Entid of the bootstrapped `:db/unique` attribute.
pub const DB_UNIQUE: Entid = 9;

/// Entid of the bootstrapped `:db/isComponent` attribute.
pub const DB_IS_COMPONENT: Entid = 10;

/// Entid of the bootstrapped `:db/index` attribute.
pub const DB_INDEX: Entid = 11;

/// Entid of the bootstrapped `:db/fulltext` attribute.
pub const DB_FULLTEXT: Entid = 12;

/// Entid of the bootstrapped `:db/noHistory` attribute.
pub const DB_NO_HISTORY: Entid = 13;

/// Entid of the bootstrapped `:db.schema/attribute` attribute.
pub const DB_SCHEMA_ATTRIBUTE: Entid = 14;

/// One past the highest bootstrapped system entid.
pub const DB_NEXT: Entid = 15;

/// A namespaced keyword `namespace/name` that may alias an entity id.
#[derive(Debug, PartialEq, Eq, Hash)]
pub struct Keyword {
    pub namespace: String,
    pub name: String,
}

impl Clone for Keyword {
    fn clone(&self) -> (res: Self)
        ensures
            res == *self,
    {
        Keyword { namespace: self.namespace.clone(), name: self.name.clone() }
    }
}

impl View for Keyword {
    type V = (Seq<char>, Seq<char>);

    open spec fn view(&self) -> (Seq<char>, Seq<char>) {
        (self.namespace@, self.name@)
    }
}

impl Keyword {
    pub fn new(namespace: &str, name: &str) -> (r: Keyword)
        ensures
            r@ == (namespace@, name@),
    {
        Keyword { namespace: namespace.to_owned(), name: name.to_owned() }
    }

    /// The stored text of this keyword: `namespace/name`.
    pub fn to_text(&self) -> (r: String)
        ensures
            r@ == self.namespace@ + "/"@ + self.name@,
    {
        let t = self.namespace.clone();
        let t2 = t.concat("/");
        let t3 = t2.concat(self.name.as_str());
        t3
    }

    /// Structural equality, usable from verified code.
    pub fn eqv(&self, other: &Keyword) -> (r: bool)
        ensures
            r == (self@ == other@),
    {
        let same = self.namespace == other.namespace && self.name == other.name;
        same
    }
}

/// The value type of an attribute.
#[derive(Clone, Copy, Debug, PartialEq, Eq)]
pub enum ValueType {
    Ref,
    Boolean,
    Instant,
    Long,
    Text,
    Keyword,
}

/// Storage tag of a reference value.
pub const TAG_REF: i64 = 0;

/// Storage tag of a boolean value.
pub const TAG_BOOLEAN: i64 = 1;

/// Storage tag of an instant value.
pub const TAG_INSTANT: i64 = 4;

/// Storage tag of an integer value; also the semantic tag of the
/// row-id surrogate that a fulltext attribute stores.
pub const TAG_LONG: i64 = 5;

/// Storage tag of a string value; doubles as the fulltext pointer tag on
/// datoms of fulltext attributes, whose stored value is a string row id.
pub const TAG_TEXT: i64 = 10;

/// Storage tag of a keyword value.
pub const TAG_KEYWORD: i64 = 13;

/// The internal numeric tag under which a value of this type is stored.
pub open spec fn spec_value_type_tag(t: ValueType) -> i64 {
    match t {
        ValueType::Ref => TAG_REF,
        ValueType::Boolean => TAG_BOOLEAN,
        ValueType::Instant => TAG_INSTANT,
        ValueType::Long => TAG_LONG,
        ValueType::Text => TAG_TEXT,
        ValueType::Keyword => TAG_KEYWORD,
    }
}

impl ValueType {
    /// Structural equality, usable from verified code.
    pub fn eqv(self, other: ValueType) -> (r: bool)
        ensures
            r == (self == other),
    {
        match (self, other) {
            (ValueType::Ref, ValueType::Ref) => true,
            (ValueType::Boolean, ValueType::Boolean) => true,
            (ValueType::Instant, ValueType::Instant) => true,
            (ValueType::Long, ValueType::Long) => true,
            (ValueType::Text, ValueType::Text) => true,
            (ValueType::Keyword, ValueType::Keyword) => true,
            _ => false,
        }
    }

    pub fn value_type_tag(self) -> (r: i64)
        ensures
            r == spec_value_type_tag(self),
    {
        match self {
            ValueType::Ref => TAG_REF,
            ValueType::Boolean => TAG_BOOLEAN,
            ValueType::Instant => TAG_INSTANT,
            ValueType::Long => TAG_LONG,
            ValueType::Text => TAG_TEXT,
            ValueType::Keyword => TAG_KEYWORD,
        }
    }
}

/// A typed value carried by a datom.
#[derive(Debug, PartialEq, Eq)]
pub enum TypedValue {
    Ref(Entid),
    Boolean(bool),
    Long(i64),
    Instant(i64),
    Text(String),
    Keyword(Keyword),
}

impl Clone for TypedValue {
    fn clone(&self) -> (res: Self)
        ensures
            res == *self,
    {
        match self {
            TypedValue::Ref(x) => TypedValue::Ref(*x),
            TypedValue::Boolean(x) => TypedValue::Boolean(*x),
            TypedValue::Long(x) => TypedValue::Long(*x),
            TypedValue::Instant(x) => TypedValue::Instant(*x),
            TypedValue::Text(x) => TypedValue::Text(x.clone()),
            TypedValue::Keyword(x) => TypedValue::Keyword(x.clone()),
        }
    }
}

/// Structural equality of typed values, for contracts.
pub open spec fn tv_eq(a: TypedValue, b: TypedValue) -> bool {
    match (a, b) {
        (TypedValue::Ref(x), TypedValue::Ref(y)) => x == y,
        (TypedValue::Boolean(x), TypedValue::Boolean(y)) => x == y,
        (TypedValue::Long(x), TypedValue::Long(y)) => x == y,
        (TypedValue::Instant(x), TypedValue::Instant(y)) => x == y,
        (TypedValue::Text(x), TypedValue::Text(y)) => x@ == y@,
        (TypedValue::Keyword(x), TypedValue::Keyword(y)) => x@ == y@,
        _ => false,
    }
}

impl TypedValue {
    /// Structural equality, usable from verified code.
    pub fn eqv(&self, other: &TypedValue) -> (r: bool)
        ensures
            r == tv_eq(*self, *other),
    {
        match (self, other) {
            (TypedValue::Ref(x), TypedValue::Ref(y)) => *x == *y,
            (TypedValue::Boolean(x), TypedValue::Boolean(y)) => *x == *y,
            (TypedValue::Long(x), TypedValue::Long(y)) => *x == *y,
            (TypedValue::Instant(x), TypedValue::Instant(y)) => *x == *y,
            (TypedValue::Text(x), TypedValue::Text(y)) => *x == *y,
            (TypedValue::Keyword(x), TypedValue::Keyword(y)) => x.eqv(y),
            _ => false,
        }
    }
}

/// The sub-kinds of a database error.
#[derive(Clone, Debug, PartialEq, Eq)]
pub enum DbErrorKind {
    /// The caller named an entity id outside every partition's allocated
    /// range — even one equal to the next index to be handed out.
    UnrecognizedEntid(Entid),
    /// An attribute keyword that the schema does not know.
    UnrecognizedIdent(Keyword),
    /// An entid in attribute position that no attribute is registered
    /// under.
    UnknownAttribute(Entid),
    /// Valid-shaped input that the transactor cannot yet handle, such as
    /// conflicting upsert resolution; carries the offending tempid.
    NotYetImplemented(String),
    /// A partition has no ids left to hand out.
    PartitionExhausted,
}

/// The errors the store surfaces.
#[derive(Clone, Debug, PartialEq, Eq)]
pub enum StoreError {
    /// Malformed data-notation input; carries the byte offset of the fault.
    EdnParseError(usize),
    /// Data notation that parses but is not a valid transaction form;
    /// carries the index of the offending top-level form.
    TxParseError(usize),
    /// A database-level fault.
    DbError(DbErrorKind),
    /// The commit-time generation check failed: another writer advanced
    /// the store between `begin_transaction` and `commit`.
    LostTransactRace,
    /// A failure surfaced by the relational substrate.
    Substrate(String),
}

} // verus!
