//! Parser, ordering, fulltext and debug-view tests.

use mentat::conn::Conn;
use mentat::debug;
use mentat::edn::{self, Value};
use mentat::types::{Keyword, StoreError, TypedValue, TAG_LONG, TX0};

fn new_store() -> (rusqlite::Connection, Conn) {
    let mut sqlite = rusqlite::Connection::open_in_memory().unwrap();
    let conn = Conn::connect(&mut sqlite).unwrap();
    (sqlite, conn)
}

#[test]
fn test_edn_parse_values() {
    assert_eq!(edn::parse("42"), Ok(Value::Integer(42)));
    assert_eq!(edn::parse("-7"), Ok(Value::Integer(-7)));
    assert_eq!(edn::parse("true"), Ok(Value::Boolean(true)));
    assert_eq!(edn::parse("\"hi\\nthere\""), Ok(Value::Text("hi\nthere".to_string())));
    assert_eq!(
        edn::parse(":a/b"),
        Ok(Value::NamespacedKeyword(Keyword::new("a", "b")))
    );
    assert_eq!(edn::parse(":find"), Ok(Value::PlainKeyword("find".to_string())));
    assert_eq!(edn::parse("?x"), Ok(Value::PlainSymbol("?x".to_string())));
    let v = edn::parse("[1, [2 3], {:a/b \"t\"}]").unwrap();
    assert_eq!(
        v,
        Value::Vector(vec![
            Value::Integer(1),
            Value::Vector(vec![Value::Integer(2), Value::Integer(3)]),
            Value::MapForm(vec![(
                Value::NamespacedKeyword(Keyword::new("a", "b")),
                Value::Text("t".to_string())
            )]),
        ])
    );
}

#[test]
fn test_edn_parse_errors() {
    assert!(matches!(edn::parse("["), Err(StoreError::EdnParseError(_))));
    assert!(matches!(edn::parse(""), Err(StoreError::EdnParseError(_))));
    assert!(matches!(edn::parse("[] x"), Err(StoreError::EdnParseError(_))));
    assert!(matches!(edn::parse("\"open"), Err(StoreError::EdnParseError(_))));
    // An integer too large for the value space.
    assert!(matches!(
        edn::parse("99999999999999999999999"),
        Err(StoreError::EdnParseError(_))
    ));
    assert_eq!(edn::parse("9223372036854775807"), Ok(Value::Integer(i64::MAX)));
}

#[test]
fn test_datoms_view_is_sorted_and_omits_tx_instants() {
    let (mut sqlite, mut conn) = new_store();
    conn.transact(
        &mut sqlite,
        "[[:db/add \"b\" :db/ident :o/bee] [:db/add \"a\" :db/ident :o/aye]]",
    )
    .unwrap();
    conn.transact(&mut sqlite, "[[:db/add 10 :db.schema/attribute \"c\"]]").unwrap();

    let schema = conn.current_schema();
    let datoms = debug::datoms_after(&sqlite, &schema, TX0).unwrap();
    assert!(datoms.0.len() >= 3);
    for window in datoms.0.windows(2) {
        let x = &window[0];
        let y = &window[1];
        assert!(
            (x.e_num, x.a_num, x.vkey_tag) <= (y.e_num, y.a_num, y.vkey_tag),
            "snapshot view out of order"
        );
    }
    for d in &datoms.0 {
        assert_ne!(d.a_num, 3, "txInstant datoms do not belong in the snapshot view");
        assert!(d.tx > TX0);
    }
}

#[test]
fn test_transactions_view_groups_by_tx() {
    let (mut sqlite, mut conn) = new_store();
    let r1 = conn.transact(&mut sqlite, "[[:db/add \"a\" :db/ident :h/one]]").unwrap();
    let r2 = conn.transact(&mut sqlite, "[[:db/add \"b\" :db/ident :h/two]]").unwrap();
    assert_eq!(r2.tx_id, r1.tx_id + 1);

    let schema = conn.current_schema();
    let txes = debug::transactions_after(&sqlite, &schema, TX0).unwrap();
    assert_eq!(txes.0.len(), 2);
    for group in &txes.0 {
        assert!(!group.0.is_empty());
        let tx = group.0[0].tx;
        assert!(group.0.iter().all(|d| d.tx == tx));
        // Each transaction includes its txInstant datom.
        assert!(group.0.iter().any(|d| d.a_num == 3));
        // The history view carries the added flag.
        assert!(group.0.iter().all(|d| d.added == Some(true)));
    }
    assert_eq!(txes.0[0].0[0].tx, r1.tx_id);
    assert_eq!(txes.0[1].0[0].tx, r2.tx_id);
}

#[test]
fn test_retraction_sorts_before_assertion() {
    let (mut sqlite, mut conn) = new_store();
    conn.transact(&mut sqlite, "[[:db/add 10 :db.schema/attribute \"t\"]]").unwrap();
    // Retract and re-assert the same datom in one transaction.
    let t = "[[:db/retract 10 :db.schema/attribute 268435456] \
              [:db/add 10 :db.schema/attribute 268435456]]";
    conn.transact(&mut sqlite, t).unwrap();

    let schema = conn.current_schema();
    let txes = debug::transactions_after(&sqlite, &schema, TX0).unwrap();
    let last = txes.0.last().unwrap();
    let flags: Vec<Option<bool>> = last
        .0
        .iter()
        .filter(|d| d.a_num == 14)
        .map(|d| d.added)
        .collect();
    assert_eq!(flags, vec![Some(false), Some(true)]);
}

#[test]
fn test_fulltext_value_normalization() {
    let (mut sqlite, mut conn) = new_store();
    conn.transact(&mut sqlite, "[[:db/add 10 :db/doc \"hello world\"]]").unwrap();

    let schema = conn.current_schema();
    let datoms = debug::datoms_after(&sqlite, &schema, TX0).unwrap();
    let doc: Vec<&debug::Datom> = datoms.0.iter().filter(|d| d.a_num == 2).collect();
    assert_eq!(doc.len(), 1);
    // The emitted value is the resolved string; the ordering tag is the
    // semantic long tag of the stored row-id surrogate.
    assert_eq!(doc[0].v, TypedValue::Text("hello world".to_string()));
    assert_eq!(doc[0].vkey_tag, TAG_LONG);

    // The fulltext listing holds the text, keyed by row id.
    let values = debug::fulltext_values(&sqlite).unwrap();
    assert_eq!(values.0.len(), 1);
    assert_eq!(values.0[0].1, "hello world");

    // A direct lookup resolves the surrogate too.
    let looked = conn
        .lookup_value_for_attribute(&sqlite, 10, &Keyword::new("db", "doc"))
        .unwrap();
    assert_eq!(looked, Some(TypedValue::Text("hello world".to_string())));
}

#[test]
fn test_into_edn_renders_idents() {
    let (mut sqlite, mut conn) = new_store();
    let report = conn.transact(&mut sqlite, "[[:db/add \"e\" :db/ident :r/thing]]").unwrap();
    let e = report.tempid("e").unwrap();

    let schema = conn.current_schema();
    let datoms = debug::datoms_after(&sqlite, &schema, TX0).unwrap();
    assert_eq!(datoms.0.len(), 1);
    let rendered = datoms.0[0].into_edn();
    assert_eq!(
        rendered,
        Value::Vector(vec![
            Value::Integer(e),
            Value::NamespacedKeyword(Keyword::new("db", "ident")),
            Value::NamespacedKeyword(Keyword::new("r", "thing")),
        ])
    );
    let all = datoms.into_edn();
    assert_eq!(all, Value::Vector(vec![rendered]));
}

#[test]
fn test_dump_sql_query_layout() {
    let (mut sqlite, mut conn) = new_store();
    conn.transact(&mut sqlite, "[[:db/add \"x\" :db/ident :q/dump]]").unwrap();
    let dump =
        debug::dump_sql_query(&sqlite, "SELECT e, a FROM datoms ORDER BY e", &vec![]).unwrap();
    assert!(dump.starts_with("SELECT e, a FROM datoms ORDER BY e"));
    let mut lines = dump.lines();
    lines.next();
    let header = lines.next().unwrap();
    assert!(header.contains("e") && header.contains("a"));
    // The tab writer aligned the columns: tabs are gone.
    assert!(!dump.contains('\t'));
}

#[test]
fn test_lost_transact_race_error() {
    let (mut sqlite, mut conn) = new_store();
    let mut sqlite2 = rusqlite::Connection::open_in_memory().unwrap();
    let _ = Conn::connect(&mut sqlite2).unwrap();
    // Stage against the current generation, then let another writer
    // advance the connection before the commit.
    let ip = conn.begin_transaction(&mut sqlite2).unwrap();
    let ip = ip.transact("[]").unwrap();
    conn.transact(&mut sqlite, "[]").unwrap();
    match ip.commit(&mut conn) {
        Err(StoreError::LostTransactRace) => {}
        x => panic!("expected a lost transact race, got {:?}", x),
    }
    // The failed commit left the metadata alone.
    assert_eq!(conn.metadata.generation, 1);
}

#[test]
fn test_keyword_round_trip() {
    let kw = Keyword::new("db.part", "user");
    assert_eq!(kw.namespace, "db.part");
    assert_eq!(kw.name, "user");
    match edn::parse(":db.part/user") {
        Ok(Value::NamespacedKeyword(parsed)) => assert_eq!(parsed, kw),
        x => panic!("expected a keyword, got {:?}", x),
    }
}

#[test]
fn test_datoms_includes_bootstrap_idents() {
    let (sqlite, conn) = new_store();
    let schema = conn.current_schema();
    let d = debug::datoms(&sqlite, &schema).unwrap();
    // The bootstrap idents are visible; their tx instants are not.
    assert!(d.0.iter().any(|x| x.e_num == 1));
    assert!(d.0.iter().all(|x| x.a_num != 3));
}

#[test]
fn test_lookup_unknown_attribute_binds_nothing() {
    let (sqlite, conn) = new_store();
    let looked = conn
        .lookup_value_for_attribute(&sqlite, 10, &Keyword::new("no", "such"))
        .unwrap();
    assert_eq!(looked, None);
}
