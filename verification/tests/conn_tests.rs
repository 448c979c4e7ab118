//! Connection and transaction tests over an in-memory store.

use mentat::conn::Conn;
use mentat::query::QueryResults;
use mentat::types::{DbErrorKind, Keyword, StoreError, TypedValue};

fn new_store() -> (rusqlite::Connection, Conn) {
    let mut sqlite = rusqlite::Connection::open_in_memory().unwrap();
    let conn = Conn::connect(&mut sqlite).unwrap();
    (sqlite, conn)
}

/// Return the entid that will be allocated to the next transacted tempid.
fn get_next_entid(conn: &Conn) -> i64 {
    conn.metadata.partition_map.get(":db.part/user").unwrap().index
}

#[test]
fn test_transact_does_not_collide_existing_entids() {
    let (mut sqlite, mut conn) = new_store();

    // Let's find out the next ID that'll be allocated. We're going to try to collide with it
    // a bit later.
    let next = conn.metadata.partition_map.get(":db.part/user").unwrap().index;
    let t = format!("[[:db/add {} :db.schema/attribute \"tempid\"]]", next + 1);

    match conn.transact(&mut sqlite, t.as_str()).unwrap_err() {
        StoreError::DbError(DbErrorKind::UnrecognizedEntid(e)) => {
            assert_eq!(e, next + 1);
        }
        x => panic!("expected transact error, got {:?}", x),
    }

    // Transact two more tempids.
    let t = "[[:db/add \"one\" :db.schema/attribute \"more\"]]";
    let report = conn.transact(&mut sqlite, t).expect("transact succeeded");
    assert_eq!(report.tempid("more").unwrap(), next);
    assert_eq!(report.tempid("one").unwrap(), next + 1);
}

#[test]
fn test_transact_does_not_collide_new_entids() {
    let (mut sqlite, mut conn) = new_store();

    // Let's find out the next ID that'll be allocated. We're going to try to collide with it.
    let next = conn.metadata.partition_map.get(":db.part/user").unwrap().index;

    // We should reject this, because the ID was provided by the user!
    let t = format!("[[:db/add {} :db.schema/attribute \"tempid\"]]", next);

    match conn.transact(&mut sqlite, t.as_str()).unwrap_err() {
        StoreError::DbError(DbErrorKind::UnrecognizedEntid(e)) => {
            // All this, despite this being the ID we were about to allocate!
            assert_eq!(e, next);
        }
        x => panic!("expected transact error, got {:?}", x),
    }

    // And if we subsequently transact in a way that allocates one ID, we _will_ use that one.
    // Note that `10` is a bootstrapped entid; we use it here as a known-good value.
    let t = "[[:db/add 10 :db.schema/attribute \"temp\"]]";
    let report = conn.transact(&mut sqlite, t).expect("transact succeeded");
    assert_eq!(report.tempid("temp").unwrap(), next);
}

#[test]
fn test_compound_transact() {
    let (mut sqlite, mut conn) = new_store();

    let tempid_offset = get_next_entid(&conn);

    let t = "[[:db/add \"one\" :db/ident :a/keyword1] \
              [:db/add \"two\" :db/ident :a/keyword2]]";

    // This can refer to `t`, 'cos they occur in separate txes.
    let t2 = "[{:db.schema/attribute \"three\", :db/ident :a/keyword1}]";

    // Scoped borrow of `sqlite`.
    {
        let in_progress = conn.begin_transaction(&mut sqlite).expect("begun successfully");
        let in_progress = in_progress.transact(t).expect("transacted successfully");
        let one = in_progress.last_report().unwrap().tempid("one").expect("found one");
        let two = in_progress.last_report().unwrap().tempid("two").expect("found two");
        assert!(one != two);
        assert!(one == tempid_offset || one == tempid_offset + 1);
        assert!(two == tempid_offset || two == tempid_offset + 1);

        let during = in_progress
            .q_once("[:find ?x . :where [?x :db/ident :a/keyword1]]")
            .expect("query succeeded");
        assert_eq!(during, QueryResults::Scalar(Some(TypedValue::Ref(one))));

        let in_progress = in_progress.transact(t2).expect("t2 succeeded");
        let report = in_progress.commit(&mut conn).expect("commit succeeded");
        let three = report.unwrap().tempid("three").expect("found three");
        assert!(one != three);
        assert!(two != three);
    }

    // The DB part table changed.
    let tempid_offset_after = get_next_entid(&conn);
    assert_eq!(tempid_offset + 3, tempid_offset_after);
}

#[test]
fn test_compound_rollback() {
    let (mut sqlite, mut conn) = new_store();

    let tempid_offset = get_next_entid(&conn);

    // Nothing in the store => USER0 should be our starting point.
    assert_eq!(tempid_offset, 0x10000000);

    let t = "[[:db/add \"one\" :db/ident :a/keyword1] \
              [:db/add \"two\" :db/ident :a/keyword2]]";

    // Scoped borrow of `sqlite`.
    {
        let in_progress = conn.begin_transaction(&mut sqlite).expect("begun successfully");
        let in_progress = in_progress.transact(t).expect("transacted successfully");

        let one = in_progress.last_report().unwrap().tempid("one").expect("found it");
        let two = in_progress.last_report().unwrap().tempid("two").expect("found it");

        // The IDs are contiguous, starting at the previous part index.
        assert!(one != two);
        assert!(one == tempid_offset || one == tempid_offset + 1);
        assert!(two == tempid_offset || two == tempid_offset + 1);

        // Inside the InProgress we can see our changes.
        let during = in_progress
            .q_once("[:find ?x . :where [?x :db/ident :a/keyword1]]")
            .expect("query succeeded");
        assert_eq!(during, QueryResults::Scalar(Some(TypedValue::Ref(one))));

        // And we can do direct lookup, too.
        let kw = in_progress
            .lookup_value_for_attribute(one, &Keyword::new("db", "ident"))
            .expect("lookup succeeded");
        assert_eq!(kw, Some(TypedValue::Keyword(Keyword::new("a", "keyword1"))));

        in_progress.rollback().expect("rollback succeeded");
    }

    let after = conn
        .q_once(&sqlite, "[:find ?x . :where [?x :db/ident :a/keyword1]]")
        .expect("query succeeded");
    assert_eq!(after, QueryResults::Scalar(None));

    // The DB part table is unchanged.
    let tempid_offset_after = get_next_entid(&conn);
    assert_eq!(tempid_offset, tempid_offset_after);
}

#[test]
fn test_transact_errors() {
    let (mut sqlite, mut conn) = new_store();

    // Good: empty transaction.
    let report = conn.transact(&mut sqlite, "[]").unwrap();
    assert_eq!(report.tx_id, 0x10000000 + 1);

    // Bad EDN: missing closing ']'.
    let report = conn.transact(&mut sqlite, "[[:db/add \"t\" :db/ident :a/keyword]");
    match report.unwrap_err() {
        StoreError::EdnParseError(_) => {}
        x => panic!("expected EDN parse error, got {:?}", x),
    }

    // Good EDN.
    let report = conn.transact(&mut sqlite, "[[:db/add \"t\" :db/ident :a/keyword]]").unwrap();
    assert_eq!(report.tx_id, 0x10000000 + 2);

    // Bad transaction data: missing leading :db/add.
    let report = conn.transact(&mut sqlite, "[[\"t\" :db/ident :b/keyword]]");
    match report.unwrap_err() {
        StoreError::TxParseError(_) => {}
        x => panic!("expected transaction parse error, got {:?}", x),
    }

    // Good transaction data.
    let report = conn.transact(&mut sqlite, "[[:db/add \"u\" :db/ident :b/keyword]]").unwrap();
    assert_eq!(report.tx_id, 0x10000000 + 3);

    // Bad transaction based on state of store: conflicting upsert.
    let report = conn.transact(
        &mut sqlite,
        "[[:db/add \"u\" :db/ident :a/keyword]
          [:db/add \"u\" :db/ident :b/keyword]]",
    );
    match report.unwrap_err() {
        StoreError::DbError(DbErrorKind::NotYetImplemented(_)) => {}
        x => panic!("expected conflicting-upsert error, got {:?}", x),
    }
}

#[test]
fn test_empty_commit_advances_tx_only() {
    let (mut sqlite, mut conn) = new_store();
    let user_index = get_next_entid(&conn);
    let report = conn.transact(&mut sqlite, "[]").unwrap();
    assert_eq!(report.tx_id, 0x10000000 + 1);
    assert!(report.tempid("anything").is_none());
    // The user partition did not move.
    assert_eq!(get_next_entid(&conn), user_index);
}

#[test]
fn test_generation_monotonicity() {
    let (mut sqlite, mut conn) = new_store();
    assert_eq!(conn.metadata.generation, 0);
    conn.transact(&mut sqlite, "[]").unwrap();
    assert_eq!(conn.metadata.generation, 1);
    conn.transact(&mut sqlite, "[[:db/add \"x\" :db/ident :g/one]]").unwrap();
    assert_eq!(conn.metadata.generation, 2);
    // A failed attempt leaves the generation unchanged.
    let _ = conn.transact(&mut sqlite, "[[:db/add").unwrap_err();
    assert_eq!(conn.metadata.generation, 2);
    // A rolled-back transaction leaves it unchanged too.
    {
        let ip = conn.begin_transaction(&mut sqlite).unwrap();
        let ip = ip.transact("[[:db/add \"y\" :db/ident :g/two]]").unwrap();
        ip.rollback().unwrap();
    }
    assert_eq!(conn.metadata.generation, 2);
}

#[test]
fn test_snapshot_stability() {
    let (mut sqlite, mut conn) = new_store();
    let snapshot = conn.current_schema();
    assert!(snapshot.get_entid(&Keyword::new("s", "new")).is_none());
    conn.transact(&mut sqlite, "[[:db/add \"n\" :db/ident :s/new]]").unwrap();
    // The new schema knows the ident; the old snapshot is unchanged.
    assert!(conn.current_schema().get_entid(&Keyword::new("s", "new")).is_some());
    assert!(snapshot.get_entid(&Keyword::new("s", "new")).is_none());
}

#[test]
fn test_atomic_metadata_replacement() {
    let (mut sqlite, mut conn) = new_store();
    let before_index = get_next_entid(&conn);
    let report = conn.transact(&mut sqlite, "[[:db/add \"a\" :db/ident :m/pair]]").unwrap();
    // Partition map and schema advanced together.
    assert_eq!(get_next_entid(&conn), before_index + 1);
    assert_eq!(
        conn.metadata.schema.get_entid(&Keyword::new("m", "pair")).unwrap(),
        report.tempid("a").unwrap()
    );
}

#[test]
fn test_unknown_attribute_errors() {
    let (mut sqlite, mut conn) = new_store();
    // An attribute ident the schema has never seen.
    match conn.transact(&mut sqlite, "[[:db/add 10 :no/such 5]]").unwrap_err() {
        StoreError::DbError(DbErrorKind::UnrecognizedIdent(kw)) => {
            assert_eq!(kw, Keyword::new("no", "such"));
        }
        x => panic!("expected unrecognized ident, got {:?}", x),
    }
    // An entid that is no attribute: 7 is bootstrapped but carries no
    // attribute definition.
    match conn.transact(&mut sqlite, "[[:db/add 10 7 5]]").unwrap_err() {
        StoreError::DbError(DbErrorKind::UnknownAttribute(e)) => {
            assert_eq!(e, 7);
        }
        x => panic!("expected unknown attribute, got {:?}", x),
    }
}

#[test]
fn test_partition_map_names() {
    let (_sqlite, conn) = new_store();
    let pm = &conn.metadata.partition_map;
    assert_eq!(pm.get(":db.part/db").unwrap().start, 0);
    assert_eq!(pm.get(":db.part/user").unwrap().start, 0x10000000);
    assert_eq!(pm.get(":db.part/tx").unwrap().index, 0x10000000 + 1);
    assert!(pm.get(":db.part/nope").is_none());
}
