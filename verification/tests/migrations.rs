use crr_server::metadata::engine::{
    begin, resume, MigrationError, MigrationReply, MigrationRequest, MigrationRun, MigrationStep,
    LEDGER_EXISTS, LEDGER_MAX, RECORD_VERSION,
};
use rusqlite::{Connection, ToSql};

const INIT: &str = "CREATE TABLE metadata_migrations (version INTEGER);";

fn apply(conn: &Connection, version: i64, sql: &str) -> rusqlite::Result<()> {
    let transaction = conn.unchecked_transaction()?;
    transaction.execute_batch(sql)?;
    let params: &[(&str, &dyn ToSql)] = &[(":version", &version)];
    transaction.execute(RECORD_VERSION, params)?;
    transaction.commit()
}

fn perform(conn: &Connection, units: &[(&str, &str)], request: MigrationRequest) -> MigrationReply {
    match request {
        MigrationRequest::ListUnits => {
            MigrationReply::Units(units.iter().map(|(name, _)| name.to_string()).collect())
        },
        MigrationRequest::FindLedger => {
            match conn.query_row(LEDGER_EXISTS, (), |row| row.get::<_, i64>(0)) {
                Ok(tables) => MigrationReply::LedgerFound(tables > 0),
                Err(_) => MigrationReply::Failed,
            }
        },
        MigrationRequest::ReadLedgerMax => {
            match conn.query_row(LEDGER_MAX, (), |row| row.get::<_, Option<i64>>(0)) {
                Ok(latest) => MigrationReply::LedgerMax(latest),
                Err(_) => MigrationReply::Failed,
            }
        },
        MigrationRequest::ReadUnit { name } => {
            match units.iter().find(|(known, _)| *known == name) {
                Some((_, text)) => MigrationReply::UnitText(text.to_string()),
                None => MigrationReply::Failed,
            }
        },
        MigrationRequest::ApplyUnit { version, sql } => match apply(conn, version, &sql) {
            Ok(()) => MigrationReply::Succeeded,
            Err(_) => MigrationReply::Failed,
        },
    }
}

fn migrate(conn: &Connection, units: &[(&str, &str)]) -> Result<(), MigrationError> {
    let mut step = begin();
    loop {
        match step {
            MigrationStep::Done(result) => return result,
            MigrationStep::Ask(run, request) => {
                let reply = perform(conn, units, request);
                step = resume(run, reply);
            },
        }
    }
}

fn ledger(conn: &Connection) -> Vec<i64> {
    let mut statement =
        conn.prepare("SELECT version FROM metadata_migrations ORDER BY rowid").unwrap();
    let rows = statement.query_map((), |row| row.get::<_, i64>(0)).unwrap();
    rows.map(|row| row.unwrap()).collect()
}

fn tables(conn: &Connection) -> Vec<String> {
    let mut statement =
        conn.prepare("SELECT name FROM sqlite_master WHERE type = 'table' ORDER BY name").unwrap();
    let rows = statement.query_map((), |row| row.get::<_, String>(0)).unwrap();
    rows.map(|row| row.unwrap()).collect()
}

const UNITS: [(&str, &str); 4] = [
    ("000_init.sql", INIT),
    ("001_users.sql", "CREATE TABLE users (id INTEGER PRIMARY KEY, email TEXT UNIQUE, otp TEXT);"),
    ("002_tokens.sql", "CREATE TABLE tokens (user_id INTEGER, token TEXT, expires REAL);"),
    ("003_notes.sql", "CREATE TABLE notes (body TEXT); INSERT INTO notes VALUES ('hello');"),
];

#[test]
fn a_fresh_store_gets_every_unit_in_order() {
    let conn = Connection::open_in_memory().unwrap();
    assert_eq!(migrate(&conn, &UNITS), Ok(()));
    assert_eq!(ledger(&conn), vec![0, 1, 2, 3]);
    assert_eq!(tables(&conn), vec!["metadata_migrations", "notes", "tokens", "users"]);
}

#[test]
fn repeated_runs_change_nothing() {
    let conn = Connection::open_in_memory().unwrap();
    assert_eq!(migrate(&conn, &UNITS), Ok(()));
    let after_first = (ledger(&conn), tables(&conn));
    assert_eq!(migrate(&conn, &UNITS), Ok(()));
    assert_eq!(migrate(&conn, &UNITS), Ok(()));
    assert_eq!((ledger(&conn), tables(&conn)), after_first);
    let notes: i64 = conn.query_row("SELECT COUNT(*) FROM notes", (), |row| row.get(0)).unwrap();
    assert_eq!(notes, 1);
}

#[test]
fn a_later_run_applies_only_what_is_new() {
    let conn = Connection::open_in_memory().unwrap();
    assert_eq!(migrate(&conn, &UNITS[..2]), Ok(()));
    assert_eq!(ledger(&conn), vec![0, 1]);
    assert_eq!(migrate(&conn, &UNITS), Ok(()));
    assert_eq!(ledger(&conn), vec![0, 1, 2, 3]);
}

#[test]
fn the_order_of_discovery_does_not_matter() {
    let sorted = Connection::open_in_memory().unwrap();
    assert_eq!(migrate(&sorted, &UNITS), Ok(()));
    let shuffles = [
        [UNITS[3], UNITS[2], UNITS[1], UNITS[0]],
        [UNITS[1], UNITS[3], UNITS[0], UNITS[2]],
        [UNITS[2], UNITS[0], UNITS[3], UNITS[1]],
    ];
    for shuffle in shuffles.iter() {
        let conn = Connection::open_in_memory().unwrap();
        assert_eq!(migrate(&conn, shuffle), Ok(()));
        assert_eq!(ledger(&conn), ledger(&sorted));
        assert_eq!(tables(&conn), tables(&sorted));
    }
}

#[test]
fn a_failed_batch_stops_the_run() {
    let conn = Connection::open_in_memory().unwrap();
    let first = [
        ("000_init.sql", INIT),
        ("004_a.sql", "CREATE TABLE a (x INTEGER);"),
    ];
    assert_eq!(migrate(&conn, &first), Ok(()));
    assert_eq!(ledger(&conn), vec![0, 4]);

    let units = [
        ("006_c.sql", "CREATE TABLE c (x INTEGER);"),
        ("000_init.sql", INIT),
        ("005_b.sql", "CREATE TABLE b (x INTEGER); INSERT INTO nowhere VALUES (1);"),
        ("004_a.sql", "CREATE TABLE a (x INTEGER);"),
    ];
    assert_eq!(migrate(&conn, &units), Err(MigrationError::UnitFailed { version: 5 }));
    assert_eq!(ledger(&conn), vec![0, 4]);
    assert_eq!(tables(&conn), vec!["a", "metadata_migrations"]);

    assert_eq!(migrate(&conn, &units), Err(MigrationError::UnitFailed { version: 5 }));
    assert_eq!(ledger(&conn), vec![0, 4]);
}

#[test]
fn a_mended_unit_is_applied_by_the_next_run() {
    let conn = Connection::open_in_memory().unwrap();
    let broken = [("000_init.sql", INIT), ("001_a.sql", "CREATE TABLE;"), ("002_b.sql", "CREATE TABLE b (x);")];
    assert_eq!(migrate(&conn, &broken), Err(MigrationError::UnitFailed { version: 1 }));
    assert_eq!(ledger(&conn), vec![0]);
    let mended =
        [("000_init.sql", INIT), ("001_a.sql", "CREATE TABLE a (x);"), ("002_b.sql", "CREATE TABLE b (x);")];
    assert_eq!(migrate(&conn, &mended), Ok(()));
    assert_eq!(ledger(&conn), vec![0, 1, 2]);
}

#[test]
fn nothing_to_apply_is_success() {
    let conn = Connection::open_in_memory().unwrap();
    assert_eq!(migrate(&conn, &[]), Ok(()));
    assert_eq!(migrate(&conn, &[("README.md", "not sql"), ("notes.sql", "not a unit")]), Ok(()));
    assert_eq!(tables(&conn), Vec::<String>::new());
}

#[test]
fn the_first_unit_must_create_the_ledger() {
    let conn = Connection::open_in_memory().unwrap();
    let units = [("000_users.sql", "CREATE TABLE users (id INTEGER);")];
    assert_eq!(migrate(&conn, &units), Err(MigrationError::UnitFailed { version: 0 }));
    assert_eq!(tables(&conn), Vec::<String>::new());
}

#[test]
fn a_unit_that_cannot_be_recorded_leaves_nothing_behind() {
    let conn = Connection::open_in_memory().unwrap();
    let units = [
        ("000_init.sql", "CREATE TABLE metadata_migrations (version INTEGER CHECK (version <> 5));"),
        ("004_a.sql", "CREATE TABLE a (x INTEGER);"),
        ("005_b.sql", "CREATE TABLE b (x INTEGER); INSERT INTO a VALUES (7);"),
        ("006_c.sql", "CREATE TABLE c (x INTEGER);"),
    ];
    assert_eq!(migrate(&conn, &units), Err(MigrationError::UnitFailed { version: 5 }));
    assert_eq!(ledger(&conn), vec![0, 4]);
    assert_eq!(tables(&conn), vec!["a", "metadata_migrations"]);
    let rows: i64 = conn.query_row("SELECT COUNT(*) FROM a", (), |row| row.get(0)).unwrap();
    assert_eq!(rows, 0);

    assert_eq!(migrate(&conn, &units), Err(MigrationError::UnitFailed { version: 5 }));
    assert_eq!(ledger(&conn), vec![0, 4]);
    assert_eq!(tables(&conn), vec!["a", "metadata_migrations"]);
    let rows: i64 = conn.query_row("SELECT COUNT(*) FROM a", (), |row| row.get(0)).unwrap();
    assert_eq!(rows, 0);
}

#[test]
fn a_ledger_that_cannot_be_read_stops_the_run() {
    let conn = Connection::open_in_memory().unwrap();
    conn.execute_batch("CREATE TABLE metadata_migrations (applied INTEGER);").unwrap();
    let units = [("000_users.sql", "CREATE TABLE users (id INTEGER);")];
    assert_eq!(migrate(&conn, &units), Err(MigrationError::LedgerUnreadable));
    assert_eq!(tables(&conn), vec!["metadata_migrations"]);
}

#[test]
fn a_ledger_without_entries_counts_as_empty() {
    let conn = Connection::open_in_memory().unwrap();
    conn.execute_batch(INIT).unwrap();
    let units = [("001_users.sql", "CREATE TABLE users (id INTEGER);")];
    assert_eq!(migrate(&conn, &units), Ok(()));
    assert_eq!(ledger(&conn), vec![1]);
}

#[test]
fn units_the_ledger_has_seen_are_not_read() {
    let conn = Connection::open_in_memory().unwrap();
    assert_eq!(migrate(&conn, &UNITS[..3]), Ok(()));
    let mut step = begin();
    let mut read: Vec<String> = Vec::new();
    loop {
        match step {
            MigrationStep::Done(result) => {
                assert_eq!(result, Ok(()));
                break;
            },
            MigrationStep::Ask(run, request) => {
                if let MigrationRequest::ReadUnit { name } = &request {
                    read.push(name.clone());
                }
                let reply = perform(&conn, &UNITS, request);
                step = resume(run, reply);
            },
        }
    }
    assert_eq!(read, vec!["003_notes.sql".to_string()]);
}

fn expect_ask(step: MigrationStep) -> (MigrationRun, MigrationRequest) {
    match step {
        MigrationStep::Ask(run, request) => (run, request),
        MigrationStep::Done(_) => panic!("the run ended early"),
    }
}

fn expect_done(step: MigrationStep) -> Result<(), MigrationError> {
    match step {
        MigrationStep::Done(result) => result,
        MigrationStep::Ask(..) => panic!("the run goes on"),
    }
}

fn names(list: &[&str]) -> Vec<String> {
    list.iter().map(|name| name.to_string()).collect()
}

fn planned(names_found: &[&str], latest: Option<i64>) -> (MigrationRun, MigrationRequest) {
    let (run, _) = expect_ask(begin());
    let (run, _) = expect_ask(resume(run, MigrationReply::Units(names(names_found))));
    let (run, _) = expect_ask(resume(run, MigrationReply::LedgerFound(true)));
    expect_ask(resume(run, MigrationReply::LedgerMax(latest)))
}

#[test]
fn a_run_lists_then_reads_the_ledger_then_works_through_the_plan() {
    let (run, request) = expect_ask(begin());
    assert_eq!(request, MigrationRequest::ListUnits);
    let (run, request) = expect_ask(resume(run, MigrationReply::Units(names(&["002_b.sql", "001_a.sql"]))));
    assert_eq!(request, MigrationRequest::FindLedger);
    let (run, request) = expect_ask(resume(run, MigrationReply::LedgerFound(true)));
    assert_eq!(request, MigrationRequest::ReadLedgerMax);
    let (run, request) = expect_ask(resume(run, MigrationReply::LedgerMax(Some(0))));
    assert_eq!(request, MigrationRequest::ReadUnit { name: "001_a.sql".to_string() });
    let (run, request) = expect_ask(resume(run, MigrationReply::UnitText("A".to_string())));
    assert_eq!(request, MigrationRequest::ApplyUnit { version: 1, sql: "A".to_string() });
    let (run, request) = expect_ask(resume(run, MigrationReply::Succeeded));
    assert_eq!(request, MigrationRequest::ReadUnit { name: "002_b.sql".to_string() });
    let (run, request) = expect_ask(resume(run, MigrationReply::UnitText("B".to_string())));
    assert_eq!(request, MigrationRequest::ApplyUnit { version: 2, sql: "B".to_string() });
    assert_eq!(expect_done(resume(run, MigrationReply::Succeeded)), Ok(()));
}

#[test]
fn units_that_cannot_be_listed_are_fatal() {
    let (run, _) = expect_ask(begin());
    assert_eq!(expect_done(resume(run, MigrationReply::Failed)), Err(MigrationError::DiscoveryFailed));
}

#[test]
fn a_store_without_ledger_gets_every_unit() {
    let (run, _) = expect_ask(begin());
    let (run, _) = expect_ask(resume(run, MigrationReply::Units(names(&["001_a.sql", "000_init.sql"]))));
    let (_, request) = expect_ask(resume(run, MigrationReply::LedgerFound(false)));
    assert_eq!(request, MigrationRequest::ReadUnit { name: "000_init.sql".to_string() });
}

#[test]
fn a_store_that_cannot_say_whether_it_has_a_ledger_is_fatal() {
    let (run, _) = expect_ask(begin());
    let (run, _) = expect_ask(resume(run, MigrationReply::Units(names(&["000_init.sql"]))));
    assert_eq!(
        expect_done(resume(run, MigrationReply::Failed)),
        Err(MigrationError::LedgerUnreadable)
    );
}

#[test]
fn a_ledger_that_cannot_be_read_is_fatal() {
    let (run, _) = expect_ask(begin());
    let (run, _) = expect_ask(resume(run, MigrationReply::Units(names(&["000_init.sql"]))));
    let (run, _) = expect_ask(resume(run, MigrationReply::LedgerFound(true)));
    assert_eq!(
        expect_done(resume(run, MigrationReply::Failed)),
        Err(MigrationError::LedgerUnreadable)
    );
}

#[test]
fn an_empty_ledger_counts_as_empty() {
    let (_, request) = planned(&["000_init.sql"], None);
    assert_eq!(request, MigrationRequest::ReadUnit { name: "000_init.sql".to_string() });
}

#[test]
fn a_unit_that_cannot_be_read_is_fatal() {
    let (run, _) = planned(&["007_g.sql"], Some(6));
    assert_eq!(
        expect_done(resume(run, MigrationReply::Failed)),
        Err(MigrationError::UnitUnreadable { version: 7 })
    );
}

#[test]
fn a_unit_that_cannot_be_applied_is_fatal() {
    let (run, _) = planned(&["007_g.sql", "008_h.sql"], Some(6));
    let (run, _) = expect_ask(resume(run, MigrationReply::UnitText("G".to_string())));
    assert_eq!(
        expect_done(resume(run, MigrationReply::Failed)),
        Err(MigrationError::UnitFailed { version: 7 })
    );
}

#[test]
fn an_answer_out_of_turn_ends_the_run() {
    let (run, _) = expect_ask(begin());
    assert_eq!(
        expect_done(resume(run, MigrationReply::LedgerMax(Some(1)))),
        Err(MigrationError::DiscoveryFailed)
    );
    let (run, _) = expect_ask(begin());
    let (run, _) = expect_ask(resume(run, MigrationReply::Units(names(&["000_init.sql"]))));
    assert_eq!(
        expect_done(resume(run, MigrationReply::LedgerMax(Some(1)))),
        Err(MigrationError::LedgerUnreadable)
    );
    let (run, _) = planned(&["007_g.sql"], Some(6));
    assert_eq!(
        expect_done(resume(run, MigrationReply::Succeeded)),
        Err(MigrationError::UnitUnreadable { version: 7 })
    );
}

#[test]
fn the_ledger_statements_are_fixed() {
    assert_eq!(
        LEDGER_EXISTS,
        "SELECT COUNT(*) FROM sqlite_master WHERE type = 'table' AND name = 'metadata_migrations'"
    );
    assert_eq!(LEDGER_MAX, "SELECT MAX(version) FROM metadata_migrations");
    assert_eq!(RECORD_VERSION, "INSERT INTO metadata_migrations (version) VALUES (:version)");
}
