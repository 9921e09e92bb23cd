use rlocate::crawl::{get_filepaths, WalkItem};
use rlocate::entry::PathEntry;
use rlocate::search::database_search;
use rlocate::store::{
    retrieve_entries, BatchOutcome, Rebuild, StoreAction, StoreError, StoreReply,
};
use rusqlite::Connection;

const LOOKUP: &str = "SELECT name FROM sqlite_master WHERE type='table' AND name= ?1";
const CREATE: &str = "CREATE TABLE entries (
        id          INTEGER PRIMARY KEY AUTOINCREMENT,
        path        TEXT NOT NULL,
        basename    TEXT NOT NULL
    )";
const INSERT: &str = "INSERT INTO entries (path, basename) VALUES (?1, ?2)";
const SELECT: &str = "SELECT path, basename from entries";

fn reply_of<T>(result: rusqlite::Result<T>) -> StoreReply {
    match result {
        Ok(_) => StoreReply::Done,
        Err(_) => StoreReply::Failed,
    }
}

fn lookup(conn: &Connection) -> StoreReply {
    match conn.prepare(LOOKUP).and_then(|mut stmt| stmt.exists(["entries"])) {
        Ok(true) => StoreReply::Done,
        Ok(false) => StoreReply::Absent,
        Err(_) => StoreReply::Failed,
    }
}

fn in_transaction(update: Rebuild, entries: &[PathEntry], conn: &mut Connection) -> Rebuild {
    let tx = match conn.transaction() {
        Ok(tx) => tx,
        Err(_) => return update.advance(StoreReply::Failed),
    };
    let mut update = update.advance(StoreReply::Done);
    {
        let mut stmt = tx.prepare(INSERT).unwrap();
        while let Some(StoreAction::InsertRow(index)) = update.action() {
            let entry = &entries[index];
            let inserted = stmt.execute((entry.get_path(), entry.get_basename()));
            update = update.advance(reply_of(inserted));
        }
    }
    assert_eq!(update.action(), Some(StoreAction::Commit));
    update.advance(reply_of(tx.commit()))
}

/// Appends `entries` to the store behind `conn`, step by step as the update
/// asks, and gives the steps that led up to the transaction and the outcome.
fn append(
    conn: &mut Connection,
    entries: &[PathEntry],
) -> (Vec<StoreAction>, Result<BatchOutcome, StoreError>) {
    let mut update = Rebuild::start(entries.len());
    let mut performed = Vec::new();
    while let Some(action) = update.action() {
        performed.push(action);
        update = match action {
            StoreAction::EnsureParentDirectory => update.advance(StoreReply::Done),
            StoreAction::CheckSchema => update.advance(lookup(conn)),
            StoreAction::CreateSchema => update.advance(reply_of(conn.execute(CREATE, ()))),
            StoreAction::BeginTransaction => in_transaction(update, entries, conn),
            StoreAction::InsertRow(_) | StoreAction::Commit => unreachable!(),
        };
    }
    (performed, update.outcome().unwrap())
}

fn all_entries(conn: &Connection) -> Vec<PathEntry> {
    let mut stmt = conn.prepare(SELECT).unwrap();
    let rows = stmt
        .query_map([], |row| Ok((row.get::<_, String>(0)?, row.get::<_, String>(1)?)))
        .unwrap();
    retrieve_entries(rows.map(|row| row.unwrap()).collect())
}

fn crawled() -> Vec<PathEntry> {
    let walked: Vec<WalkItem> = ["/srv", "/srv/b", "/srv/b/notes.txt", "/srv/a", "/srv/a/notes.txt"]
        .iter()
        .map(|path| WalkItem::Found(path.to_string()))
        .collect();
    get_filepaths(&walked).entries
}

fn sorted_pairs(entries: &[PathEntry]) -> Vec<(String, String)> {
    let mut pairs: Vec<(String, String)> = entries
        .iter()
        .map(|entry| (entry.get_path().to_string(), entry.get_basename().to_string()))
        .collect();
    pairs.sort();
    pairs
}

#[test]
fn what_is_appended_to_a_store_comes_back() {
    let mut conn = Connection::open_in_memory().unwrap();
    let entries = crawled();
    let (_, outcome) = append(&mut conn, &entries);
    assert_eq!(outcome, Ok(BatchOutcome { attempted: 5, persisted: 5 }));
    let stored = all_entries(&conn);
    assert_eq!(sorted_pairs(&stored), sorted_pairs(&entries));
    assert_eq!(stored, entries);
}

#[test]
fn appending_the_same_batch_twice_doubles_the_rows() {
    let mut conn = Connection::open_in_memory().unwrap();
    let entries = crawled();
    append(&mut conn, &entries).1.unwrap();
    assert_eq!(all_entries(&conn).len(), 5);
    append(&mut conn, &entries).1.unwrap();
    let stored = all_entries(&conn);
    assert_eq!(stored.len(), 10);
    assert_eq!(stored[..5], entries[..]);
    assert_eq!(stored[5..], entries[..]);
}

#[test]
fn the_table_is_created_once() {
    let mut conn = Connection::open_in_memory().unwrap();
    let (first, _) = append(&mut conn, &crawled());
    let (second, _) = append(&mut conn, &crawled());
    assert!(first.contains(&StoreAction::CreateSchema));
    assert!(!second.contains(&StoreAction::CreateSchema));
}

#[test]
fn a_store_made_anew_holds_no_entries() {
    let mut conn = Connection::open_in_memory().unwrap();
    append(&mut conn, &crawled()).1.unwrap();
    assert_eq!(all_entries(&conn).len(), 5);
    drop(conn);
    let mut conn = Connection::open_in_memory().unwrap();
    let (_, outcome) = append(&mut conn, &[]);
    assert_eq!(outcome, Ok(BatchOutcome { attempted: 0, persisted: 0 }));
    assert_eq!(all_entries(&conn), Vec::<PathEntry>::new());
}

#[test]
fn a_row_that_the_store_refuses_does_not_undo_the_others() {
    let mut conn = Connection::open_in_memory().unwrap();
    conn.execute(
        "CREATE TABLE entries (
            id          INTEGER PRIMARY KEY AUTOINCREMENT,
            path        TEXT NOT NULL,
            basename    TEXT NOT NULL CHECK (basename <> 'b')
        )",
        (),
    )
    .unwrap();
    let entries = crawled();
    let (performed, outcome) = append(&mut conn, &entries);
    assert!(!performed.contains(&StoreAction::CreateSchema));
    assert_eq!(outcome, Ok(BatchOutcome { attempted: 5, persisted: 4 }));
    let stored = all_entries(&conn);
    assert_eq!(stored.len(), 4);
    assert!(stored.iter().all(|entry| entry.get_basename() != "b"));
    assert_eq!(stored[0], entries[0]);
    assert_eq!(stored[1..], entries[2..]);
}

#[test]
fn a_stored_catalogue_is_searched_in_the_order_of_its_rows() {
    let mut conn = Connection::open_in_memory().unwrap();
    append(&mut conn, &crawled()).1.unwrap();
    let catalogue = all_entries(&conn);
    let lines = database_search(&catalogue, "notes.txt", "basename").unwrap();
    assert_eq!(lines.len(), 2);
    assert_eq!(lines[0].prefix(), "/srv/b/");
    assert_eq!(lines[1].prefix(), "/srv/a/");
    let lines = database_search(&catalogue, "/a", "keyword").unwrap();
    assert_eq!(lines.len(), 2);
    assert_eq!(lines[0].text(), "/srv/a");
    assert_eq!(lines[1].suffix(), "/notes.txt");
}
