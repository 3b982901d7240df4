//! The persistence store: durable block and tweak rows in a relational
//! store, driven through the `rusqlite` crate.
//!
//! The store's contents are modelled as two row sequences in insertion
//! order. Each operation is a single auto-committing statement; lookups
//! promise their rows up to order, since an unordered query leaves the order
//! unspecified.

use vstd::prelude::*;

verus! {

/// Mathematical view of one persisted block row.
pub ghost struct BlockRowV {
    pub height: u32,
    pub block_hash: Seq<char>,
    pub has_tweaks: bool,
}

/// Mathematical view of one persisted tweak row.
pub ghost struct TweakRowV {
    pub block_hash: Seq<char>,
    pub tx_id: Seq<char>,
    pub tweak: Seq<char>,
}

/// One persisted block row: a processed height, its block hash, and whether
/// any of its transactions yielded a tweak.
#[derive(Debug)]
pub struct Block {
    pub height: u32,
    pub block_hash: String,
    pub has_tweaks: bool,
}

impl View for Block {
    type V = BlockRowV;

    open spec fn view(&self) -> BlockRowV {
        BlockRowV {
            height: self.height,
            block_hash: self.block_hash@,
            has_tweaks: self.has_tweaks,
        }
    }
}

/// One persisted tweak row: the containing block's hash, the transaction's
/// id, and the derived tweak key, all hex strings.
#[derive(Debug)]
pub struct Tweaks {
    pub block_hash: String,
    pub tx_id: String,
    pub tweak: String,
}

impl View for Tweaks {
    type V = TweakRowV;

    open spec fn view(&self) -> TweakRowV {
        TweakRowV { block_hash: self.block_hash@, tx_id: self.tx_id@, tweak: self.tweak@ }
    }
}

/// A store operation failed.
#[derive(Clone, Copy, PartialEq, Eq, Structural, Debug)]
pub enum StoreError {
    /// The store could not be opened.
    Open,
    /// The schema could not be created.
    Schema,
    /// An insert failed.
    Write,
    /// A lookup failed.
    Query,
}

impl StoreError {
    /// A short description of the failure.
    pub fn message(&self) -> String {
        match self {
            StoreError::Open => "could not open the store".to_owned(),
            StoreError::Schema => "could not create the store schema".to_owned(),
            StoreError::Write => "a store insert failed".to_owned(),
            StoreError::Query => "a store lookup failed".to_owned(),
        }
    }
}

#[verifier::external_type_specification]
#[verifier::external_body]
pub struct ExConnection(rusqlite::Connection);

/// The block rows a store connection holds, in insertion order.
pub uninterp spec fn block_rows(conn: rusqlite::Connection) -> Seq<BlockRowV>;

/// The tweak rows a store connection holds, in insertion order.
pub uninterp spec fn tweak_rows(conn: rusqlite::Connection) -> Seq<TweakRowV>;

/// The block rows whose hash is `h`.
pub open spec fn spec_blocks_with_hash(rows: Seq<BlockRowV>, h: Seq<char>) -> Seq<BlockRowV> {
    rows.filter(|b: BlockRowV| b.block_hash == h)
}

/// The tweak rows whose block hash is `h`.
pub open spec fn spec_tweaks_with_hash(rows: Seq<TweakRowV>, h: Seq<char>) -> Seq<TweakRowV> {
    rows.filter(|t: TweakRowV| t.block_hash == h)
}

/// The tweak rows whose tweak value is `tw`.
pub open spec fn spec_tweaks_with_tweak(rows: Seq<TweakRowV>, tw: Seq<char>) -> Seq<TweakRowV> {
    rows.filter(|t: TweakRowV| t.tweak == tw)
}

/// Whether some block row carries the hash `h`.
pub open spec fn spec_has_block_hash(rows: Seq<BlockRowV>, h: Seq<char>) -> bool {
    exists|i: int| 0 <= i < rows.len() && rows[i].block_hash == h
}

/// The largest height among the block rows, or 0 where there are none.
pub open spec fn spec_max_height(rows: Seq<BlockRowV>) -> u32
    decreases rows.len(),
{
    if rows.len() == 0 {
        0u32
    } else {
        let m = spec_max_height(rows.drop_last());
        if rows.last().height > m {
            rows.last().height
        } else {
            m
        }
    }
}

/// No two block rows share a hash: the store invariant the idempotent skip
/// relies on.
pub open spec fn spec_unique_hashes(rows: Seq<BlockRowV>) -> bool {
    forall|i: int, j: int| 0 <= i < j < rows.len() ==> rows[i].block_hash != rows[j].block_hash
}

/// Appending a row whose hash is absent keeps the hashes unique.
pub proof fn lemma_unique_hashes_push(rows: Seq<BlockRowV>, row: BlockRowV)
    requires
        spec_unique_hashes(rows),
        !spec_has_block_hash(rows, row.block_hash),
    ensures
        spec_unique_hashes(rows.push(row)),
{
    let all = rows.push(row);
    assert forall|i: int, j: int| 0 <= i < j < all.len() implies all[i].block_hash
        != all[j].block_hash by {
        if j == rows.len() {
            assert(all[i] == rows[i]);
        }
    }
}

/// A filtered sequence only holds elements of the sequence it came from.
pub proof fn lemma_filter_subset<A>(s: Seq<A>, pred: spec_fn(A) -> bool, x: A)
    requires
        s.filter(pred).contains(x),
    ensures
        s.contains(x),
    decreases s.len(),
{
    reveal(Seq::filter);
    if s.len() > 0 {
        if s.last() == x {
            assert(s[s.len() - 1] == x);
        } else {
            lemma_filter_subset(s.drop_last(), pred, x);
            let i = choose|i: int| 0 <= i < s.drop_last().len() && s.drop_last()[i] == x;
            assert(s[i] == x);
        }
    }
}

/// Law: a tweak row just persisted is found by a lookup with its block hash,
/// with its id and tweak intact.
pub proof fn lemma_tweak_round_trip(rows: Seq<TweakRowV>, row: TweakRowV)
    ensures
        spec_tweaks_with_hash(rows.push(row), row.block_hash).contains(row),
{
    let pred = |t: TweakRowV| t.block_hash == row.block_hash;
    rows.push(row).filter_lemma(pred);
    assert(rows.push(row)[rows.len() as int] == row);
}

/// The durable store: two tables, `blocks` and `tweaks`, owned exclusively
/// by this connection for the lifetime of a run.
pub struct Database {
    pub conn: rusqlite::Connection,
}

impl Database {
    /// The block rows this store holds, in insertion order.
    pub open spec fn blocks(&self) -> Seq<BlockRowV> {
        block_rows(self.conn)
    }

    /// The tweak rows this store holds, in insertion order.
    pub open spec fn tweaks(&self) -> Seq<TweakRowV> {
        tweak_rows(self.conn)
    }

    /// Relies on rusqlite::Connection::open and execute: opens (or creates)
    /// the store at `db_path` and creates the two tables if absent. An
    /// existing store keeps its rows, so nothing is promised of the
    /// contents. The reference from tweak rows to block rows is logical,
    /// not enforced: a block's tweak rows are written moments before its
    /// block row.
    #[verifier::external_body]
    pub fn new(db_path: &str) -> (r: Result<Database, StoreError>)
    {
        let conn = match rusqlite::Connection::open(db_path) {
            Ok(c) => c,
            Err(_) => return Err(StoreError::Open),
        };
        let blocks_ddl = "CREATE TABLE IF NOT EXISTS blocks (id INTEGER PRIMARY KEY AUTOINCREMENT, block_hash TEXT NOT NULL, height INTEGER NOT NULL, has_tweaks BOOLEAN NOT NULL)";
        let tweaks_ddl = "CREATE TABLE IF NOT EXISTS tweaks (id INTEGER PRIMARY KEY AUTOINCREMENT, block_hash TEXT NOT NULL, tx_id TEXT NOT NULL, tweak TEXT NOT NULL)";
        if conn.execute(blocks_ddl, []).is_err() {
            return Err(StoreError::Schema);
        }
        if conn.execute(tweaks_ddl, []).is_err() {
            return Err(StoreError::Schema);
        }
        Ok(Database { conn })
    }

    /// Relies on rusqlite::Connection::execute with a single INSERT: on
    /// success exactly one row is appended; a failed statement changes
    /// nothing, since a single auto-committed statement fails atomically.
    #[verifier::external_body]
    pub fn insert_block(&mut self, block_hash: &str, height: u32, has_tweaks: bool) -> (r:
        Result<(), StoreError>)
        ensures
            match r {
                Ok(_) => block_rows(final(self).conn) == block_rows(old(self).conn).push(
                    BlockRowV { height, block_hash: block_hash@, has_tweaks },
                ) && tweak_rows(final(self).conn) == tweak_rows(old(self).conn),
                Err(_) => block_rows(final(self).conn) == block_rows(old(self).conn) && tweak_rows(final(self).conn)
                    == tweak_rows(old(self).conn),
            },
    {
        match self.conn.execute(
            "INSERT INTO blocks (block_hash, height, has_tweaks) VALUES (?1, ?2, ?3)",
            (block_hash, height, has_tweaks),
        ) {
            Ok(_) => Ok(()),
            Err(_) => Err(StoreError::Write),
        }
    }

    /// Relies on rusqlite::Connection::execute with a single INSERT: on
    /// success exactly one row is appended; a failed statement changes
    /// nothing, since a single auto-committed statement fails atomically.
    #[verifier::external_body]
    pub fn insert_tweak(&mut self, block_hash: &str, tweak: &str, tx_id: &str) -> (r: Result<
        (),
        StoreError,
    >)
        ensures
            match r {
                Ok(_) => tweak_rows(final(self).conn) == tweak_rows(old(self).conn).push(
                    TweakRowV { block_hash: block_hash@, tx_id: tx_id@, tweak: tweak@ },
                ) && block_rows(final(self).conn) == block_rows(old(self).conn),
                Err(_) => block_rows(final(self).conn) == block_rows(old(self).conn) && tweak_rows(final(self).conn)
                    == tweak_rows(old(self).conn),
            },
    {
        match self.conn.execute(
            "INSERT INTO tweaks (block_hash, tx_id, tweak) VALUES (?1, ?2, ?3)",
            (block_hash, tx_id, tweak),
        ) {
            Ok(_) => Ok(()),
            Err(_) => Err(StoreError::Write),
        }
    }

    /// Relies on rusqlite prepare/query_map with SELECT ... WHERE
    /// block_hash = ?: returns exactly the block rows carrying that hash,
    /// in an order the engine leaves unspecified.
    #[verifier::external_body]
    pub fn get_block(&self, block_hash: &str) -> (r: Result<Vec<Block>, StoreError>)
        ensures
            match r {
                Ok(v) => v@.map_values(|b: Block| b@).to_multiset() == spec_blocks_with_hash(
                    block_rows(self.conn),
                    block_hash@,
                ).to_multiset(),
                Err(_) => true,
            },
    {
        let mut stmt = match self.conn.prepare(
            "SELECT height, block_hash, has_tweaks FROM blocks WHERE block_hash = ?1",
        ) {
            Ok(s) => s,
            Err(_) => return Err(StoreError::Query),
        };
        let rows = stmt.query_map((block_hash,), |row| {
            Ok(Block { height: row.get(0)?, block_hash: row.get(1)?, has_tweaks: row.get(2)? })
        });
        match rows {
            Ok(found) => Ok(found.filter_map(|row| row.ok()).collect()),
            Err(_) => Err(StoreError::Query),
        }
    }

    /// Relies on rusqlite prepare/query_map with SELECT ... WHERE
    /// block_hash = ?: returns exactly the tweak rows carrying that hash,
    /// in an order the engine leaves unspecified.
    #[verifier::external_body]
    pub fn get_tweaks(&self, block_hash: &str) -> (r: Result<Vec<Tweaks>, StoreError>)
        ensures
            match r {
                Ok(v) => v@.map_values(|t: Tweaks| t@).to_multiset() == spec_tweaks_with_hash(
                    tweak_rows(self.conn),
                    block_hash@,
                ).to_multiset(),
                Err(_) => true,
            },
    {
        let mut stmt = match self.conn.prepare(
            "SELECT block_hash, tx_id, tweak FROM tweaks WHERE block_hash = ?1",
        ) {
            Ok(s) => s,
            Err(_) => return Err(StoreError::Query),
        };
        let rows = stmt.query_map((block_hash,), |row| {
            Ok(Tweaks { block_hash: row.get(0)?, tx_id: row.get(1)?, tweak: row.get(2)? })
        });
        match rows {
            Ok(found) => Ok(found.filter_map(|row| row.ok()).collect()),
            Err(_) => Err(StoreError::Query),
        }
    }

    /// Relies on rusqlite prepare/query_map with SELECT ... WHERE
    /// tweak = ?: returns exactly the tweak rows carrying that tweak value,
    /// in an order the engine leaves unspecified.
    #[verifier::external_body]
    pub fn has_tweak(&self, tweak: &str) -> (r: Result<Vec<Tweaks>, StoreError>)
        ensures
            match r {
                Ok(v) => v@.map_values(|t: Tweaks| t@).to_multiset() == spec_tweaks_with_tweak(
                    tweak_rows(self.conn),
                    tweak@,
                ).to_multiset(),
                Err(_) => true,
            },
    {
        let mut stmt = match self.conn.prepare(
            "SELECT block_hash, tx_id, tweak FROM tweaks WHERE tweak = ?1",
        ) {
            Ok(s) => s,
            Err(_) => return Err(StoreError::Query),
        };
        let rows = stmt.query_map((tweak,), |row| {
            Ok(Tweaks { block_hash: row.get(0)?, tx_id: row.get(1)?, tweak: row.get(2)? })
        });
        match rows {
            Ok(found) => Ok(found.filter_map(|row| row.ok()).collect()),
            Err(_) => Err(StoreError::Query),
        }
    }

    /// Relies on rusqlite::Connection::close: releases the store at
    /// shutdown.
    #[verifier::external_body]
    pub fn close(self) {
        let _ = self.conn.close();
    }
}

} // verus!
