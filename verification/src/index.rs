//! The indexing loop: range resolution, the idempotent per-height step, and
//! the driver that walks a height range.

use vstd::prelude::*;
use crate::chain::{get_block_count, ChainAccess};
use crate::codec::decode_block;
use crate::process::{process_transactions, spec_process_block, TxFailure};
use crate::service::get_highest_block;
use crate::store::{
    block_rows, lemma_filter_subset, lemma_unique_hashes_push, spec_blocks_with_hash,
    spec_has_block_hash, spec_max_height, spec_unique_hashes, tweak_rows, Block, BlockRowV,
    Database,
};
use crate::types::{BlockV, TxV};

verus! {

/// The first height at which the eligibility rules can apply, used when the
/// store holds nothing to resume from.
pub const DEFAULT_START_HEIGHT: u32 = 709632;

/// How many blocks to index when neither an end height nor a count is
/// given.
pub const DEFAULT_BLOCK_SPAN: u32 = 10;

/// Whether `c` is a decimal digit.
pub open spec fn spec_is_digit(c: char) -> bool {
    '0' <= c && c <= '9'
}

/// The value of the decimal digit `c`.
pub open spec fn spec_digit_val(c: char) -> int {
    c as int - '0' as int
}

/// Whether every character of `s` is a decimal digit.
pub open spec fn spec_all_digits(s: Seq<char>) -> bool {
    forall|i: int| 0 <= i < s.len() ==> spec_is_digit(#[trigger] s[i])
}

/// The number the digit string `s` denotes, most significant digit first.
pub open spec fn spec_digits_val(s: Seq<char>) -> int
    decreases s.len(),
{
    if s.len() == 0 {
        0
    } else {
        spec_digits_val(s.drop_last()) * 10 + spec_digit_val(s.last())
    }
}

/// What a digit string parses to: its value, if it is non-empty, all
/// digits, and in range.
pub open spec fn spec_parse_u32_digits(s: Seq<char>) -> Option<u32> {
    if s.len() > 0 && spec_all_digits(s) && spec_digits_val(s) <= u32::MAX {
        Some(spec_digits_val(s) as u32)
    } else {
        None
    }
}

/// What a decimal string parses to, allowing one optional leading plus
/// sign, as the standard integer parser does.
pub open spec fn spec_parse_u32(s: Seq<char>) -> Option<u32> {
    if s.len() >= 1 && s[0] == '+' {
        spec_parse_u32_digits(s.skip(1))
    } else {
        spec_parse_u32_digits(s)
    }
}

/// A digit string denotes a non-negative number.
proof fn lemma_digits_val_nonneg(s: Seq<char>)
    requires
        spec_all_digits(s),
    ensures
        spec_digits_val(s) >= 0,
    decreases s.len(),
{
    if s.len() > 0 {
        assert(spec_is_digit(s[s.len() - 1]));
        lemma_digits_val_nonneg(s.drop_last());
    }
}

/// Extending a digit string never shrinks its value.
proof fn lemma_digits_val_prefix_le(s: Seq<char>, i: int)
    requires
        0 <= i <= s.len(),
        spec_all_digits(s),
    ensures
        spec_digits_val(s.take(i)) <= spec_digits_val(s),
    decreases s.len() - i,
{
    if i == s.len() {
        assert(s.take(i) =~= s);
    } else {
        lemma_digits_val_prefix_le(s, i + 1);
        let t = s.take(i + 1);
        assert(t.drop_last() =~= s.take(i));
        assert(spec_is_digit(t.last()));
        assert(spec_all_digits(s.take(i))) by {
            assert(forall|j: int| 0 <= j < i ==> s.take(i)[j] == s[j]);
        }
        lemma_digits_val_nonneg(s.take(i));
    }
}

/// Parse a decimal number, exactly where the string is an optional plus
/// sign followed by digits denoting a value in range.
pub fn parse_u32(s: &str) -> (r: Option<u32>)
    ensures
        r == spec_parse_u32(s@),
{
    let n = s.unicode_len();
    let mut start: usize = 0;
    if n >= 1 && s.get_char(0) == '+' {
        start = 1;
    }
    let ghost digits = s@.skip(start as int);
    proof {
        assert(s@.skip(0) =~= s@);
        assert(spec_parse_u32(s@) == spec_parse_u32_digits(digits));
    }
    if start >= n {
        assert(digits.len() == 0);
        return None;
    }
    let mut acc: u64 = 0;
    let mut i: usize = start;
    while i < n
        invariant
            start <= i <= n,
            n == s@.len(),
            digits == s@.skip(start as int),
            spec_parse_u32(s@) == spec_parse_u32_digits(digits),
            spec_all_digits(s@.subrange(start as int, i as int)),
            acc == spec_digits_val(s@.subrange(start as int, i as int)),
            acc <= u32::MAX,
        decreases n - i,
    {
        let c = s.get_char(i);
        if !('0' <= c && c <= '9') {
            assert(digits[i - start] == s@[i as int]);
            assert(!spec_all_digits(digits));
            return None;
        }
        let d: u64 = (c as u32 - '0' as u32) as u64;
        let next: u64 = acc * 10 + d;
        let ghost prefix = s@.subrange(start as int, i + 1);
        proof {
            assert(prefix.drop_last() =~= s@.subrange(start as int, i as int));
            assert(prefix.last() == s@[i as int]);
            assert(d == spec_digit_val(s@[i as int]));
            assert(next == spec_digits_val(prefix));
        }
        if next > u32::MAX as u64 {
            proof {
                if spec_all_digits(digits) && spec_digits_val(digits) <= u32::MAX {
                    assert(prefix =~= digits.take(i + 1 - start));
                    lemma_digits_val_prefix_le(digits, i + 1 - start);
                }
            }
            return None;
        }
        acc = next;
        i += 1;
    }
    assert(s@.subrange(start as int, n as int) =~= digits);
    assert(digits.len() > 0);
    Some(acc as u32)
}

/// The start of the range: the given start, or 0 to ask for automatic
/// resolution.
pub open spec fn spec_start_of(start_height: Option<u32>) -> u32 {
    match start_height {
        Some(h) => h,
        None => 0u32,
    }
}

/// The block count to use when no end height is given.
pub open spec fn spec_span_of(blocks: Option<u32>) -> u32 {
    match blocks {
        Some(c) => c,
        None => DEFAULT_BLOCK_SPAN,
    }
}

/// The end of the range: the given end, or the start plus the block count.
pub open spec fn spec_end_of(start: u32, end_height: Option<u32>, blocks: Option<u32>) -> int {
    match end_height {
        Some(h) => h as int,
        None => start + spec_span_of(blocks),
    }
}

/// Resolve the requested height range from the command flags: an explicit
/// start (0 asks for automatic resolution), an explicit end, or the start
/// plus a block count.
pub fn handle_inputs(start_height: Option<u32>, end_height: Option<u32>, blocks: Option<u32>) -> (r:
    (u32, u32))
    requires
        spec_end_of(spec_start_of(start_height), end_height, blocks) <= u32::MAX,
    ensures
        r.0 == spec_start_of(start_height),
        r.1 == spec_end_of(r.0, end_height, blocks),
{
    let start = match start_height {
        Some(h) => h,
        None => 0,
    };
    let end = match end_height {
        Some(h) => h,
        None => {
            let span = match blocks {
                Some(c) => c,
                None => DEFAULT_BLOCK_SPAN,
            };
            start + span
        },
    };
    (start, end)
}

/// The start height automatic resolution picks: resume above nothing means
/// the protocol default, otherwise the highest persisted height.
pub open spec fn spec_auto_start(rows: Seq<BlockRowV>) -> u32 {
    if spec_max_height(rows) > 0 {
        spec_max_height(rows)
    } else {
        DEFAULT_START_HEIGHT
    }
}

/// Resolve the range automatically: resume from the highest persisted
/// height (or the protocol default), and end at the node's block count, or
/// at the start where the node is behind it.
pub fn auto_index<C: ChainAccess>(db: &Database, chain: &mut C) -> (r: Result<(u32, u32), String>)
    ensures
        match r {
            Ok((s, e)) => s == spec_auto_start(block_rows(db.conn)) && e >= s,
            Err(_) => true,
        },
{
    let highest = match get_highest_block(db) {
        Ok(h) => h,
        Err(e) => {
            return Err(e.message());
        },
    };
    let starting_block = if highest > 0 {
        highest
    } else {
        DEFAULT_START_HEIGHT
    };
    let count_str = match get_block_count(chain) {
        Ok(s) => s,
        Err(e) => {
            return Err(e);
        },
    };
    let mut last_block = match parse_u32(count_str.as_str()) {
        Some(v) => v,
        None => {
            return Err("Failed to parse current block count".to_owned());
        },
    };
    if last_block < starting_block {
        last_block = starting_block;
    }
    Ok((starting_block, last_block))
}

/// Resolve the range to index: an explicit non-zero start is taken as
/// given; a zero start asks for automatic resolution from the store and the
/// node.
pub fn resolve_range<C: ChainAccess>(db: &Database, chain: &mut C, start: u32, end: u32) -> (r:
    Result<(u32, u32), String>)
    ensures
        match r {
            Ok((s, e)) => {
                &&& start != 0 ==> s == start && e == end
                &&& start == 0 ==> s == spec_auto_start(block_rows(db.conn)) && e >= s
            },
            Err(_) => start == 0,
        },
{
    if start == 0 {
        auto_index(db, chain)
    } else {
        Ok((start, end))
    }
}

/// How one visited height went.
#[derive(Clone, Copy, PartialEq, Eq, Structural, Debug)]
pub enum HeightStatus {
    /// A block row with this hash already existed: nothing was fetched
    /// again and nothing changed.
    Skipped,
    /// The block was processed and its row written, with this `has_tweaks`
    /// flag.
    Indexed(bool),
    /// The block's hex did not decode: nothing was written, so the height
    /// will be retried on the next run.
    DecodeFailed,
}

/// What happened at one height: the hash the node gave for it, the status,
/// and the recovered per-transaction failures for the caller to log.
pub struct HeightReport {
    pub height: u32,
    pub block_hash: String,
    pub status: HeightStatus,
    pub failures: Vec<TxFailure>,
}

/// Index one height: fetch its hash, skip it when a block row with that
/// hash exists, otherwise fetch and decode the block, process it, persist
/// the staged tweak rows and then the block row. A port failure or a store
/// failure is fatal; a decode failure leaves the height unrecorded for
/// retry.
pub fn index_height<C: ChainAccess>(chain: &mut C, db: &mut Database, height: u32) -> (r: Result<
    HeightReport,
    String,
>)
    ensures
        match r {
            Ok(rep) => rep.height == height && match rep.status {
                HeightStatus::Skipped => spec_has_block_hash(
                    block_rows(old(db).conn),
                    rep.block_hash@,
                ) && block_rows(final(db).conn) == block_rows(old(db).conn) && tweak_rows(
                    final(db).conn,
                ) == tweak_rows(old(db).conn),
                HeightStatus::DecodeFailed => block_rows(final(db).conn) == block_rows(
                    old(db).conn,
                ) && tweak_rows(final(db).conn) == tweak_rows(old(db).conn),
                HeightStatus::Indexed(ht) => {
                    &&& !spec_has_block_hash(block_rows(old(db).conn), rep.block_hash@)
                    &&& block_rows(final(db).conn) == block_rows(old(db).conn).push(
                        BlockRowV { height, block_hash: rep.block_hash@, has_tweaks: ht },
                    )
                    &&& exists|bv: BlockV, resps: Seq<Seq<Option<TxV>>>| {
                        let out = #[trigger] spec_process_block(bv.hash, bv.txs, resps);
                        ht == out.has_tweaks && tweak_rows(final(db).conn) == tweak_rows(
                            old(db).conn,
                        ) + out.rows && rep.failures@.map_values(|f: TxFailure| f@)
                            == out.failures
                    }
                },
            },
            Err(_) => block_rows(final(db).conn) == block_rows(old(db).conn) && tweak_rows(
                old(db).conn,
            ).is_prefix_of(tweak_rows(final(db).conn)),
        },
{
    let ghost rows0 = block_rows(db.conn);
    let ghost tweaks0 = tweak_rows(db.conn);
    let hash = match chain.block_hash(height) {
        Ok(h) => h,
        Err(e) => {
            proof {
                assert(tweaks0.is_prefix_of(tweaks0));
            }
            return Err(e);
        },
    };
    let existing = match db.get_block(hash.as_str()) {
        Ok(v) => v,
        Err(e) => {
            proof {
                assert(tweaks0.is_prefix_of(tweaks0));
            }
            return Err(e.message());
        },
    };
    let ghost with_hash = spec_blocks_with_hash(rows0, hash@);
    if existing.len() > 0 {
        proof {
            existing@.map_values(|b: Block| b@).to_multiset_ensures();
            with_hash.to_multiset_ensures();
            assert(with_hash.len() > 0);
            rows0.filter_lemma(|b: BlockRowV| b.block_hash == hash@);
            assert(with_hash[0].block_hash == hash@);
            lemma_filter_subset(rows0, |b: BlockRowV| b.block_hash == hash@, with_hash[0]);
            let i = choose|i: int| 0 <= i < rows0.len() && rows0[i] == with_hash[0];
            assert(rows0[i].block_hash == hash@);
        }
        return Ok(
            HeightReport {
                height,
                block_hash: hash,
                status: HeightStatus::Skipped,
                failures: Vec::new(),
            },
        );
    }
    proof {
        assert(!spec_has_block_hash(rows0, hash@)) by {
            existing@.map_values(|b: Block| b@).to_multiset_ensures();
            with_hash.to_multiset_ensures();
            if spec_has_block_hash(rows0, hash@) {
                let i = choose|i: int| 0 <= i < rows0.len() && rows0[i].block_hash == hash@;
                rows0.filter_lemma(|b: BlockRowV| b.block_hash == hash@);
                assert(with_hash.contains(rows0[i]));
            }
        }
    }
    let hex = match chain.block(hash.as_str()) {
        Ok(h) => h,
        Err(e) => {
            proof {
                assert(tweaks0.is_prefix_of(tweaks0));
            }
            return Err(e);
        },
    };
    let block_data = match decode_block(hex.as_str()) {
        Ok(b) => b,
        Err(_) => {
            return Ok(
                HeightReport {
                    height,
                    block_hash: hash,
                    status: HeightStatus::DecodeFailed,
                    failures: Vec::new(),
                },
            );
        },
    };
    let result = process_transactions(chain, &block_data);
    let ghost bv = block_data@;
    let ghost resultv = result@;
    let ghost resps = choose|rp: Seq<Seq<Option<TxV>>>|
        resultv == spec_process_block(bv.hash, bv.txs, rp);
    let mut i: usize = 0;
    while i < result.rows.len()
        invariant
            i <= result.rows.len(),
            rows0 == block_rows(old(db).conn),
            tweaks0 == tweak_rows(old(db).conn),
            block_rows(db.conn) == rows0,
            tweak_rows(db.conn) == tweaks0 + resultv.rows.take(i as int),
            resultv == result@,
        decreases result.rows.len() - i,
    {
        let row = &result.rows[i];
        let ghost before = tweak_rows(db.conn);
        match db.insert_tweak(row.block_hash.as_str(), row.tweak.as_str(), row.tx_id.as_str()) {
            Ok(_) => {},
            Err(e) => {
                proof {
                    assert(tweaks0.is_prefix_of(before)) by {
                        assert(before.subrange(0, tweaks0.len() as int) =~= tweaks0);
                    }
                }
                return Err(e.message());
            },
        }
        proof {
            assert(tweak_rows(db.conn) =~= tweaks0 + resultv.rows.take(i + 1)) by {
                assert(resultv.rows.take(i + 1) =~= resultv.rows.take(i as int).push(
                    resultv.rows[i as int],
                ));
                assert(resultv.rows[i as int] == row@);
            }
        }
        i += 1;
    }
    proof {
        assert(resultv.rows.take(result.rows.len() as int) =~= resultv.rows);
    }
    match db.insert_block(hash.as_str(), height, result.has_tweaks) {
        Ok(_) => {
            proof {
                let witness_out = spec_process_block(bv.hash, bv.txs, resps);
                assert(result.has_tweaks == witness_out.has_tweaks);
                assert(tweak_rows(db.conn) == tweaks0 + witness_out.rows);
                assert(resultv.failures == witness_out.failures);
            }
            Ok(
                HeightReport {
                    height,
                    block_hash: hash,
                    status: HeightStatus::Indexed(result.has_tweaks),
                    failures: result.failures,
                },
            )
        },
        Err(e) => {
            proof {
                assert(tweaks0.is_prefix_of(tweak_rows(db.conn))) by {
                    assert(tweak_rows(db.conn).subrange(0, tweaks0.len() as int) =~= tweaks0);
                }
            }
            Err(e.message())
        },
    }
}

/// Walk the heights from `start` to `end`, both inclusive, indexing each
/// one (see [`index_height`]). The store only grows: every row it held is
/// still there, every appended block row lies in the range and carries a
/// hash that was new when it was written, so unique hashes stay unique; a
/// fatal failure leaves every earlier height durably recorded.
pub fn run_range<C: ChainAccess>(chain: &mut C, db: &mut Database, start: u32, end: u32) -> (r:
    Result<Vec<HeightReport>, String>)
    ensures
        block_rows(old(db).conn).is_prefix_of(block_rows(final(db).conn)),
        tweak_rows(old(db).conn).is_prefix_of(tweak_rows(final(db).conn)),
        forall|j: int|
            block_rows(old(db).conn).len() <= j < block_rows(final(db).conn).len() ==> start <= (
            #[trigger] block_rows(final(db).conn)[j]).height <= end,
        spec_unique_hashes(block_rows(old(db).conn)) ==> spec_unique_hashes(
            block_rows(final(db).conn),
        ),
        match r {
            Ok(reps) => {
                &&& start <= end ==> reps@.len() == end - start + 1
                &&& start > end ==> reps@.len() == 0
                &&& forall|j: int| 0 <= j < reps@.len() ==> (#[trigger] reps@[j]).height == start
                    + j
            },
            Err(_) => true,
        },
{
    let ghost rows0 = block_rows(db.conn);
    let ghost tweaks0 = tweak_rows(db.conn);
    let mut reports: Vec<HeightReport> = Vec::new();
    proof {
        assert(rows0.is_prefix_of(rows0));
        assert(tweaks0.is_prefix_of(tweaks0));
    }
    if start > end {
        return Ok(reports);
    }
    let mut h = start;
    loop
        invariant_except_break
            reports@.len() == h - start,
        invariant
            start <= h <= end,
            forall|j: int| 0 <= j < reports@.len() ==> (#[trigger] reports@[j]).height == start
                + j,
            rows0 == block_rows(old(db).conn),
            tweaks0 == tweak_rows(old(db).conn),
            rows0.is_prefix_of(block_rows(db.conn)),
            tweaks0.is_prefix_of(tweak_rows(db.conn)),
            forall|j: int|
                rows0.len() <= j < block_rows(db.conn).len() ==> start <= (
                #[trigger] block_rows(db.conn)[j]).height <= end,
            spec_unique_hashes(rows0) ==> spec_unique_hashes(block_rows(db.conn)),
        ensures
            rows0.is_prefix_of(block_rows(db.conn)),
            tweaks0.is_prefix_of(tweak_rows(db.conn)),
            forall|j: int|
                rows0.len() <= j < block_rows(db.conn).len() ==> start <= (
                #[trigger] block_rows(db.conn)[j]).height <= end,
            spec_unique_hashes(rows0) ==> spec_unique_hashes(block_rows(db.conn)),
            reports@.len() == end - start + 1,
            forall|j: int| 0 <= j < reports@.len() ==> (#[trigger] reports@[j]).height == start
                + j,
        decreases end - h,
    {
        let ghost rows_before = block_rows(db.conn);
        let ghost tweaks_before = tweak_rows(db.conn);
        let rep = match index_height(chain, db, h) {
            Ok(rp) => rp,
            Err(e) => {
                proof {
                    lemma_prefix_step(rows0, rows_before, block_rows(db.conn));
                    lemma_prefix_step(tweaks0, tweaks_before, tweak_rows(db.conn));
                }
                return Err(e);
            },
        };
        proof {
            lemma_prefix_step(tweaks0, tweaks_before, tweak_rows(db.conn));
            if rep.status is Indexed {
                let rowsb = rows_before;
                let added = BlockRowV {
                    height: h,
                    block_hash: rep.block_hash@,
                    has_tweaks: rep.status->Indexed_0,
                };
                assert(block_rows(db.conn) == rowsb.push(added));
                assert(rows0.is_prefix_of(block_rows(db.conn))) by {
                    assert(block_rows(db.conn).subrange(0, rows0.len() as int) =~= rows0);
                }
                if spec_unique_hashes(rows0) {
                    lemma_unique_hashes_push(rowsb, added);
                }
            }
        }
        reports.push(rep);
        if h == end {
            break ;
        }
        h += 1;
    }
    Ok(reports)
}

/// Prefixes compose: what was a prefix before a growth step still is one.
proof fn lemma_prefix_step<A>(base: Seq<A>, mid: Seq<A>, last: Seq<A>)
    requires
        base.is_prefix_of(mid),
        mid.is_prefix_of(last),
    ensures
        base.is_prefix_of(last),
{
    assert(last.subrange(0, base.len() as int) =~= base);
}

} // verus!

