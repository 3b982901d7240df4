//! The read-only lookup operations the query service serves: tweak rows by
//! block hash, and the highest persisted height.

use vstd::prelude::*;
use crate::store::{
    block_rows, spec_max_height, spec_tweaks_with_hash, Database, StoreError, TweakRowV, Tweaks,
};

verus! {

/// One tweak row as served to lookup clients.
#[derive(Debug)]
pub struct Tweak {
    pub block_hash: String,
    pub tx_id: String,
    pub tweak: String,
}

impl View for Tweak {
    type V = TweakRowV;

    open spec fn view(&self) -> TweakRowV {
        TweakRowV { block_hash: self.block_hash@, tx_id: self.tx_id@, tweak: self.tweak@ }
    }
}

/// Fetch the tweak rows persisted for one block hash, as lookup rows.
pub fn fetch_tweaks(db: &Database, block_hash: &str) -> (r: Result<Vec<Tweak>, StoreError>)
    ensures
        match r {
            Ok(v) => v@.map_values(|t: Tweak| t@).to_multiset() == spec_tweaks_with_hash(
                db.tweaks(),
                block_hash@,
            ).to_multiset(),
            Err(_) => true,
        },
{
    let rows = match db.get_tweaks(block_hash) {
        Ok(v) => v,
        Err(e) => {
            return Err(e);
        },
    };
    let mut out: Vec<Tweak> = Vec::new();
    let mut i: usize = 0;
    while i < rows.len()
        invariant
            i <= rows.len(),
            out@.len() == i,
            rows@.map_values(|t: Tweaks| t@).to_multiset() == spec_tweaks_with_hash(
                db.tweaks(),
                block_hash@,
            ).to_multiset(),
            forall|j: int| 0 <= j < i ==> (#[trigger] out@[j])@ == rows@[j]@,
        decreases rows.len() - i,
    {
        let row = &rows[i];
        out.push(
            Tweak {
                block_hash: row.block_hash.clone(),
                tx_id: row.tx_id.clone(),
                tweak: row.tweak.clone(),
            },
        );
        i += 1;
    }
    assert(out@.map_values(|t: Tweak| t@) =~= rows@.map_values(|t: Tweaks| t@));
    Ok(out)
}

/// Relies on rusqlite prepare/query_row with SELECT max(height): the largest
/// height among the block rows, or 0 where the table is empty (the query
/// then yields one row holding NULL, read back as nothing).
#[verifier::external_body]
pub fn get_highest_block(db: &Database) -> (r: Result<u32, StoreError>)
    ensures
        match r {
            Ok(h) => h == spec_max_height(block_rows(db.conn)),
            Err(_) => true,
        },
{
    let mut stmt = match db.conn.prepare("SELECT max(height) FROM blocks") {
        Ok(s) => s,
        Err(_) => return Err(StoreError::Query),
    };
    match stmt.query_row([], |row| row.get::<usize, Option<u32>>(0)) {
        Ok(Some(h)) => Ok(h),
        Ok(None) => Ok(0),
        Err(_) => Err(StoreError::Query),
    }
}

} // verus!
