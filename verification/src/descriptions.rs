//! The tables of the database as far as descriptions go, and what the statements
//! that write a description do to them.

use crate::asset::{AssetId, asset_named, law_asset_named};
use crate::database::{database_error, description_run, law_description_run};
use crate::error::ErrorView;
use crate::reading::{
    insert_code, law_exists_constants, law_insert_constants, law_update_constants,
    lemma_codes_differ, read_statement, update_code,
};
use crate::sql::{asset_exists, update_description};
use vstd::prelude::*;

verus! {

/// A row of the table `asset_exif`: the columns `description`, `updatedAt` and
/// `updateId`.
pub struct Row {
    pub description: Option<Seq<char>>,
    pub updated_at: nat,
    pub update_id: nat,
}

/// The assets of the asset table, and the rows of the table `asset_exif` by asset.
pub struct Tables {
    pub assets: Set<AssetId>,
    pub rows: Map<AssetId, Row>,
}

/// What the database makes of a request: the error with which it fails, where it
/// does, and what `NOW()` and `immich_uuid_v7()` give at that moment.
pub struct Attempt {
    pub failure: Option<Seq<char>>,
    pub now: nat,
    pub fresh_id: nat,
}

/// What the database makes of the requests that write a description.
pub struct Attempts {
    pub update: Attempt,
    pub check: Attempt,
    pub insert: Attempt,
}

/// The row that a write of `description` leaves.
pub open spec fn written(description: Seq<char>, attempt: Attempt) -> Row {
    Row {
        description: Some(description),
        updated_at: attempt.now,
        update_id: attempt.fresh_id,
    }
}

/// The tables after a statement. The update of a description changes the row of the
/// asset that it names, where there is one; the insertion puts a row there in any
/// case. Any other statement changes nothing here, and neither does one that fails.
pub open spec fn executed(tables: Tables, statement: Seq<char>, attempt: Attempt) -> Tables {
    match read_statement(statement, false) {
        Some((code, constants)) => if attempt.failure is Some {
            tables
        } else if code == update_code() {
            let id = asset_named(constants[1]);
            if tables.rows.contains_key(id) {
                Tables { rows: tables.rows.insert(id, written(constants[0], attempt)), ..tables }
            } else {
                tables
            }
        } else if code == insert_code() {
            let id = asset_named(constants[0]);
            Tables { rows: tables.rows.insert(id, written(constants[1], attempt)), ..tables }
        } else {
            tables
        },
        None => tables,
    }
}

/// How many rows the update of a description changes.
pub open spec fn rows_updated(tables: Tables, statement: Seq<char>) -> u64 {
    match read_statement(statement, false) {
        Some((_, constants)) => if tables.rows.contains_key(asset_named(constants[1])) {
            1
        } else {
            0
        },
        None => 0,
    }
}

/// Whether the asset that a query names is in the asset table.
pub open spec fn asset_found(tables: Tables, query: Seq<char>) -> bool {
    match read_statement(query, false) {
        Some((_, constants)) => tables.assets.contains(asset_named(constants[0])),
        None => false,
    }
}

/// A reply of the database, where the request does not fail.
pub open spec fn reply_or_failure<T>(reply: T, attempt: Attempt) -> Result<T, Seq<char>> {
    match attempt.failure {
        Some(error) => Err(error),
        None => Ok(reply),
    }
}

/// The requests of a run that writes a description, and its outcome, where the
/// database answers from its tables.
pub open spec fn answered_run(
    tables: Tables,
    id: AssetId,
    description: Seq<char>,
    attempts: Attempts,
    not_found: Seq<char>,
) -> (Seq<Seq<char>>, Result<(), ErrorView>) {
    description_run(
        id,
        description,
        reply_or_failure(
            rows_updated(tables, update_description(id, description)),
            attempts.update,
        ),
        reply_or_failure(asset_found(tables, asset_exists(id)), attempts.check),
        reply_or_failure(1u64, attempts.insert),
        not_found,
    )
}

/// The tables after the request number `n`, where there is one.
pub open spec fn after_request(
    tables: Tables,
    requests: Seq<Seq<char>>,
    n: int,
    attempt: Attempt,
) -> Tables {
    if n < requests.len() {
        executed(tables, requests[n], attempt)
    } else {
        tables
    }
}

/// The tables after the requests of a run that writes a description.
pub open spec fn tables_after(
    tables: Tables,
    requests: Seq<Seq<char>>,
    attempts: Attempts,
) -> Tables {
    let updated = after_request(tables, requests, 0, attempts.update);
    let checked = after_request(updated, requests, 1, attempts.check);
    after_request(checked, requests, 2, attempts.insert)
}

/// The asset has a description that is not empty.
pub open spec fn has_description(tables: Tables, id: AssetId) -> bool {
    tables.rows.contains_key(id) && (tables.rows[id].description matches Some(description)
        && description.len() > 0)
}

/// A run that succeeds leaves the description in the row of the asset, with the
/// moment and the identifier of the write, and every other row as it was; one that
/// fails leaves every row as it was. Where no request fails, a run succeeds exactly
/// when the asset has a row or is in the asset table.
pub proof fn law_write_description(
    tables: Tables,
    id: AssetId,
    description: Seq<char>,
    attempts: Attempts,
    not_found: Seq<char>,
)
    ensures
        ({
            let (requests, outcome) = answered_run(tables, id, description, attempts, not_found);
            let after = tables_after(tables, requests, attempts);
            let known = tables.rows.contains_key(id) || tables.assets.contains(id);
            let attempt = if tables.rows.contains_key(id) {
                attempts.update
            } else {
                attempts.insert
            };
            &&& after.assets == tables.assets
            &&& outcome is Ok ==> after.rows == tables.rows.insert(
                id,
                written(description, attempt),
            )
            &&& outcome is Err ==> after.rows == tables.rows
            &&& attempts.update.failure is None && attempts.check.failure is None
                && attempts.insert.failure is None ==> (outcome is Ok <==> known)
            &&& attempts.update.failure is None && attempts.check.failure is None && !known
                ==> outcome == Err::<(), ErrorView>(database_error(not_found))
        }),
{
    law_update_constants(id, description);
    law_exists_constants(id);
    law_insert_constants(id, description);
    law_asset_named(id);
    lemma_codes_differ(0);
    law_description_run(
        id,
        description,
        reply_or_failure(
            rows_updated(tables, update_description(id, description)),
            attempts.update,
        ),
        reply_or_failure(asset_found(tables, asset_exists(id)), attempts.check),
        reply_or_failure(1u64, attempts.insert),
        not_found,
    );
}

/// A second description of an asset takes the place of the first: the row holds the
/// second text alone, and there is no new row.
pub proof fn law_second_write_replaces(
    tables: Tables,
    id: AssetId,
    first: Seq<char>,
    second: Seq<char>,
    attempts: Attempts,
    second_attempts: Attempts,
    not_found: Seq<char>,
)
    requires
        answered_run(tables, id, first, attempts, not_found).1 is Ok,
    ensures
        ({
            let once = tables_after(
                tables,
                answered_run(tables, id, first, attempts, not_found).0,
                attempts,
            );
            let (requests, outcome) = answered_run(once, id, second, second_attempts, not_found);
            let twice = tables_after(once, requests, second_attempts);
            let row = written(second, second_attempts.update);
            &&& outcome is Ok <==> second_attempts.update.failure is None
            &&& outcome is Ok ==> twice.rows == once.rows.insert(id, row)
            &&& outcome is Ok ==> twice.rows == tables.rows.insert(id, row)
            &&& twice.rows.dom() == once.rows.dom()
            &&& twice.assets == tables.assets
        }),
{
    law_write_description(tables, id, first, attempts, not_found);
    let once = tables_after(
        tables,
        answered_run(tables, id, first, attempts, not_found).0,
        attempts,
    );
    let row = written(second, second_attempts.update);
    law_write_description(once, id, second, second_attempts, not_found);
    law_update_constants(id, second);
    law_asset_named(id);
    assert(once.rows.insert(id, row) == tables.rows.insert(id, row));
    assert(once.rows.insert(id, row).dom() == once.rows.dom());
}

/// After a description is written, the asset has a description exactly when what was
/// written is not empty; every other asset has one exactly when it had one.
pub proof fn law_has_description_after_write(
    tables: Tables,
    id: AssetId,
    description: Seq<char>,
    attempts: Attempts,
    not_found: Seq<char>,
)
    requires
        answered_run(tables, id, description, attempts, not_found).1 is Ok,
    ensures
        ({
            let after = tables_after(
                tables,
                answered_run(tables, id, description, attempts, not_found).0,
                attempts,
            );
            &&& has_description(after, id) <==> description.len() > 0
            &&& forall|other: AssetId|
                other != id ==> (#[trigger] has_description(after, other) <==> has_description(
                    tables,
                    other,
                ))
        }),
{
    law_write_description(tables, id, description, attempts, not_found);
}

} // verus!
