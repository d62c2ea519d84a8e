use image_tags::asset::AssetId;
use image_tags::database::{
    after_check, after_insert, after_update, asset_exists_answer, begin_description,
    connection_answer, has_description_answer, tag_write_answer, upsert_tag_request,
    ConnectionReply, DescriptionStep, Notice,
};
use image_tags::error::ImageAnalysisError;
use image_tags::sql::{
    asset_exists_query, insert_description_query, update_description_query, upsert_tag_query,
};
use std::collections::BTreeMap;

fn id() -> AssetId {
    AssetId { bits: 0x0123456789abcdef0fedcba987654321 }
}

fn text() -> String {
    "01234567-89ab-cdef-0fed-cba987654321".to_owned()
}

fn failure(error: &str) -> ImageAnalysisError {
    ImageAnalysisError::DatabaseError { error: error.to_owned() }
}

#[test]
fn writing_begins_with_an_update() {
    let (first, second, query) = begin_description(&id(), "caf\u{e9}");
    assert_eq!(first, Notice::UpdatingAsset { asset_id: text() });
    assert_eq!(
        second,
        Notice::DescriptionLength { length: 5, preview: "caf\u{e9}".to_owned() }
    );
    assert_eq!(query, update_description_query(&id(), "caf\u{e9}"));
}

#[test]
fn preview_has_a_hundred_characters() {
    let long = "\u{e9}".repeat(150);
    let (_, second, _) = begin_description(&id(), &long);
    assert_eq!(
        second,
        Notice::DescriptionLength { length: 300, preview: "\u{e9}".repeat(100) }
    );
    let exact = "x".repeat(100);
    let (_, second, _) = begin_description(&id(), &exact);
    assert_eq!(second, Notice::DescriptionLength { length: 100, preview: exact.clone() });
}

#[test]
fn an_update_that_touches_a_row_ends_the_matter() {
    let (notice, step) = after_update(&id(), "d", Ok(1));
    assert_eq!(notice, Some(Notice::Updated { asset_id: text() }));
    assert_eq!(step, DescriptionStep::Finished { result: Ok(()) });
}

#[test]
fn an_update_without_a_row_looks_for_the_asset() {
    let (notice, step) = after_update(&id(), "d", Ok(0));
    assert_eq!(notice, None);
    assert_eq!(step, DescriptionStep::CheckAsset { query: asset_exists_query(&id()) });
}

#[test]
fn a_failed_update_is_the_outcome() {
    let (notice, step) = after_update(&id(), "d", Err("gone".to_owned()));
    assert_eq!(
        notice,
        Some(Notice::UpdateFailed {
            asset_id: text(),
            error: "gone".to_owned(),
            query: update_description_query(&id(), "d"),
        })
    );
    assert_eq!(step, DescriptionStep::Finished { result: Err(failure("gone")) });
}

#[test]
fn an_asset_that_is_there_gets_a_row() {
    let (notice, step) = after_check(&id(), "d", Ok(true), "not found");
    assert_eq!(notice, None);
    assert_eq!(step, DescriptionStep::Insert { query: insert_description_query(&id(), "d") });
}

#[test]
fn an_asset_that_is_not_there_is_an_error() {
    let (notice, step) = after_check(&id(), "d", Ok(false), "not found");
    assert_eq!(notice, Some(Notice::AssetNotInTable { asset_id: text() }));
    assert_eq!(step, DescriptionStep::Finished { result: Err(failure("not found")) });
}

#[test]
fn a_failed_check_is_the_outcome() {
    let (notice, step) = after_check(&id(), "d", Err("gone".to_owned()), "not found");
    assert_eq!(notice, Some(Notice::AssetCheckFailed { error: "gone".to_owned() }));
    assert_eq!(step, DescriptionStep::Finished { result: Err(failure("gone")) });
}

#[test]
fn an_insertion_ends_the_matter() {
    let (notice, result) = after_insert(&id(), "d", Ok(0));
    assert_eq!(notice, Notice::Inserted { asset_id: text() });
    assert_eq!(result, Ok(()));
    let (notice, result) = after_insert(&id(), "d", Err("gone".to_owned()));
    assert_eq!(
        notice,
        Notice::InsertFailed {
            asset_id: text(),
            error: "gone".to_owned(),
            query: insert_description_query(&id(), "d"),
        }
    );
    assert_eq!(result, Err(failure("gone")));
}

#[test]
fn questions_are_answered() {
    assert_eq!(has_description_answer(Ok(true)), (None, Ok(true)));
    assert_eq!(has_description_answer(Ok(false)), (None, Ok(false)));
    assert_eq!(
        has_description_answer(Err("gone".to_owned())),
        (
            Some(Notice::DescriptionCheckFailed { error: "gone".to_owned() }),
            Err(failure("gone"))
        )
    );
    assert_eq!(asset_exists_answer(Ok(true)), (None, Ok(true)));
    assert_eq!(asset_exists_answer(Ok(false)), (None, Ok(false)));
    assert_eq!(
        asset_exists_answer(Err("gone".to_owned())),
        (Some(Notice::AssetCheckFailed { error: "gone".to_owned() }), Err(failure("gone")))
    );
}

#[test]
fn the_connection_is_checked() {
    assert_eq!(
        connection_answer(ConnectionReply::Answered, "failed", "late"),
        (Notice::Connected, Ok(true))
    );
    assert_eq!(
        connection_answer(ConnectionReply::Failed { error: "gone".to_owned() }, "failed", "late"),
        (Notice::QueryFailed { error: "gone".to_owned() }, Err(failure("failed")))
    );
    assert_eq!(
        connection_answer(ConnectionReply::TimedOut, "failed", "late"),
        (Notice::TimedOut, Err(failure("late")))
    );
}

#[test]
fn an_embedding_that_is_no_vector_is_refused() {
    assert_eq!(
        upsert_tag_request(&id(), "toad", "[1,2]"),
        Ok(upsert_tag_query(&id(), "toad", "[1,2]"))
    );
    assert_eq!(
        upsert_tag_request(&id(), "toad", "[1,2"),
        Err(ImageAnalysisError::ClipEncodingError { error: "Invalid embedding format".to_owned() })
    );
    assert_eq!(
        upsert_tag_request(&id(), "toad", "[]"),
        Err(ImageAnalysisError::ClipEncodingError { error: "Invalid embedding format".to_owned() })
    );
}

#[test]
fn a_failed_write_of_tags_is_not_fatal() {
    assert_eq!(tag_write_answer(&Ok(3)), Ok(()));
    assert_eq!(tag_write_answer(&Err("gone".to_owned())), Ok(()));
}

/// Writes a description with a database of these assets and descriptions at hand.
fn write(
    assets: &[u128],
    rows: &mut BTreeMap<u128, String>,
    bits: u128,
    description: &str,
) -> Result<(), ImageAnalysisError> {
    let id = AssetId { bits };
    let (_, _, query) = begin_description(&id, description);
    assert_eq!(query, update_description_query(&id, description));
    let updated = match rows.get_mut(&bits) {
        Some(row) => {
            *row = description.to_owned();
            1
        }
        None => 0,
    };
    match after_update(&id, description, Ok(updated)).1 {
        DescriptionStep::Finished { result } => result,
        DescriptionStep::CheckAsset { .. } => {
            match after_check(&id, description, Ok(assets.contains(&bits)), "not found").1 {
                DescriptionStep::Finished { result } => result,
                DescriptionStep::Insert { query } => {
                    assert_eq!(query, insert_description_query(&id, description));
                    rows.insert(bits, description.to_owned());
                    after_insert(&id, description, Ok(1)).1
                }
                DescriptionStep::CheckAsset { .. } => unreachable!(),
            }
        }
        DescriptionStep::Insert { .. } => unreachable!(),
    }
}

fn has_description(rows: &BTreeMap<u128, String>, bits: u128) -> bool {
    rows.get(&bits).map_or(false, |row| !row.is_empty())
}

#[test]
fn a_second_description_replaces_the_first() {
    let mut rows = BTreeMap::new();
    assert_eq!(write(&[1], &mut rows, 1, "first"), Ok(()));
    assert_eq!(rows.len(), 1);
    assert_eq!(write(&[1], &mut rows, 1, "second"), Ok(()));
    assert_eq!(rows.len(), 1);
    assert_eq!(rows[&1], "second");
    assert_eq!(write(&[1], &mut rows, 2, "lost"), Err(failure("not found")));
    assert_eq!(rows.len(), 1);
}

#[test]
fn an_asset_has_the_description_that_was_written() {
    let mut rows = BTreeMap::new();
    assert!(!has_description(&rows, 1));
    assert_eq!(write(&[1], &mut rows, 1, "toad"), Ok(()));
    assert!(has_description(&rows, 1));
    assert_eq!(write(&[1], &mut rows, 1, ""), Ok(()));
    assert!(!has_description(&rows, 1));
}
