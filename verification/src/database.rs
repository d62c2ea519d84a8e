//! What is asked of the database, and what its replies mean.
//!
//! The database itself is elsewhere: each function here takes a reply and says
//! what is to be reported, what is to be asked next, or what the outcome is.

use crate::asset::AssetId;
use crate::embedding::{is_valid_embedding, valid_embedding};
use crate::error::{ErrorView, ImageAnalysisError, bool_result, unit_result};
use crate::sql::{
    asset_exists, asset_exists_query, insert_description, insert_description_query,
    update_description, update_description_query, upsert_tag, upsert_tag_query,
};
use crate::text::{chars_of, string_of};
use vstd::prelude::*;
use vstd::utf8::encode_utf8;

verus! {

/// How many seconds the database has to answer when its connection is checked.
pub const CONNECTION_TIMEOUT_SECONDS: u64 = 5;

/// How many characters of a description are shown when it is written.
pub const PREVIEW_LENGTH: usize = 100;

/// What is reported to the user, who reads it in a language of their own.
#[derive(Debug, PartialEq, Eq)]
pub enum Notice {
    DescriptionCheckFailed { error: String },
    AssetCheckFailed { error: String },
    UpdatingAsset { asset_id: String },
    DescriptionLength { length: usize, preview: String },
    Updated { asset_id: String },
    UpdateFailed { asset_id: String, error: String, query: String },
    AssetNotInTable { asset_id: String },
    Inserted { asset_id: String },
    InsertFailed { asset_id: String, error: String, query: String },
    Connected,
    QueryFailed { error: String },
    TimedOut,
}

/// A notice with its texts as sequences of characters.
pub enum NoticeView {
    DescriptionCheckFailed { error: Seq<char> },
    AssetCheckFailed { error: Seq<char> },
    UpdatingAsset { asset_id: Seq<char> },
    DescriptionLength { length: usize, preview: Seq<char> },
    Updated { asset_id: Seq<char> },
    UpdateFailed { asset_id: Seq<char>, error: Seq<char>, query: Seq<char> },
    AssetNotInTable { asset_id: Seq<char> },
    Inserted { asset_id: Seq<char> },
    InsertFailed { asset_id: Seq<char>, error: Seq<char>, query: Seq<char> },
    Connected,
    QueryFailed { error: Seq<char> },
    TimedOut,
}

impl View for Notice {
    type V = NoticeView;

    open spec fn view(&self) -> NoticeView {
        match self {
            Notice::DescriptionCheckFailed { error } => NoticeView::DescriptionCheckFailed {
                error: error@,
            },
            Notice::AssetCheckFailed { error } => NoticeView::AssetCheckFailed { error: error@ },
            Notice::UpdatingAsset { asset_id } => NoticeView::UpdatingAsset { asset_id: asset_id@ },
            Notice::DescriptionLength { length, preview } => NoticeView::DescriptionLength {
                length: *length,
                preview: preview@,
            },
            Notice::Updated { asset_id } => NoticeView::Updated { asset_id: asset_id@ },
            Notice::UpdateFailed { asset_id, error, query } => NoticeView::UpdateFailed {
                asset_id: asset_id@,
                error: error@,
                query: query@,
            },
            Notice::AssetNotInTable { asset_id } => NoticeView::AssetNotInTable {
                asset_id: asset_id@,
            },
            Notice::Inserted { asset_id } => NoticeView::Inserted { asset_id: asset_id@ },
            Notice::InsertFailed { asset_id, error, query } => NoticeView::InsertFailed {
                asset_id: asset_id@,
                error: error@,
                query: query@,
            },
            Notice::Connected => NoticeView::Connected,
            Notice::QueryFailed { error } => NoticeView::QueryFailed { error: error@ },
            Notice::TimedOut => NoticeView::TimedOut,
        }
    }
}

/// The view of a notice, where there is one.
pub open spec fn notice_view(notice: Option<Notice>) -> Option<NoticeView> {
    match notice {
        Some(n) => Some(n@),
        None => None,
    }
}

/// What a description's way into the database takes next.
#[derive(Debug, PartialEq, Eq)]
pub enum DescriptionStep {
    /// Ask whether the asset is there.
    CheckAsset { query: String },
    /// Make a row for the asset.
    Insert { query: String },
    /// Nothing more is to be done.
    Finished { result: Result<(), ImageAnalysisError> },
}

/// A step with its texts as sequences of characters.
pub enum StepView {
    CheckAsset { query: Seq<char> },
    Insert { query: Seq<char> },
    Finished { result: Result<(), ErrorView> },
}

impl View for DescriptionStep {
    type V = StepView;

    open spec fn view(&self) -> StepView {
        match self {
            DescriptionStep::CheckAsset { query } => StepView::CheckAsset { query: query@ },
            DescriptionStep::Insert { query } => StepView::Insert { query: query@ },
            DescriptionStep::Finished { result } => StepView::Finished {
                result: unit_result(*result),
            },
        }
    }
}

/// The number of rows that a statement touched, or the text of the failure.
pub open spec fn rows_reply(reply: Result<u64, String>) -> Result<u64, Seq<char>> {
    match reply {
        Ok(rows) => Ok(rows),
        Err(error) => Err(error@),
    }
}

/// A yes or no, or the text of the failure.
pub open spec fn flag_reply(reply: Result<bool, String>) -> Result<bool, Seq<char>> {
    match reply {
        Ok(flag) => Ok(flag),
        Err(error) => Err(error@),
    }
}

/// A failure of the database, with its text.
pub open spec fn database_error(error: Seq<char>) -> ErrorView {
    ErrorView::DatabaseError { error }
}

/// The first characters of a description.
pub open spec fn preview(description: Seq<char>) -> Seq<char> {
    if description.len() <= PREVIEW_LENGTH {
        description
    } else {
        description.take(PREVIEW_LENGTH as int)
    }
}

/// What follows the reply to an update.
pub open spec fn update_step(
    id: AssetId,
    description: Seq<char>,
    reply: Result<u64, Seq<char>>,
) -> (Option<NoticeView>, StepView) {
    match reply {
        Ok(rows) => if rows > 0 {
            (
                Some(NoticeView::Updated { asset_id: id.text() }),
                StepView::Finished { result: Ok(()) },
            )
        } else {
            (None, StepView::CheckAsset { query: asset_exists(id) })
        },
        Err(error) => (
            Some(
                NoticeView::UpdateFailed {
                    asset_id: id.text(),
                    error,
                    query: update_description(id, description),
                },
            ),
            StepView::Finished { result: Err(database_error(error)) },
        ),
    }
}

/// What follows the reply to the question whether the asset is there.
pub open spec fn check_step(
    id: AssetId,
    description: Seq<char>,
    reply: Result<bool, Seq<char>>,
    not_found: Seq<char>,
) -> (Option<NoticeView>, StepView) {
    match reply {
        Ok(true) => (None, StepView::Insert { query: insert_description(id, description) }),
        Ok(false) => (
            Some(NoticeView::AssetNotInTable { asset_id: id.text() }),
            StepView::Finished { result: Err(database_error(not_found)) },
        ),
        Err(error) => (
            Some(NoticeView::AssetCheckFailed { error }),
            StepView::Finished { result: Err(database_error(error)) },
        ),
    }
}

/// What follows the reply to an insertion.
pub open spec fn insert_step(
    id: AssetId,
    description: Seq<char>,
    reply: Result<u64, Seq<char>>,
) -> (NoticeView, Result<(), ErrorView>) {
    match reply {
        Ok(_) => (NoticeView::Inserted { asset_id: id.text() }, Ok(())),
        Err(error) => (
            NoticeView::InsertFailed {
                asset_id: id.text(),
                error,
                query: insert_description(id, description),
            },
            Err(database_error(error)),
        ),
    }
}

fn preview_of(description: &str) -> (s: String)
    ensures
        s@ == preview(description@),
{
    let v = chars_of(description);
    let end: usize = if v.len() <= PREVIEW_LENGTH {
        v.len()
    } else {
        PREVIEW_LENGTH
    };
    assert(v@.subrange(0, end as int) == preview(description@));
    string_of(&v, 0, end)
}

/// How the writing of a description begins: two notices, of the asset and of how
/// many bytes the description has and how it starts, and then an update.
pub fn begin_description(id: &AssetId, description: &str) -> (r: (Notice, Notice, String))
    ensures
        r.0@ == (NoticeView::UpdatingAsset { asset_id: id.text() }),
        r.1@ == (NoticeView::DescriptionLength {
            length: encode_utf8(description@).len() as usize,
            preview: preview(description@),
        }),
        r.2@ == update_description(*id, description@),
{
    (
        Notice::UpdatingAsset { asset_id: id.to_text() },
        Notice::DescriptionLength { length: description.len(), preview: preview_of(description) },
        update_description_query(id, description),
    )
}

/// A description is written first as an update. A row that was touched ends the
/// matter, and so does a failure; with no row, the asset itself is looked for.
pub fn after_update(id: &AssetId, description: &str, reply: Result<u64, String>) -> (r: (
    Option<Notice>,
    DescriptionStep,
))
    ensures
        (notice_view(r.0), r.1@) == update_step(*id, description@, rows_reply(reply)),
{
    match reply {
        Ok(rows) => {
            if rows > 0 {
                (
                    Some(Notice::Updated { asset_id: id.to_text() }),
                    DescriptionStep::Finished { result: Ok(()) },
                )
            } else {
                (None, DescriptionStep::CheckAsset { query: asset_exists_query(id) })
            }
        },
        Err(error) => {
            let notice = Notice::UpdateFailed {
                asset_id: id.to_text(),
                error: error.clone(),
                query: update_description_query(id, description),
            };
            (
                Some(notice),
                DescriptionStep::Finished {
                    result: Err(ImageAnalysisError::DatabaseError { error }),
                },
            )
        },
    }
}

/// An asset that is there gets a row; one that is not is an error, whose text is
/// `not_found`.
pub fn after_check(
    id: &AssetId,
    description: &str,
    reply: Result<bool, String>,
    not_found: &str,
) -> (r: (Option<Notice>, DescriptionStep))
    ensures
        (notice_view(r.0), r.1@) == check_step(
            *id,
            description@,
            flag_reply(reply),
            not_found@,
        ),
{
    match reply {
        Ok(found) => {
            if found {
                (None, DescriptionStep::Insert { query: insert_description_query(id, description) })
            } else {
                (
                    Some(Notice::AssetNotInTable { asset_id: id.to_text() }),
                    DescriptionStep::Finished {
                        result: Err(
                            ImageAnalysisError::DatabaseError { error: not_found.to_owned() },
                        ),
                    },
                )
            }
        },
        Err(error) => {
            let notice = Notice::AssetCheckFailed { error: error.clone() };
            (
                Some(notice),
                DescriptionStep::Finished {
                    result: Err(ImageAnalysisError::DatabaseError { error }),
                },
            )
        },
    }
}

/// An insertion ends the matter either way.
pub fn after_insert(id: &AssetId, description: &str, reply: Result<u64, String>) -> (r: (
    Notice,
    Result<(), ImageAnalysisError>,
))
    ensures
        (r.0@, unit_result(r.1)) == insert_step(*id, description@, rows_reply(reply)),
{
    match reply {
        Ok(_) => (Notice::Inserted { asset_id: id.to_text() }, Ok(())),
        Err(error) => {
            let notice = Notice::InsertFailed {
                asset_id: id.to_text(),
                error: error.clone(),
                query: insert_description_query(id, description),
            };
            (notice, Err(ImageAnalysisError::DatabaseError { error }))
        },
    }
}

/// The requests that the writing of a description sends, one after the other, and
/// its outcome, given how each request would be answered.
pub open spec fn description_run(
    id: AssetId,
    description: Seq<char>,
    update: Result<u64, Seq<char>>,
    check: Result<bool, Seq<char>>,
    insert: Result<u64, Seq<char>>,
    not_found: Seq<char>,
) -> (Seq<Seq<char>>, Result<(), ErrorView>) {
    let update_query = update_description(id, description);
    match update_step(id, description, update).1 {
        StepView::Finished { result } => (seq![update_query], result),
        StepView::CheckAsset { query } => match check_step(id, description, check, not_found).1 {
            StepView::Finished { result } => (seq![update_query, query], result),
            StepView::Insert { query: insert_query } => (
                seq![update_query, query, insert_query],
                insert_step(id, description, insert).1,
            ),
            StepView::CheckAsset { .. } => arbitrary(),
        },
        StepView::Insert { .. } => arbitrary(),
    }
}

/// A description is written exactly when the update touches a row, or touches none
/// and the asset is there and takes the insertion. The asset is looked for only
/// when the update touched no row, and a row is made only for an asset that is
/// there. Otherwise the outcome is the failure of the last request that was sent,
/// or that the asset was not found.
pub proof fn law_description_run(
    id: AssetId,
    description: Seq<char>,
    update: Result<u64, Seq<char>>,
    check: Result<bool, Seq<char>>,
    insert: Result<u64, Seq<char>>,
    not_found: Seq<char>,
)
    ensures
        ({
            let (requests, outcome) = description_run(
                id,
                description,
                update,
                check,
                insert,
                not_found,
            );
            let looked_for = update == Ok::<u64, Seq<char>>(0);
            let there = looked_for && check == Ok::<bool, Seq<char>>(true);
            &&& requests == (if there {
                seq![
                    update_description(id, description),
                    asset_exists(id),
                    insert_description(id, description),
                ]
            } else if looked_for {
                seq![update_description(id, description), asset_exists(id)]
            } else {
                seq![update_description(id, description)]
            })
            &&& outcome is Ok <==> (update is Ok && update->Ok_0 > 0) || (there && insert is Ok)
            &&& outcome is Err ==> outcome->Err_0 == database_error(
                if update is Err {
                    update->Err_0
                } else if check is Err {
                    check->Err_0
                } else if there {
                    insert->Err_0
                } else {
                    not_found
                },
            )
        }),
{
}

/// Whether the asset has a description, as the database says.
pub fn has_description_answer(reply: Result<bool, String>) -> (r: (
    Option<Notice>,
    Result<bool, ImageAnalysisError>,
))
    ensures
        (notice_view(r.0), bool_result(r.1)) == (match flag_reply(reply) {
            Ok(flag) => (None, Ok::<bool, ErrorView>(flag)),
            Err(error) => (
                Some(NoticeView::DescriptionCheckFailed { error }),
                Err(database_error(error)),
            ),
        }),
{
    match reply {
        Ok(flag) => (None, Ok(flag)),
        Err(error) => (
            Some(Notice::DescriptionCheckFailed { error: error.clone() }),
            Err(ImageAnalysisError::DatabaseError { error }),
        ),
    }
}

/// Whether the asset still is in the asset table, as the database says.
///
/// A preview file is not proof that the asset is still there: it is not always
/// removed with the asset, so a scan of the files keeps finding orphaned previews.
pub fn asset_exists_answer(reply: Result<bool, String>) -> (r: (
    Option<Notice>,
    Result<bool, ImageAnalysisError>,
))
    ensures
        (notice_view(r.0), bool_result(r.1)) == (match flag_reply(reply) {
            Ok(flag) => (None, Ok::<bool, ErrorView>(flag)),
            Err(error) => (
                Some(NoticeView::AssetCheckFailed { error }),
                Err(database_error(error)),
            ),
        }),
{
    match reply {
        Ok(flag) => (None, Ok(flag)),
        Err(error) => (
            Some(Notice::AssetCheckFailed { error: error.clone() }),
            Err(ImageAnalysisError::DatabaseError { error }),
        ),
    }
}

/// What came of a query that checks the connection.
#[derive(Debug, PartialEq, Eq)]
pub enum ConnectionReply {
    /// The database answered.
    Answered,
    /// The query failed, with this text.
    Failed { error: String },
    /// There was no answer in time.
    TimedOut,
}

/// Whether the database can be reached. The error says `query_failed` where the
/// query failed, and `timed_out` where there was no answer.
pub fn connection_answer(reply: ConnectionReply, query_failed: &str, timed_out: &str) -> (r: (
    Notice,
    Result<bool, ImageAnalysisError>,
))
    ensures
        (r.0@, bool_result(r.1)) == (match reply {
            ConnectionReply::Answered => (NoticeView::Connected, Ok::<bool, ErrorView>(true)),
            ConnectionReply::Failed { error } => (
                NoticeView::QueryFailed { error: error@ },
                Err(database_error(query_failed@)),
            ),
            ConnectionReply::TimedOut => (NoticeView::TimedOut, Err(database_error(timed_out@))),
        }),
{
    match reply {
        ConnectionReply::Answered => (Notice::Connected, Ok(true)),
        ConnectionReply::Failed { error } => (
            Notice::QueryFailed { error },
            Err(ImageAnalysisError::DatabaseError { error: query_failed.to_owned() }),
        ),
        ConnectionReply::TimedOut => (
            Notice::TimedOut,
            Err(ImageAnalysisError::DatabaseError { error: timed_out.to_owned() }),
        ),
    }
}

/// The statement that stores a tag's embedding; an embedding that is no vector is
/// refused.
pub fn upsert_tag_request(id: &AssetId, tag: &str, embedding: &str) -> (r: Result<
    String,
    ImageAnalysisError,
>)
    ensures
        match r {
            Ok(query) => valid_embedding(embedding@) && query@ == upsert_tag(
                *id,
                tag@,
                embedding@,
            ),
            Err(e) => !valid_embedding(embedding@) && e@ == (ErrorView::ClipEncodingError {
                error: "Invalid embedding format"@,
            }),
        },
{
    if !is_valid_embedding(embedding) {
        return Err(
            ImageAnalysisError::ClipEncodingError { error: "Invalid embedding format".to_owned() },
        );
    }
    Ok(upsert_tag_query(id, tag, embedding))
}

/// The outcome of a statement on the rows of tags: that it failed is not fatal.
pub fn tag_write_answer(reply: &Result<u64, String>) -> (r: Result<(), ImageAnalysisError>)
    ensures
        r == Ok::<(), ImageAnalysisError>(()),
{
    match reply {
        Ok(_) => Ok(()),
        Err(_) => Ok(()),
    }
}

/// A preview is the start of the description: all of it up to a hundred characters, and
/// else a hundred of them.
pub proof fn law_preview(description: Seq<char>)
    ensures
        preview(description).is_prefix_of(description),
        preview(description).len() == if description.len() <= 100 {
            description.len()
        } else {
            100
        },
{
}

/// The reply to an update decides what follows it. Rows that were touched, however many,
/// end the matter with success; no row leads to the question whether the asset is there;
/// a failure ends the matter with its own text.
pub proof fn law_update_reply(
    id: AssetId,
    description: Seq<char>,
    rows: u64,
    error: Seq<char>,
)
    requires
        rows > 0,
    ensures
        update_step(id, description, Ok(rows)) == (
            Some(NoticeView::Updated { asset_id: id.text() }),
            StepView::Finished { result: Ok(()) },
        ),
        update_step(id, description, Ok(0)) == (
            None::<NoticeView>,
            StepView::CheckAsset { query: asset_exists(id) },
        ),
        update_step(id, description, Err(error)) == (
            Some(
                NoticeView::UpdateFailed {
                    asset_id: id.text(),
                    error,
                    query: update_description(id, description),
                },
            ),
            StepView::Finished { result: Err(ErrorView::DatabaseError { error }) },
        ),
{
}

/// An asset that is there gets a row; one that is not, and a failure, end the matter with
/// their own texts.
pub proof fn law_check_reply(
    id: AssetId,
    description: Seq<char>,
    error: Seq<char>,
    not_found: Seq<char>,
)
    ensures
        check_step(id, description, Ok(true), not_found) == (
            None::<NoticeView>,
            StepView::Insert { query: insert_description(id, description) },
        ),
        check_step(id, description, Ok(false), not_found) == (
            Some(NoticeView::AssetNotInTable { asset_id: id.text() }),
            StepView::Finished { result: Err(ErrorView::DatabaseError { error: not_found }) },
        ),
        check_step(id, description, Err(error), not_found) == (
            Some(NoticeView::AssetCheckFailed { error }),
            StepView::Finished { result: Err(ErrorView::DatabaseError { error }) },
        ),
{
}

/// An insertion is a success however many rows it touched; its failure keeps its text.
pub proof fn law_insert_reply(id: AssetId, description: Seq<char>, rows: u64, error: Seq<char>)
    ensures
        insert_step(id, description, Ok(rows)) == (
            NoticeView::Inserted { asset_id: id.text() },
            Ok::<(), ErrorView>(()),
        ),
        insert_step(id, description, Err(error)) == (
            NoticeView::InsertFailed {
                asset_id: id.text(),
                error,
                query: insert_description(id, description),
            },
            Err::<(), ErrorView>(ErrorView::DatabaseError { error }),
        ),
{
}

/// A reply is taken as it is, and a failure of the database keeps its text.
pub proof fn law_replies(rows: u64, flag: bool, error: String, text: Seq<char>)
    ensures
        rows_reply(Ok(rows)) == Ok::<u64, Seq<char>>(rows),
        rows_reply(Err(error)) == Err::<u64, Seq<char>>(error@),
        flag_reply(Ok(flag)) == Ok::<bool, Seq<char>>(flag),
        flag_reply(Err(error)) == Err::<bool, Seq<char>>(error@),
        database_error(text) == (ErrorView::DatabaseError { error: text }),
{
}

/// A notice holds the texts of its strings, and a step those of its query.
pub proof fn law_notice_views(
    notice: Notice,
    asset_id: String,
    error: String,
    query: String,
    preview: String,
    length: usize,
    result: Result<(), ImageAnalysisError>,
)
    ensures
        notice_view(Some(notice)) == Some(notice@),
        notice_view(None) is None,
        (Notice::DescriptionCheckFailed { error })@ == (NoticeView::DescriptionCheckFailed {
            error: error@,
        }),
        (Notice::AssetCheckFailed { error })@ == (NoticeView::AssetCheckFailed { error: error@ }),
        (Notice::UpdatingAsset { asset_id })@ == (NoticeView::UpdatingAsset {
            asset_id: asset_id@,
        }),
        (Notice::DescriptionLength { length, preview })@ == (NoticeView::DescriptionLength {
            length,
            preview: preview@,
        }),
        (Notice::Updated { asset_id })@ == (NoticeView::Updated { asset_id: asset_id@ }),
        (Notice::UpdateFailed { asset_id, error, query })@ == (NoticeView::UpdateFailed {
            asset_id: asset_id@,
            error: error@,
            query: query@,
        }),
        (Notice::AssetNotInTable { asset_id })@ == (NoticeView::AssetNotInTable {
            asset_id: asset_id@,
        }),
        (Notice::Inserted { asset_id })@ == (NoticeView::Inserted { asset_id: asset_id@ }),
        (Notice::InsertFailed { asset_id, error, query })@ == (NoticeView::InsertFailed {
            asset_id: asset_id@,
            error: error@,
            query: query@,
        }),
        Notice::Connected@ == NoticeView::Connected,
        (Notice::QueryFailed { error })@ == (NoticeView::QueryFailed { error: error@ }),
        Notice::TimedOut@ == NoticeView::TimedOut,
        (DescriptionStep::CheckAsset { query })@ == (StepView::CheckAsset { query: query@ }),
        (DescriptionStep::Insert { query })@ == (StepView::Insert { query: query@ }),
        (DescriptionStep::Finished { result })@ == (StepView::Finished {
            result: unit_result(result),
        }),
{
}

} // verus!
