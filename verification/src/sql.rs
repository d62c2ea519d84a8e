//! The SQL statements that are sent to the database.

use crate::asset::AssetId;
use crate::text::{join, join_strings, texts};
use vstd::prelude::*;

verus! {

/// Whether the asset `$1` has a description that is not empty.
pub const HAS_DESCRIPTION: &'static str = r#"
        SELECT EXISTS (
            SELECT 1 FROM asset_exif 
            WHERE "assetId"::text = $1 
            AND description IS NOT NULL 
            AND description != ''
        )
    "#;

/// Whether the asset `$1` is in the asset table.
pub const ASSET_EXISTS: &'static str = r#"SELECT EXISTS (SELECT 1 FROM asset WHERE id = $1::text::uuid)"#;

/// The update of a description, up to the description.
pub const UPDATE_HEAD: &'static str = r#"
        UPDATE asset_exif 
        SET description = E"#;

/// Between the description and the asset.
pub const UPDATE_MIDDLE: &'static str = r#", 
            "updatedAt" = NOW(),
            "updateId" = immich_uuid_v7()
        WHERE "assetId" = "#;

/// After the asset.
pub const UPDATE_TAIL: &'static str = r#"
        "#;

/// Whether an asset is in the asset table, up to the asset.
pub const EXISTS_HEAD: &'static str = r#"
        SELECT EXISTS (
            SELECT 1 FROM asset 
            WHERE id = "#;

/// After the asset.
pub const EXISTS_TAIL: &'static str = r#"
        )
        "#;

/// The insertion of a description, up to the asset.
pub const INSERT_HEAD: &'static str = r#"
        INSERT INTO asset_exif (
            "assetId", description, "updatedAt", "updateId"
        ) VALUES (
            "#;

/// Between the asset and the description.
pub const INSERT_MIDDLE: &'static str = r#", E"#;

/// After the description.
pub const INSERT_TAIL: &'static str = r#", NOW(), immich_uuid_v7()
        )
        ON CONFLICT ("assetId") DO UPDATE 
        SET description = EXCLUDED.description,
            "updatedAt" = NOW(),
            "updateId" = immich_uuid_v7()
        "#;

/// The row of a tag, up to the asset.
pub const UPSERT_HEAD: &'static str = r#"INSERT INTO tag_search ("assetId", tag, embedding) VALUES ("#;

/// Between two values of the row.
pub const UPSERT_SEPARATOR: &'static str = r#", "#;

/// After the last value of the row.
pub const UPSERT_TAIL: &'static str = r#")
           ON CONFLICT ("assetId", tag) DO UPDATE SET embedding = EXCLUDED.embedding"#;

/// The deletion of the tags that are gone, up to the asset.
pub const DELETE_HEAD: &'static str = r#"DELETE FROM tag_search WHERE "assetId" = "#;

/// Between the asset and the tags to keep.
pub const DELETE_MIDDLE: &'static str = r#" AND tag <> ALL ("#;

/// After the tags to keep.
pub const DELETE_TAIL: &'static str = r#")"#;

/// An array with no text in it.
pub const EMPTY_ARRAY: &'static str = r#"ARRAY[]::text[]"#;

/// An array of texts, up to the first.
pub const ARRAY_HEAD: &'static str = r#"ARRAY["#;

/// Between two texts of an array.
pub const ARRAY_SEPARATOR: &'static str = r#","#;

/// After the last text of an array.
pub const ARRAY_TAIL: &'static str = r#"]"#;

/// A query that any database answers.
pub const PING: &'static str = r#"SELECT 1"#;

/// A statement whose parameters `$1`, `$2` and so on are sent beside it.
#[derive(Debug, PartialEq, Eq)]
pub struct Statement {
    pub sql: String,
    pub parameters: Vec<String>,
}

/// `text` with every single quote doubled, and every backslash too where `escapes`
/// holds.
pub open spec fn doubled(text: Seq<char>, escapes: bool) -> Seq<char>
    decreases text.len(),
{
    if text.len() == 0 {
        Seq::empty()
    } else {
        doubled(text.drop_last(), escapes) + (if text.last() == '\'' || (escapes && text.last()
            == '\\') {
            seq![text.last(), text.last()]
        } else {
            seq![text.last()]
        })
    }
}

/// `text` with every single quote doubled.
pub open spec fn doubled_quotes(text: Seq<char>) -> Seq<char> {
    doubled(text, false)
}

/// `text` with every single quote and every backslash doubled.
pub open spec fn escaped(text: Seq<char>) -> Seq<char> {
    doubled(text, true)
}

/// `text` between two single quotes.
pub open spec fn enclosed(text: Seq<char>) -> Seq<char> {
    seq!['\''] + text + seq!['\'']
}

/// The literal that stands for `text`.
pub open spec fn literal(text: Seq<char>) -> Seq<char> {
    enclosed(doubled_quotes(text))
}

/// The literal that stands for `text` behind an `E`.
pub open spec fn escape_literal(text: Seq<char>) -> Seq<char> {
    enclosed(escaped(text))
}

/// The array that holds the texts of `list`.
pub open spec fn text_array(list: Seq<Seq<char>>) -> Seq<char> {
    if list.len() == 0 {
        EMPTY_ARRAY@
    } else {
        ARRAY_HEAD@ + join(list.map_values(|t: Seq<char>| literal(t)), ARRAY_SEPARATOR@)
            + ARRAY_TAIL@
    }
}

/// The statement that gives an asset its description, where it has a row for one.
pub open spec fn update_description(id: AssetId, description: Seq<char>) -> Seq<char> {
    UPDATE_HEAD@ + escape_literal(description) + UPDATE_MIDDLE@ + enclosed(id.text()) + UPDATE_TAIL@
}

/// The query whether an asset is in the asset table.
pub open spec fn asset_exists(id: AssetId) -> Seq<char> {
    EXISTS_HEAD@ + enclosed(id.text()) + EXISTS_TAIL@
}

/// The statement that makes an asset's row with its description.
pub open spec fn insert_description(id: AssetId, description: Seq<char>) -> Seq<char> {
    INSERT_HEAD@ + enclosed(id.text()) + INSERT_MIDDLE@ + escape_literal(description) + INSERT_TAIL@
}

/// The statement that stores the embedding of a tag of an asset.
pub open spec fn upsert_tag(id: AssetId, tag: Seq<char>, embedding: Seq<char>) -> Seq<char> {
    UPSERT_HEAD@ + enclosed(id.text()) + UPSERT_SEPARATOR@ + literal(tag) + UPSERT_SEPARATOR@
        + enclosed(embedding) + UPSERT_TAIL@
}

/// The statement that deletes the tags of an asset that are not among `keep`.
pub open spec fn delete_stale(id: AssetId, keep: Seq<Seq<char>>) -> Seq<char> {
    DELETE_HEAD@ + enclosed(id.text()) + DELETE_MIDDLE@ + text_array(keep) + DELETE_TAIL@
}

fn double(text: &str, escapes: bool) -> (s: String)
    ensures
        s@ == doubled(text@, escapes),
{
    let mut s = String::new();
    for c in it: text.chars()
        invariant
            it.seq() == text@,
            s@ == doubled(text@.take(it.index() as int), escapes),
    {
        assert(text@.take(it.index() + 1).drop_last() == text@.take(it.index() as int));
        if c == '\'' || (escapes && c == '\\') {
            s.push(c);
        }
        s.push(c);
    }
    assert(text@.take(text@.len() as int) == text@);
    s
}

/// `text` with every single quote doubled.
pub fn double_quotes(text: &str) -> (s: String)
    ensures
        s@ == doubled_quotes(text@),
{
    double(text, false)
}

/// `text` with every single quote and every backslash doubled.
pub fn escape(text: &str) -> (s: String)
    ensures
        s@ == escaped(text@),
{
    double(text, true)
}

fn append_enclosed(s: &mut String, text: &str)
    ensures
        final(s)@ == old(s)@ + enclosed(text@),
{
    s.push('\'');
    s.append(text);
    s.push('\'');
}

/// The query whether the asset has a description that is not empty.
pub fn has_description_statement(id: &AssetId) -> (r: Statement)
    ensures
        r.sql@ == HAS_DESCRIPTION@,
        texts(r.parameters@) == seq![id.text()],
{
    let mut parameters: Vec<String> = Vec::new();
    parameters.push(id.to_text());
    Statement { sql: HAS_DESCRIPTION.to_owned(), parameters }
}

/// The query whether the asset is in the asset table.
pub fn asset_exists_statement(id: &AssetId) -> (r: Statement)
    ensures
        r.sql@ == ASSET_EXISTS@,
        texts(r.parameters@) == seq![id.text()],
{
    let mut parameters: Vec<String> = Vec::new();
    parameters.push(id.to_text());
    Statement { sql: ASSET_EXISTS.to_owned(), parameters }
}

/// The statement that gives the asset its description, where it has a row for one.
pub fn update_description_query(id: &AssetId, description: &str) -> (s: String)
    ensures
        s@ == update_description(*id, description@),
{
    let mut s = String::new();
    s.append(UPDATE_HEAD);
    append_enclosed(&mut s, escape(description).as_str());
    s.append(UPDATE_MIDDLE);
    append_enclosed(&mut s, id.to_text().as_str());
    s.append(UPDATE_TAIL);
    s
}

/// The query whether the asset is in the asset table, with the asset in it.
pub fn asset_exists_query(id: &AssetId) -> (s: String)
    ensures
        s@ == asset_exists(*id),
{
    let mut s = String::new();
    s.append(EXISTS_HEAD);
    append_enclosed(&mut s, id.to_text().as_str());
    s.append(EXISTS_TAIL);
    s
}

/// The statement that makes the asset's row with its description.
pub fn insert_description_query(id: &AssetId, description: &str) -> (s: String)
    ensures
        s@ == insert_description(*id, description@),
{
    let mut s = String::new();
    s.append(INSERT_HEAD);
    append_enclosed(&mut s, id.to_text().as_str());
    s.append(INSERT_MIDDLE);
    append_enclosed(&mut s, escape(description).as_str());
    s.append(INSERT_TAIL);
    s
}

/// The statement that stores the embedding of a tag of the asset.
pub fn upsert_tag_query(id: &AssetId, tag: &str, embedding: &str) -> (s: String)
    ensures
        s@ == upsert_tag(*id, tag@, embedding@),
{
    let mut s = String::new();
    s.append(UPSERT_HEAD);
    append_enclosed(&mut s, id.to_text().as_str());
    s.append(UPSERT_SEPARATOR);
    append_enclosed(&mut s, double_quotes(tag).as_str());
    s.append(UPSERT_SEPARATOR);
    append_enclosed(&mut s, embedding);
    s.append(UPSERT_TAIL);
    s
}

fn text_array_of(list: &Vec<String>) -> (s: String)
    ensures
        s@ == text_array(texts(list@)),
{
    if list.len() == 0 {
        return EMPTY_ARRAY.to_owned();
    }
    let mut literals: Vec<String> = Vec::new();
    for i in 0..list.len()
        invariant
            literals@.len() == i,
            forall|k: int| 0 <= k < i ==> (#[trigger] literals@[k])@ == literal(list@[k]@),
    {
        let mut s = String::new();
        append_enclosed(&mut s, double_quotes(list[i].as_str()).as_str());
        literals.push(s);
    }
    assert(texts(literals@) == texts(list@).map_values(|t: Seq<char>| literal(t)));
    let mut s = String::new();
    s.append(ARRAY_HEAD);
    s.append(join_strings(&literals, ARRAY_SEPARATOR).as_str());
    s.append(ARRAY_TAIL);
    s
}

/// The statement that deletes the tags of the asset that are not among `keep`.
pub fn delete_stale_query(id: &AssetId, keep: &Vec<String>) -> (s: String)
    ensures
        s@ == delete_stale(*id, texts(keep@)),
{
    let mut s = String::new();
    s.append(DELETE_HEAD);
    append_enclosed(&mut s, id.to_text().as_str());
    s.append(DELETE_MIDDLE);
    s.append(text_array_of(keep).as_str());
    s.append(DELETE_TAIL);
    s
}

/// Nothing is doubled to nothing, a single quote to two, a backslash to two behind an
/// `E`, and any other character to itself; two texts are doubled one after the other.
pub proof fn law_doubled(a: Seq<char>, b: Seq<char>, c: char)
    ensures
        doubled_quotes(a + b) == doubled_quotes(a) + doubled_quotes(b),
        escaped(a + b) == escaped(a) + escaped(b),
        doubled_quotes(seq!['\'']) == seq!['\'', '\''],
        escaped(seq!['\'']) == seq!['\'', '\''],
        escaped(seq!['\\']) == seq!['\\', '\\'],
        c != '\'' ==> doubled_quotes(seq![c]) == seq![c],
        c != '\'' && c != '\\' ==> escaped(seq![c]) == seq![c],
{
    lemma_doubled_parts(a, b, false);
    lemma_doubled_parts(a, b, true);
    lemma_doubled_char('\'');
    lemma_doubled_char('\\');
    lemma_doubled_char(c);
}

proof fn lemma_doubled_char(c: char)
    ensures
        doubled(seq![c], false) == (if c == '\'' {
            seq![c, c]
        } else {
            seq![c]
        }),
        doubled(seq![c], true) == (if c == '\'' || c == '\\' {
            seq![c, c]
        } else {
            seq![c]
        }),
{
    assert(seq![c].drop_last() == Seq::<char>::empty());
    reveal_with_fuel(doubled, 2);
}

proof fn lemma_doubled_parts(a: Seq<char>, b: Seq<char>, escapes: bool)
    ensures
        doubled(a + b, escapes) == doubled(a, escapes) + doubled(b, escapes),
    decreases b.len(),
{
    if b.len() == 0 {
        assert(a + b == a);
    } else {
        assert((a + b).drop_last() == a + b.drop_last());
        assert((a + b).last() == b.last());
        lemma_doubled_parts(a, b.drop_last(), escapes);
    }
}

} // verus!
