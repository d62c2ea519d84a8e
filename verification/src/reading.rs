//! How a database reads the literals of a statement, and that it finds in them
//! what was to be said.

use crate::asset::{AssetId, law_asset_text_shape};
use crate::embedding::{law_embedding_without_quotes, valid_embedding};
use crate::sql::{
    ARRAY_HEAD, ARRAY_SEPARATOR, ARRAY_TAIL, DELETE_HEAD, DELETE_MIDDLE, DELETE_TAIL, EMPTY_ARRAY,
    EXISTS_HEAD, EXISTS_TAIL, INSERT_HEAD, INSERT_MIDDLE, INSERT_TAIL, UPDATE_HEAD, UPDATE_MIDDLE, UPDATE_TAIL,
    UPSERT_HEAD, UPSERT_SEPARATOR, UPSERT_TAIL, asset_exists, delete_stale, doubled,
    doubled_quotes, enclosed, escape_literal, escaped, insert_description, literal, text_array, update_description, upsert_tag,
};
use crate::text::{join, lemma_join_first};
use vstd::prelude::*;

verus! {

/// The text of a literal whose opening quote has been read, and what follows its
/// closing quote. Two quotes stand for one. Where `escapes` holds (a literal
/// marked with `E`), a backslash makes one character with the next: two
/// backslashes are one, a backslash and a quote are a quote. No other such pair is
/// read here.
pub open spec fn read_to_quote(s: Seq<char>, escapes: bool) -> Option<(Seq<char>, Seq<char>)>
    decreases s.len(),
{
    if s.len() == 0 {
        None
    } else if escapes && s[0] == '\\' {
        if s.len() >= 2 && (s[1] == '\\' || s[1] == '\'') {
            match read_to_quote(s.skip(2), escapes) {
                Some((text, rest)) => Some((seq![s[1]] + text, rest)),
                None => None,
            }
        } else {
            None
        }
    } else if s[0] != '\'' {
        match read_to_quote(s.drop_first(), escapes) {
            Some((text, rest)) => Some((seq![s[0]] + text, rest)),
            None => None,
        }
    } else if s.len() >= 2 && s[1] == '\'' {
        match read_to_quote(s.skip(2), escapes) {
            Some((text, rest)) => Some((seq!['\''] + text, rest)),
            None => None,
        }
    } else {
        Some((Seq::empty(), s.drop_first()))
    }
}

/// The text of the literal at the start of `s`, and what follows it.
pub open spec fn read_literal(s: Seq<char>, escapes: bool) -> Option<(Seq<char>, Seq<char>)> {
    if s.len() > 0 && s[0] == '\'' {
        read_to_quote(s.drop_first(), escapes)
    } else {
        None
    }
}

/// The texts of the literals at the start of `s`, with `separator` between each
/// two, and what follows the last.
pub open spec fn read_literals(s: Seq<char>, separator: Seq<char>) -> Option<
    (Seq<Seq<char>>, Seq<char>),
>
    decreases s.len(),
{
    match read_literal(s, false) {
        Some((text, rest)) => if rest.len() < s.len() && separator.is_prefix_of(rest) {
            match read_literals(rest.skip(separator.len() as int), separator) {
                Some((others, end)) => Some((seq![text] + others, end)),
                None => None,
            }
        } else {
            Some((seq![text], rest))
        },
        None => None,
    }
}

/// What stands for a string constant in the code of a statement.
pub open spec fn blank() -> Seq<char> {
    enclosed(Seq::empty())
}

/// A statement as its code, in which two quotes stand for each string constant, and
/// the texts of the constants in their order. A constant right behind an `E` is one
/// with escapes; `marked` says whether an `E` stands before `s`. Comments, and
/// quotes within the names between double quotes, are not looked for.
pub open spec fn read_statement(s: Seq<char>, marked: bool) -> Option<
    (Seq<char>, Seq<Seq<char>>),
>
    decreases s.len(),
{
    if s.len() == 0 {
        Some((Seq::empty(), Seq::empty()))
    } else if s[0] != '\'' {
        match read_statement(s.drop_first(), s[0] == 'E') {
            Some((code, constants)) => Some((seq![s[0]] + code, constants)),
            None => None,
        }
    } else {
        match read_literal(s, marked) {
            Some((text, rest)) => if rest.len() < s.len() {
                match read_statement(rest, false) {
                    Some((code, constants)) => Some(
                        (blank() + code, seq![text] + constants),
                    ),
                    None => None,
                }
            } else {
                None
            },
            None => None,
        }
    }
}

/// `s` does not go on with a single quote.
pub open spec fn no_quote_first(s: Seq<char>) -> bool {
    s.len() == 0 || s[0] != '\''
}

proof fn lemma_doubled_first(text: Seq<char>, escapes: bool)
    requires
        text.len() > 0,
    ensures
        doubled(text, escapes) == (if text[0] == '\'' || (escapes && text[0] == '\\') {
            seq![text[0], text[0]]
        } else {
            seq![text[0]]
        }) + doubled(text.drop_first(), escapes),
    decreases text.len(),
{
    if text.len() == 1 {
        assert(text.drop_last() == Seq::<char>::empty());
        assert(text.drop_first() == Seq::<char>::empty());
    } else {
        lemma_doubled_first(text.drop_last(), escapes);
        assert(text.drop_last().drop_first() == text.drop_first().drop_last());
        assert(text.drop_first().last() == text.last());
        assert(text.drop_last()[0] == text[0]);
    }
}

proof fn lemma_doubled_quotes_plain(text: Seq<char>)
    requires
        !text.contains('\''),
    ensures
        doubled_quotes(text) == text,
    decreases text.len(),
{
    if text.len() > 0 {
        assert forall|c: char| text.drop_last().contains(c) implies text.contains(c) by {
            let i = text.drop_last().index_of(c);
            assert(text[i] == c);
        }
        assert(text.contains(text.last()));
        lemma_doubled_quotes_plain(text.drop_last());
        assert(text == text.drop_last().push(text.last()));
    }
}

proof fn lemma_read_to_quote(text: Seq<char>, rest: Seq<char>, escapes: bool)
    requires
        no_quote_first(rest),
    ensures
        read_to_quote(doubled(text, escapes) + seq!['\''] + rest, escapes) == Some((text, rest)),
    decreases text.len(),
{
    let s = doubled(text, escapes) + seq!['\''] + rest;
    if text.len() == 0 {
        assert(s.drop_first() == rest);
    } else {
        let others = text.drop_first();
        let shorter = doubled(others, escapes) + seq!['\''] + rest;
        lemma_doubled_first(text, escapes);
        lemma_read_to_quote(others, rest, escapes);
        assert(text == seq![text[0]] + others);
        if text[0] == '\'' || (escapes && text[0] == '\\') {
            assert(s[0] == text[0] && s[1] == text[0]);
            assert(s.skip(2) == shorter);
        } else {
            assert(s[0] == text[0]);
            assert(s.drop_first() == shorter);
        }
    }
}

/// A literal reads as the text that it stands for, with or without an `E` before
/// it, where what follows it does not start with a quote.
pub proof fn law_literal_reads_back(text: Seq<char>, rest: Seq<char>)
    requires
        no_quote_first(rest),
    ensures
        read_literal(literal(text) + rest, false) == Some((text, rest)),
        read_literal(escape_literal(text) + rest, true) == Some((text, rest)),
{
    lemma_read_to_quote(text, rest, false);
    assert((literal(text) + rest).drop_first() == doubled_quotes(text) + seq!['\''] + rest);
    lemma_read_to_quote(text, rest, true);
    assert((escape_literal(text) + rest).drop_first() == escaped(text) + seq!['\''] + rest);
}

proof fn lemma_enclosed_reads_back(text: Seq<char>, rest: Seq<char>)
    requires
        !text.contains('\''),
        no_quote_first(rest),
    ensures
        read_literal(enclosed(text) + rest, false) == Some((text, rest)),
{
    lemma_doubled_quotes_plain(text);
    law_literal_reads_back(text, rest);
}

proof fn lemma_asset_text_without_quotes(id: AssetId)
    ensures
        !id.text().contains('\''),
{
    law_asset_text_shape(id);
    if id.text().contains('\'') {
        let i = id.text().index_of('\'');
        assert(id.text()[i] == '\'');
    }
}

/// A list of literals reads as the texts that they stand for.
pub proof fn law_literals_read_back(list: Seq<Seq<char>>, separator: Seq<char>, rest: Seq<char>)
    requires
        list.len() > 0,
        separator.len() > 0,
        separator[0] != '\'',
        no_quote_first(rest),
        !separator.is_prefix_of(rest),
    ensures
        read_literals(
            join(list.map_values(|t: Seq<char>| literal(t)), separator) + rest,
            separator,
        ) == Some((list, rest)),
    decreases list.len(),
{
    let literals = list.map_values(|t: Seq<char>| literal(t));
    let s = join(literals, separator) + rest;
    if list.len() == 1 {
        law_literal_reads_back(list[0], rest);
        assert(list == seq![list[0]]);
    } else {
        let others = list.drop_first();
        let tail = join(others.map_values(|t: Seq<char>| literal(t)), separator) + rest;
        lemma_join_first(literals, separator);
        assert(literals.drop_first() == others.map_values(|t: Seq<char>| literal(t)));
        assert(s == literal(list[0]) + (separator + tail));
        law_literal_reads_back(list[0], separator + tail);
        law_literals_read_back(others, separator, rest);
        assert(separator == (separator + tail).take(separator.len() as int));
        assert(separator.is_prefix_of(separator + tail));
        assert((separator + tail).skip(separator.len() as int) == tail);
        assert(list == seq![list[0]] + others);
    }
}

proof fn lemma_upsert_list(id: AssetId, tag: Seq<char>, embedding: Seq<char>) -> (rest: Seq<char>)
    requires
        valid_embedding(embedding),
    ensures
        upsert_tag(id, tag, embedding) == UPSERT_HEAD@ + rest,
        rest == join(
            seq![id.text(), tag, embedding].map_values(|t: Seq<char>| literal(t)),
            UPSERT_SEPARATOR@,
        ) + UPSERT_TAIL@,
{
    let list = seq![id.text(), tag, embedding];
    let literals = list.map_values(|t: Seq<char>| literal(t));
    let rest = join(literals, UPSERT_SEPARATOR@) + UPSERT_TAIL@;
    lemma_asset_text_without_quotes(id);
    lemma_doubled_quotes_plain(id.text());
    law_embedding_without_quotes(embedding);
    lemma_doubled_quotes_plain(embedding);
    lemma_join_first(literals, UPSERT_SEPARATOR@);
    lemma_join_first(literals.drop_first(), UPSERT_SEPARATOR@);
    assert(literals.drop_first().drop_first() == seq![literal(embedding)]);
    assert(upsert_tag(id, tag, embedding) == UPSERT_HEAD@ + rest);
    rest
}

/// The statement that stores a tag names the asset, the tag and the embedding.
pub proof fn law_upsert_reads_back(id: AssetId, tag: Seq<char>, embedding: Seq<char>)
    requires
        valid_embedding(embedding),
    ensures
        UPSERT_HEAD@.is_prefix_of(upsert_tag(id, tag, embedding)),
        read_literals(
            upsert_tag(id, tag, embedding).skip(UPSERT_HEAD@.len() as int),
            UPSERT_SEPARATOR@,
        ) == Some((seq![id.text(), tag, embedding], UPSERT_TAIL@)),
{
    reveal_strlit(r#", "#);
    reveal_strlit(r#")
           ON CONFLICT ("assetId", tag) DO UPDATE SET embedding = EXCLUDED.embedding"#);
    let statement = upsert_tag(id, tag, embedding);
    let rest = lemma_upsert_list(id, tag, embedding);
    assert(statement.take(UPSERT_HEAD@.len() as int) == UPSERT_HEAD@);
    assert(statement.skip(UPSERT_HEAD@.len() as int) == rest);
    assert(UPSERT_TAIL@[0] != UPSERT_SEPARATOR@[0]);
    law_literals_read_back(seq![id.text(), tag, embedding], UPSERT_SEPARATOR@, UPSERT_TAIL@);
}

/// The statement that deletes stale tags names the asset, and the tags to keep in an
/// array, which is written as the empty one where there are none.
pub proof fn law_delete_reads_back(id: AssetId, keep: Seq<Seq<char>>)
    ensures
        DELETE_HEAD@.is_prefix_of(delete_stale(id, keep)),
        read_literal(delete_stale(id, keep).skip(DELETE_HEAD@.len() as int), false) == Some(
            (id.text(), DELETE_MIDDLE@ + text_array(keep) + DELETE_TAIL@),
        ),
        keep.len() == 0 ==> text_array(keep) == EMPTY_ARRAY@,
        keep.len() > 0 ==> ARRAY_HEAD@.is_prefix_of(text_array(keep)) && read_literals(
            text_array(keep).skip(ARRAY_HEAD@.len() as int),
            ARRAY_SEPARATOR@,
        ) == Some((keep, ARRAY_TAIL@)),
{
    reveal_strlit(r#" AND tag <> ALL ("#);
    reveal_strlit(r#","#);
    reveal_strlit(r#"]"#);
    let statement = delete_stale(id, keep);
    let rest = DELETE_MIDDLE@ + text_array(keep) + DELETE_TAIL@;
    lemma_asset_text_without_quotes(id);
    assert(statement.take(DELETE_HEAD@.len() as int) == DELETE_HEAD@);
    assert(statement.skip(DELETE_HEAD@.len() as int) == enclosed(id.text()) + rest);
    lemma_enclosed_reads_back(id.text(), rest);
    if keep.len() > 0 {
        let literals = join(keep.map_values(|t: Seq<char>| literal(t)), ARRAY_SEPARATOR@);
        assert(text_array(keep).take(ARRAY_HEAD@.len() as int) == ARRAY_HEAD@);
        assert(text_array(keep).skip(ARRAY_HEAD@.len() as int) == literals + ARRAY_TAIL@);
        assert(ARRAY_TAIL@[0] != ARRAY_SEPARATOR@[0]);
        law_literals_read_back(keep, ARRAY_SEPARATOR@, ARRAY_TAIL@);
    }
}

/// The statement that updates a description names the description and the asset.
pub proof fn law_update_reads_back(id: AssetId, description: Seq<char>)
    ensures
        UPDATE_HEAD@.is_prefix_of(update_description(id, description)),
        read_literal(update_description(id, description).skip(UPDATE_HEAD@.len() as int), true)
            == Some((description, UPDATE_MIDDLE@ + (enclosed(id.text()) + UPDATE_TAIL@))),
        read_literal(enclosed(id.text()) + UPDATE_TAIL@, false) == Some((id.text(), UPDATE_TAIL@)),
{
    reveal_strlit(r#", 
            "updatedAt" = NOW(),
            "updateId" = immich_uuid_v7()
        WHERE "assetId" = "#);
    reveal_strlit(r#"
        "#);
    let statement = update_description(id, description);
    let rest = UPDATE_MIDDLE@ + (enclosed(id.text()) + UPDATE_TAIL@);
    lemma_asset_text_without_quotes(id);
    assert(statement.take(UPDATE_HEAD@.len() as int) == UPDATE_HEAD@);
    assert(statement.skip(UPDATE_HEAD@.len() as int) == escape_literal(description) + rest);
    law_literal_reads_back(description, rest);
    lemma_enclosed_reads_back(id.text(), UPDATE_TAIL@);
}

/// The statement that inserts a description names the asset and the description.
pub proof fn law_insert_reads_back(id: AssetId, description: Seq<char>)
    ensures
        INSERT_HEAD@.is_prefix_of(insert_description(id, description)),
        read_literal(insert_description(id, description).skip(INSERT_HEAD@.len() as int), false)
            == Some((id.text(), INSERT_MIDDLE@ + (escape_literal(description) + INSERT_TAIL@))),
        read_literal(escape_literal(description) + INSERT_TAIL@, true) == Some(
            (description, INSERT_TAIL@),
        ),
{
    reveal_strlit(r#", E"#);
    reveal_strlit(r#", NOW(), immich_uuid_v7()
        )
        ON CONFLICT ("assetId") DO UPDATE 
        SET description = EXCLUDED.description,
            "updatedAt" = NOW(),
            "updateId" = immich_uuid_v7()
        "#);
    let statement = insert_description(id, description);
    let rest = INSERT_MIDDLE@ + (escape_literal(description) + INSERT_TAIL@);
    lemma_asset_text_without_quotes(id);
    assert(statement.take(INSERT_HEAD@.len() as int) == INSERT_HEAD@);
    assert(statement.skip(INSERT_HEAD@.len() as int) == enclosed(id.text()) + rest);
    lemma_enclosed_reads_back(id.text(), rest);
    law_literal_reads_back(description, INSERT_TAIL@);
}

/// The query whether an asset is there names the asset.
pub proof fn law_exists_reads_back(id: AssetId)
    ensures
        EXISTS_HEAD@.is_prefix_of(asset_exists(id)),
        read_literal(asset_exists(id).skip(EXISTS_HEAD@.len() as int), false) == Some(
            (id.text(), EXISTS_TAIL@),
        ),
{
    reveal_strlit(r#"
        )
        "#);
    let query = asset_exists(id);
    lemma_asset_text_without_quotes(id);
    assert(query.take(EXISTS_HEAD@.len() as int) == EXISTS_HEAD@);
    assert(query.skip(EXISTS_HEAD@.len() as int) == enclosed(id.text()) + EXISTS_TAIL@);
    lemma_enclosed_reads_back(id.text(), EXISTS_TAIL@);
}

proof fn lemma_read_code(code: Seq<char>, rest: Seq<char>, marked: bool)
    requires
        code.len() > 0,
        !code.contains('\''),
    ensures
        read_statement(code + rest, marked) == (match read_statement(rest, code.last() == 'E') {
            Some((others, constants)) => Some((code + others, constants)),
            None => None,
        }),
    decreases code.len(),
{
    let s = code + rest;
    assert(code.contains(code[0]));
    if code.len() == 1 {
        assert(s.drop_first() == rest);
        assert(code == seq![code[0]]);
    } else {
        let shorter = code.drop_first();
        assert(s.drop_first() == shorter + rest);
        assert forall|c: char| shorter.contains(c) implies code.contains(c) by {
            let i = shorter.index_of(c);
            assert(code[i + 1] == c);
        }
        lemma_read_code(shorter, rest, code[0] == 'E');
        assert(code == seq![code[0]] + shorter);
        if let Some((others, constants)) = read_statement(rest, code.last() == 'E') {
            assert(code + others == seq![code[0]] + (shorter + others));
        }
    }
}

/// The code of the update of a description.
pub open spec fn update_code() -> Seq<char> {
    UPDATE_HEAD@ + blank() + UPDATE_MIDDLE@ + blank() + UPDATE_TAIL@
}

/// The update of a description is the same code whatever the description is, and
/// its string constants are the description and the asset.
pub proof fn law_update_constants(id: AssetId, description: Seq<char>)
    ensures
        read_statement(update_description(id, description), false) == Some(
            (update_code(), seq![description, id.text()]),
        ),
{
    reveal_strlit(r#"
        UPDATE asset_exif 
        SET description = E"#);
    reveal_strlit(r#", 
            "updatedAt" = NOW(),
            "updateId" = immich_uuid_v7()
        WHERE "assetId" = "#);
    reveal_strlit(r#"
        "#);
    let none = Seq::<char>::empty();
    let last = enclosed(id.text()) + UPDATE_TAIL@;
    let rest = UPDATE_MIDDLE@ + last;
    let statement = update_description(id, description);
    law_update_reads_back(id, description);
    assert(statement == UPDATE_HEAD@ + (escape_literal(description) + rest));
    assert(statement.skip(UPDATE_HEAD@.len() as int) == escape_literal(description) + rest);
    lemma_read_code(UPDATE_TAIL@, none, false);
    assert(UPDATE_TAIL@ + none == UPDATE_TAIL@);
    assert(last[0] == '\'');
    lemma_read_code(UPDATE_MIDDLE@, last, false);
    lemma_read_code(UPDATE_HEAD@, escape_literal(description) + rest, false);
    assert(seq![id.text()] + Seq::<Seq<char>>::empty() == seq![id.text()]);
    assert(seq![description] + seq![id.text()] == seq![description, id.text()]);
    assert(UPDATE_HEAD@ + (blank() + (UPDATE_MIDDLE@ + (blank() + UPDATE_TAIL@))) == update_code());
}

/// The code of the insertion of a description.
pub open spec fn insert_code() -> Seq<char> {
    INSERT_HEAD@ + blank() + INSERT_MIDDLE@ + blank() + INSERT_TAIL@
}

/// The insertion of a description is the same code whatever the description is, and
/// its string constants are the asset and the description.
pub proof fn law_insert_constants(id: AssetId, description: Seq<char>)
    ensures
        read_statement(insert_description(id, description), false) == Some(
            (insert_code(), seq![id.text(), description]),
        ),
{
    reveal_strlit(r#"
        INSERT INTO asset_exif (
            "assetId", description, "updatedAt", "updateId"
        ) VALUES (
            "#);
    reveal_strlit(r#", E"#);
    reveal_strlit(r#", NOW(), immich_uuid_v7()
        )
        ON CONFLICT ("assetId") DO UPDATE 
        SET description = EXCLUDED.description,
            "updatedAt" = NOW(),
            "updateId" = immich_uuid_v7()
        "#);
    let none = Seq::<char>::empty();
    let last = escape_literal(description) + INSERT_TAIL@;
    let rest = INSERT_MIDDLE@ + last;
    let statement = insert_description(id, description);
    law_insert_reads_back(id, description);
    assert(statement == INSERT_HEAD@ + (enclosed(id.text()) + rest));
    assert(statement.skip(INSERT_HEAD@.len() as int) == enclosed(id.text()) + rest);
    lemma_read_code(INSERT_TAIL@, none, false);
    assert(INSERT_TAIL@ + none == INSERT_TAIL@);
    assert(last[0] == '\'');
    lemma_read_code(INSERT_MIDDLE@, last, false);
    lemma_read_code(INSERT_HEAD@, enclosed(id.text()) + rest, false);
    assert(seq![description] + Seq::<Seq<char>>::empty() == seq![description]);
    assert(seq![id.text()] + seq![description] == seq![id.text(), description]);
    assert(INSERT_HEAD@ + (blank() + (INSERT_MIDDLE@ + (blank() + INSERT_TAIL@))) == insert_code());
}

/// The statements for two descriptions of one asset differ only in the text of one
/// string constant, which is the description itself.
pub proof fn law_descriptions_differ_in_one_constant(
    id: AssetId,
    one: Seq<char>,
    other: Seq<char>,
)
    ensures
        read_statement(update_description(id, one), false) matches Some((code, constants))
            && constants.len() > 0 && constants[0] == one && read_statement(
            update_description(id, other),
            false,
        ) == Some((code, constants.update(0, other))),
        read_statement(insert_description(id, one), false) matches Some((code, constants))
            && constants.len() > 1 && constants[1] == one && read_statement(
            insert_description(id, other),
            false,
        ) == Some((code, constants.update(1, other))),
{
    law_update_constants(id, one);
    law_update_constants(id, other);
    assert(seq![one, id.text()].update(0, other) == seq![other, id.text()]);
    law_insert_constants(id, one);
    law_insert_constants(id, other);
    assert(seq![id.text(), one].update(1, other) == seq![id.text(), other]);
}

proof fn lemma_read_constant(constant: Seq<char>, text: Seq<char>, rest: Seq<char>, marked: bool)
    requires
        constant.len() > 0,
        constant[0] == '\'',
        read_literal(constant + rest, marked) == Some((text, rest)),
    ensures
        read_statement(constant + rest, marked) == (match read_statement(rest, false) {
            Some((code, constants)) => Some((blank() + code, seq![text] + constants)),
            None => None,
        }),
{
}

/// The code of the query whether an asset is there.
pub open spec fn exists_code() -> Seq<char> {
    EXISTS_HEAD@ + blank() + EXISTS_TAIL@
}

/// The query whether an asset is there has the asset as its only string constant.
pub proof fn law_exists_constants(id: AssetId)
    ensures
        read_statement(asset_exists(id), false) == Some((exists_code(), seq![id.text()])),
{
    reveal_strlit(r#"
        SELECT EXISTS (
            SELECT 1 FROM asset 
            WHERE id = "#);
    reveal_strlit(r#"
        )
        "#);
    let none = Seq::<char>::empty();
    let last = enclosed(id.text()) + EXISTS_TAIL@;
    law_exists_reads_back(id);
    assert(asset_exists(id) == EXISTS_HEAD@ + last);
    assert(asset_exists(id).skip(EXISTS_HEAD@.len() as int) == last);
    lemma_read_code(EXISTS_TAIL@, none, false);
    assert(EXISTS_TAIL@ + none == EXISTS_TAIL@);
    lemma_read_constant(enclosed(id.text()), id.text(), EXISTS_TAIL@, false);
    lemma_read_code(EXISTS_HEAD@, last, false);
    assert(seq![id.text()] + Seq::<Seq<char>>::empty() == seq![id.text()]);
    assert(EXISTS_HEAD@ + (blank() + EXISTS_TAIL@) == exists_code());
}

/// `n` string constants with the separator between each two.
pub open spec fn blanks(n: nat, separator: Seq<char>) -> Seq<char> {
    join(Seq::new(n, |i: int| blank()), separator)
}

proof fn lemma_read_list(list: Seq<Seq<char>>, separator: Seq<char>, rest: Seq<char>)
    requires
        list.len() > 0,
        separator.len() > 0,
        !separator.contains('\''),
        separator.last() != 'E',
        no_quote_first(rest),
    ensures
        read_statement(
            join(list.map_values(|t: Seq<char>| literal(t)), separator) + rest,
            false,
        ) == (match read_statement(rest, false) {
            Some((code, constants)) => Some(
                (blanks(list.len(), separator) + code, list + constants),
            ),
            None => None,
        }),
    decreases list.len(),
{
    let literals = list.map_values(|t: Seq<char>| literal(t));
    let holes = Seq::new(list.len(), |i: int| blank());
    let first = literal(list[0]);
    assert(separator.contains(separator[0]));
    if list.len() == 1 {
        law_literal_reads_back(list[0], rest);
        lemma_read_constant(first, list[0], rest, false);
        assert(list == seq![list[0]]);
    } else {
        let others = list.drop_first();
        let tail = join(others.map_values(|t: Seq<char>| literal(t)), separator) + rest;
        lemma_join_first(literals, separator);
        assert(literals.drop_first() == others.map_values(|t: Seq<char>| literal(t)));
        assert(join(literals, separator) + rest == first + (separator + tail));
        law_literal_reads_back(list[0], separator + tail);
        lemma_read_constant(first, list[0], separator + tail, false);
        lemma_read_code(separator, tail, false);
        lemma_read_list(others, separator, rest);
        lemma_join_first(holes, separator);
        assert(holes.drop_first() == Seq::new(others.len(), |i: int| blank()));
        if let Some((code, constants)) = read_statement(rest, false) {
            assert(blank() + (separator + (blanks(others.len(), separator) + code)) == blanks(
                list.len(),
                separator,
            ) + code);
            assert(seq![list[0]] + (others + constants) == list + constants);
        }
    }
}

/// The code of the statement that stores a tag.
pub open spec fn upsert_code() -> Seq<char> {
    UPSERT_HEAD@ + blanks(3, UPSERT_SEPARATOR@) + UPSERT_TAIL@
}

/// The statement that stores a tag is the same code whatever the tag is, and its
/// string constants are the asset, the tag and the embedding.
pub proof fn law_upsert_constants(id: AssetId, tag: Seq<char>, embedding: Seq<char>)
    requires
        valid_embedding(embedding),
    ensures
        read_statement(upsert_tag(id, tag, embedding), false) == Some(
            (upsert_code(), seq![id.text(), tag, embedding]),
        ),
{
    reveal_strlit(r#"INSERT INTO tag_search ("assetId", tag, embedding) VALUES ("#);
    reveal_strlit(r#", "#);
    reveal_strlit(r#")
           ON CONFLICT ("assetId", tag) DO UPDATE SET embedding = EXCLUDED.embedding"#);
    let none = Seq::<char>::empty();
    let list = seq![id.text(), tag, embedding];
    let rest = lemma_upsert_list(id, tag, embedding);
    lemma_read_code(UPSERT_TAIL@, none, false);
    assert(UPSERT_TAIL@ + none == UPSERT_TAIL@);
    lemma_read_list(list, UPSERT_SEPARATOR@, UPSERT_TAIL@);
    lemma_read_code(UPSERT_HEAD@, rest, false);
    assert(list + Seq::<Seq<char>>::empty() == list);
    assert(UPSERT_HEAD@ + (blanks(3, UPSERT_SEPARATOR@) + UPSERT_TAIL@) == upsert_code());
}

/// The code of an array of `n` texts.
pub open spec fn array_code(n: nat) -> Seq<char> {
    if n == 0 {
        EMPTY_ARRAY@
    } else {
        ARRAY_HEAD@ + blanks(n, ARRAY_SEPARATOR@) + ARRAY_TAIL@
    }
}

/// The code of the statement that deletes stale tags and keeps `n`.
pub open spec fn delete_code(n: nat) -> Seq<char> {
    DELETE_HEAD@ + blank() + DELETE_MIDDLE@ + array_code(n) + DELETE_TAIL@
}

proof fn lemma_read_array(keep: Seq<Seq<char>>)
    ensures
        read_statement(text_array(keep) + DELETE_TAIL@, false) == Some(
            (array_code(keep.len()) + DELETE_TAIL@, keep),
        ),
{
    reveal_strlit(r#")"#);
    let none = Seq::<char>::empty();
    lemma_read_code(DELETE_TAIL@, none, false);
    assert(DELETE_TAIL@ + none == DELETE_TAIL@);
    if keep.len() == 0 {
        reveal_strlit(r#"ARRAY[]::text[]"#);
        lemma_read_code(EMPTY_ARRAY@, DELETE_TAIL@, false);
        assert(keep == Seq::<Seq<char>>::empty());
    } else {
        reveal_strlit(r#"ARRAY["#);
        reveal_strlit(r#","#);
        reveal_strlit(r#"]"#);
        let literals = join(keep.map_values(|t: Seq<char>| literal(t)), ARRAY_SEPARATOR@);
        let end = ARRAY_TAIL@ + DELETE_TAIL@;
        lemma_read_code(ARRAY_TAIL@, DELETE_TAIL@, false);
        lemma_read_list(keep, ARRAY_SEPARATOR@, end);
        lemma_read_code(ARRAY_HEAD@, literals + end, false);
        assert(text_array(keep) + DELETE_TAIL@ == ARRAY_HEAD@ + (literals + end));
        assert(keep + Seq::<Seq<char>>::empty() == keep);
        assert(ARRAY_HEAD@ + (blanks(keep.len(), ARRAY_SEPARATOR@) + (ARRAY_TAIL@ + DELETE_TAIL@))
            == array_code(keep.len()) + DELETE_TAIL@);
    }
}

/// The statement that deletes stale tags is the same code for every list of as many
/// tags, and its string constants are the asset and the tags to keep.
pub proof fn law_delete_constants(id: AssetId, keep: Seq<Seq<char>>)
    ensures
        read_statement(delete_stale(id, keep), false) == Some(
            (delete_code(keep.len()), seq![id.text()] + keep),
        ),
{
    reveal_strlit(r#"DELETE FROM tag_search WHERE "assetId" = "#);
    reveal_strlit(r#" AND tag <> ALL ("#);
    let array = text_array(keep) + DELETE_TAIL@;
    let rest = DELETE_MIDDLE@ + array;
    let asset = enclosed(id.text());
    lemma_asset_text_without_quotes(id);
    lemma_enclosed_reads_back(id.text(), rest);
    lemma_read_array(keep);
    lemma_read_code(DELETE_MIDDLE@, array, false);
    lemma_read_constant(asset, id.text(), rest, false);
    lemma_read_code(DELETE_HEAD@, asset + rest, false);
    assert(delete_stale(id, keep) == DELETE_HEAD@ + (asset + rest));
    assert(DELETE_HEAD@ + (blank() + (DELETE_MIDDLE@ + (array_code(keep.len()) + DELETE_TAIL@)))
        == delete_code(keep.len()));
}

/// Statements of different kinds are different code.
pub proof fn lemma_codes_differ(n: nat)
    ensures
        update_code() != insert_code(),
        update_code() != exists_code(),
        insert_code() != exists_code(),
        delete_code(n) != upsert_code(),
{
    reveal_strlit(r#"
        UPDATE asset_exif 
        SET description = E"#);
    reveal_strlit(r#"
        INSERT INTO asset_exif (
            "assetId", description, "updatedAt", "updateId"
        ) VALUES (
            "#);
    reveal_strlit(r#"
        SELECT EXISTS (
            SELECT 1 FROM asset 
            WHERE id = "#);
    reveal_strlit(r#"INSERT INTO tag_search ("assetId", tag, embedding) VALUES ("#);
    reveal_strlit(r#"DELETE FROM tag_search WHERE "assetId" = "#);
    assert(update_code()[9] == 'U');
    assert(insert_code()[9] == 'I');
    assert(exists_code()[9] == 'S');
    assert(delete_code(n)[0] == 'D');
    assert(upsert_code()[0] == 'I');
}

} // verus!
