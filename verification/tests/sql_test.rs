use image_tags::asset::AssetId;
use image_tags::sql::{
    asset_exists_query, asset_exists_statement, delete_stale_query, double_quotes, escape,
    has_description_statement, insert_description_query, update_description_query,
    upsert_tag_query,
};

const BITS: u128 = 0x0123456789abcdef0fedcba987654321;
const TEXT: &str = "01234567-89ab-cdef-0fed-cba987654321";

fn id() -> AssetId {
    AssetId { bits: BITS }
}

fn strings(list: &[&str]) -> Vec<String> {
    list.iter().map(|s| s.to_string()).collect()
}

#[test]
fn asset_text_is_that_of_a_uuid() {
    assert_eq!(id().to_text(), TEXT);
    assert_eq!(id().to_text(), uuid::Uuid::from_u128(BITS).to_string());
    assert_eq!(AssetId { bits: 0 }.to_text(), "00000000-0000-0000-0000-000000000000");
    assert_eq!(AssetId { bits: u128::MAX }.to_text(), "ffffffff-ffff-ffff-ffff-ffffffffffff");
    assert_eq!(id().to_text().len(), 36);
}

#[test]
fn different_assets_have_different_texts() {
    let a = AssetId { bits: 1 };
    let b = AssetId { bits: 1 << 127 };
    assert_ne!(a.to_text(), b.to_text());
}

#[test]
fn quotes_are_doubled() {
    assert_eq!(double_quotes("a'b''c"), "a''b''''c");
    assert_eq!(double_quotes("\\'"), "\\''");
    assert_eq!(double_quotes(""), "");
    assert_eq!(double_quotes("\u{1f438}"), "\u{1f438}");
}

#[test]
fn quotes_and_backslashes_are_escaped() {
    assert_eq!(escape("a'b\\c"), "a''b\\\\c");
    assert_eq!(escape("\\'"), "\\\\''");
    assert_eq!(escape("\\n\n"), "\\\\n\n");
    assert_eq!(escape(""), "");
}

#[test]
fn has_description_asks_by_parameter() {
    let statement = has_description_statement(&id());
    assert_eq!(
        statement.sql,
        "\n        SELECT EXISTS (\n            SELECT 1 FROM asset_exif \n            WHERE \"assetId\"::text = $1 \n            AND description IS NOT NULL \n            AND description != ''\n        )\n    "
    );
    assert_eq!(statement.parameters, [TEXT]);
}

#[test]
fn asset_exists_asks_by_parameter() {
    let statement = asset_exists_statement(&id());
    assert_eq!(statement.sql, "SELECT EXISTS (SELECT 1 FROM asset WHERE id = $1::text::uuid)");
    assert_eq!(statement.parameters, [TEXT]);
}

#[test]
fn update_names_description_and_asset() {
    assert_eq!(
        update_description_query(&id(), "It's a toad\\."),
        format!(
            "\n        UPDATE asset_exif \n        SET description = E'{}', \n            \"updatedAt\" = NOW(),\n            \"updateId\" = immich_uuid_v7()\n        WHERE \"assetId\" = '{}'\n        ",
            "It''s a toad\\\\.", TEXT
        )
    );
}

#[test]
fn exists_query_names_asset() {
    assert_eq!(
        asset_exists_query(&id()),
        format!(
            "\n        SELECT EXISTS (\n            SELECT 1 FROM asset \n            WHERE id = '{}'\n        )\n        ",
            TEXT
        )
    );
}

#[test]
fn insert_names_asset_and_description() {
    assert_eq!(
        insert_description_query(&id(), "It's\\"),
        format!(
            "\n        INSERT INTO asset_exif (\n            \"assetId\", description, \"updatedAt\", \"updateId\"\n        ) VALUES (\n            '{}', E'{}', NOW(), immich_uuid_v7()\n        )\n        ON CONFLICT (\"assetId\") DO UPDATE \n        SET description = EXCLUDED.description,\n            \"updatedAt\" = NOW(),\n            \"updateId\" = immich_uuid_v7()\n        ",
            TEXT, "It''s\\\\"
        )
    );
}

#[test]
fn upsert_names_asset_tag_and_embedding() {
    assert_eq!(
        upsert_tag_query(&id(), "d'or", "[1,2]"),
        format!(
            "INSERT INTO tag_search (\"assetId\", tag, embedding) VALUES ('{}', '{}', '{}')\n           ON CONFLICT (\"assetId\", tag) DO UPDATE SET embedding = EXCLUDED.embedding",
            TEXT, "d''or", "[1,2]"
        )
    );
}

#[test]
fn delete_names_asset_and_tags_to_keep() {
    assert_eq!(
        delete_stale_query(&id(), &strings(&["toad", "d'or"])),
        format!(
            "DELETE FROM tag_search WHERE \"assetId\" = '{}' AND tag <> ALL (ARRAY['toad','d''or'])",
            TEXT
        )
    );
    assert_eq!(
        delete_stale_query(&id(), &strings(&["toad"])),
        format!("DELETE FROM tag_search WHERE \"assetId\" = '{}' AND tag <> ALL (ARRAY['toad'])", TEXT)
    );
}

#[test]
fn delete_with_nothing_to_keep() {
    assert_eq!(
        delete_stale_query(&id(), &Vec::new()),
        format!(
            "DELETE FROM tag_search WHERE \"assetId\" = '{}' AND tag <> ALL (ARRAY[]::text[])",
            TEXT
        )
    );
}

/// The text of the literal at the start of `s`, and what follows it. Where `escapes`
/// holds, a backslash makes one character with the next.
fn read(s: &str, escapes: bool) -> (String, String) {
    let chars: Vec<char> = s.chars().collect();
    assert_eq!(chars[0], '\'');
    let mut text = String::new();
    let mut i = 1;
    loop {
        if escapes && chars[i] == '\\' {
            i += 1;
            assert!(chars[i] == '\\' || chars[i] == '\'');
        } else if chars[i] == '\'' {
            if i + 1 < chars.len() && chars[i + 1] == '\'' {
                i += 1;
            } else {
                return (text, chars[i + 1..].iter().collect());
            }
        }
        text.push(chars[i]);
        i += 1;
    }
}

#[test]
fn literals_read_back() {
    let tag = "'a''b'''\\";
    let query = upsert_tag_query(&id(), tag, "[1]");
    let (first, rest) = read(&query[query.find("VALUES (").unwrap() + 8..], false);
    let (second, rest) = read(&rest[2..], false);
    let (third, rest) = read(&rest[2..], false);
    assert_eq!(first, TEXT);
    assert_eq!(second, tag);
    assert_eq!(third, "[1]");
    assert!(rest.starts_with(")\n"));
}

#[test]
fn descriptions_read_back() {
    let mut ends = Vec::new();
    for text in ["plain", "'a''b'''", "\\", "a\\'b\\\\", "\\', x = 'y", "\\n\n", ""] {
        let query = update_description_query(&id(), text);
        let (description, rest) = read(&query[query.find("E'").unwrap() + 1..], true);
        assert_eq!(description, text);
        ends.push(rest.clone());
        let (asset, _) = read(&rest[rest.find('\'').unwrap()..], false);
        assert_eq!(asset, TEXT);
        let query = insert_description_query(&id(), text);
        let (asset, rest) = read(&query[query.find('\'').unwrap()..], false);
        assert_eq!(asset, TEXT);
        let (description, rest) = read(rest.strip_prefix(", E").unwrap(), true);
        assert_eq!(description, text);
        assert!(rest.starts_with(", NOW()"));
    }
    assert!(ends.iter().all(|rest| *rest == ends[0]));
}

#[test]
fn tags_to_keep_read_back() {
    let keep = ["toad", "d'or", "a\\", "','"];
    let query = delete_stale_query(&id(), &strings(&keep));
    let (asset, rest) = read(&query[query.find('\'').unwrap()..], false);
    assert_eq!(asset, TEXT);
    let mut rest = rest.strip_prefix(" AND tag <> ALL (ARRAY[").unwrap().to_owned();
    for (i, tag) in keep.iter().enumerate() {
        let (text, after) = read(&rest, false);
        assert_eq!(text, *tag);
        let end = if i + 1 < keep.len() { "," } else { "])" };
        rest = after.strip_prefix(end).unwrap().to_owned();
    }
    assert_eq!(rest, "");
}
