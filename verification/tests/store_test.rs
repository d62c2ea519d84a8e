use image_tags::asset::{AssetId, ImageAnalysisResult};
use image_tags::clip::ClipConfig;
use image_tags::error::ImageAnalysisError;
use image_tags::store::{TagAction, TagEvent, TagRun};
use std::collections::BTreeMap;

fn config() -> ClipConfig {
    ClipConfig { url: "http://ml".to_owned(), model_name: "m".to_owned(), timeout: 30 }
}

fn analysis(description: &str) -> ImageAnalysisResult {
    ImageAnalysisResult { description: description.to_owned(), asset_id: AssetId { bits: 7 } }
}

fn failure() -> ImageAnalysisError {
    ImageAnalysisError::ClipEncodingError { error: "no".to_owned() }
}

fn strings(list: &[&str]) -> Vec<String> {
    list.iter().map(|s| s.to_string()).collect()
}

#[test]
fn nothing_is_done_without_an_encoder_or_tags() {
    assert!(TagRun::start(None, &analysis("Tags: a")).is_none());
    assert!(TagRun::start(Some(&config()), &analysis("A toad.")).is_none());
    assert!(TagRun::start(Some(&config()), &analysis("Tags: , ,")).is_none());
}

#[test]
fn stale_tags_go_first_and_each_tag_follows() {
    let (mut run, action) = TagRun::start(Some(&config()), &analysis("x\nTags: a, b ,c")).unwrap();
    assert_eq!(action, TagAction::DeleteStale { keep: strings(&["a", "b", "c"]) });
    let action = run.step(TagEvent::Deleted { result: Ok(()) });
    assert_eq!(action, TagAction::Encode { tag: "a".to_owned() });
    let action = run.step(TagEvent::Encoded { embedding: Ok("[1]".to_owned()) });
    assert_eq!(
        action,
        TagAction::Store { tag: "a".to_owned(), embedding: "[1]".to_owned() }
    );
    let action = run.step(TagEvent::Stored { result: Ok(()) });
    assert_eq!(action, TagAction::Encode { tag: "b".to_owned() });
    let action = run.step(TagEvent::Encoded { embedding: Err(failure()) });
    assert_eq!(action, TagAction::Encode { tag: "c".to_owned() });
    let action = run.step(TagEvent::Encoded { embedding: Ok("[3]".to_owned()) });
    assert_eq!(
        action,
        TagAction::Store { tag: "c".to_owned(), embedding: "[3]".to_owned() }
    );
    assert_eq!(run.step(TagEvent::Stored { result: Err(failure()) }), TagAction::Done);
}

#[test]
fn a_failed_deletion_is_not_fatal() {
    let (mut run, _) = TagRun::start(Some(&config()), &analysis("tags: a")).unwrap();
    let action = run.step(TagEvent::Deleted { result: Err(failure()) });
    assert_eq!(action, TagAction::Encode { tag: "a".to_owned() });
    assert_eq!(run.step(TagEvent::Encoded { embedding: Err(failure()) }), TagAction::Done);
}

/// Runs the tags of a description against a table; a tag in `lost` has no
/// embedding. Gives the tags that were to be embedded.
fn drive(rows: &mut BTreeMap<String, String>, description: &str, lost: &str) -> Vec<String> {
    let mut encoded = Vec::new();
    let (mut run, mut action) = TagRun::start(Some(&config()), &analysis(description)).unwrap();
    loop {
        let event = match action {
            TagAction::DeleteStale { keep } => {
                rows.retain(|tag, _| keep.contains(tag));
                TagEvent::Deleted { result: Ok(()) }
            }
            TagAction::Encode { tag } => {
                encoded.push(tag.clone());
                if tag == lost {
                    TagEvent::Encoded { embedding: Err(failure()) }
                } else {
                    TagEvent::Encoded { embedding: Ok(format!("[{}]", encoded.len())) }
                }
            }
            TagAction::Store { tag, embedding } => {
                rows.insert(tag, embedding);
                TagEvent::Stored { result: Ok(()) }
            }
            TagAction::Done => return encoded,
        };
        action = run.step(event);
    }
}

#[test]
fn a_new_analysis_replaces_the_tags() {
    let mut rows = BTreeMap::new();
    rows.insert("old".to_owned(), "[0]".to_owned());
    rows.insert("kept".to_owned(), "[9]".to_owned());
    let encoded = drive(&mut rows, "Tags: new, kept, cat, cat", "kept");
    assert_eq!(encoded, ["new", "kept", "cat", "cat"]);
    let tags: Vec<&String> = rows.keys().collect();
    assert_eq!(tags, ["cat", "kept", "new"]);
    assert_eq!(rows["kept"], "[9]");
    assert_eq!(rows["new"], "[1]");
    assert_eq!(rows["cat"], "[4]");
}
