//! The tags of an analysed image on their way into the database.
//!
//! First the tags that the asset no longer has are deleted, so that a new analysis
//! replaces the old tags and does not add to them. Then each tag is embedded and
//! stored. No failure on the way is fatal: the description has been written before,
//! and what is lost is the search for a tag. `TagRun` says what comes next; whoever
//! drives it does that, and hands back what came of it.

use crate::asset::{AssetId, ImageAnalysisResult, asset_named, law_asset_named};
use crate::clip::ClipConfig;
use crate::embedding::valid_embedding;
use crate::error::ImageAnalysisError;
use crate::reading::{
    delete_code, law_delete_constants, law_upsert_constants, lemma_codes_differ, read_statement,
    upsert_code,
};
use crate::sql::{delete_stale, upsert_tag};
use crate::tags::{
    description_tags, extract_tags, law_tags, law_tags_are_the_filled_pieces, law_tags_line,
    law_tags_of_two_lists, split_tags, tags_of,
};
use crate::text::{split, texts, trim};
use vstd::prelude::*;

verus! {

/// How far a run has come.
#[derive(Debug, Clone, Copy, PartialEq, Eq, Structural)]
pub enum Phase {
    /// The tags that are gone are being deleted.
    Deleting,
    /// The next tag is being embedded.
    Encoding,
    /// The next tag is being stored.
    Storing,
    /// Nothing is left to do.
    Finished,
}

/// What is to be done.
#[derive(Debug, PartialEq, Eq)]
pub enum TagAction {
    /// Delete the asset's tags that are not among these.
    DeleteStale { keep: Vec<String> },
    /// Embed this tag.
    Encode { tag: String },
    /// Store this tag with its embedding.
    Store { tag: String, embedding: String },
    /// Nothing.
    Done,
}

/// An action with its texts as sequences of characters.
pub enum ActionView {
    DeleteStale { keep: Seq<Seq<char>> },
    Encode { tag: Seq<char> },
    Store { tag: Seq<char>, embedding: Seq<char> },
    Done,
}

impl View for TagAction {
    type V = ActionView;

    open spec fn view(&self) -> ActionView {
        match self {
            TagAction::DeleteStale { keep } => ActionView::DeleteStale { keep: texts(keep@) },
            TagAction::Encode { tag } => ActionView::Encode { tag: tag@ },
            TagAction::Store { tag, embedding } => ActionView::Store {
                tag: tag@,
                embedding: embedding@,
            },
            TagAction::Done => ActionView::Done,
        }
    }
}

/// What came of an action.
#[derive(Debug, PartialEq, Eq)]
pub enum TagEvent {
    Deleted { result: Result<(), ImageAnalysisError> },
    Encoded { embedding: Result<String, ImageAnalysisError> },
    Stored { result: Result<(), ImageAnalysisError> },
}

/// An event as far as it matters: a failure other than that there is no embedding
/// is passed over.
pub enum EventView {
    Deleted,
    Encoded { embedding: Option<Seq<char>> },
    Stored,
}

impl View for TagEvent {
    type V = EventView;

    open spec fn view(&self) -> EventView {
        match self {
            TagEvent::Deleted { .. } => EventView::Deleted,
            TagEvent::Encoded { embedding } => EventView::Encoded {
                embedding: match embedding {
                    Ok(text) => Some(text@),
                    Err(_) => None,
                },
            },
            TagEvent::Stored { .. } => EventView::Stored,
        }
    }
}

/// A run: its tags, which of them is next, and how far it has come.
pub struct RunView {
    pub tags: Seq<Seq<char>>,
    pub next: nat,
    pub phase: Phase,
}

/// A run with a tag that is next, where one has to be.
pub open spec fn valid_run(run: RunView) -> bool {
    match run.phase {
        Phase::Deleting => run.next == 0 && run.tags.len() > 0,
        Phase::Encoding => run.next < run.tags.len(),
        Phase::Storing => run.next < run.tags.len(),
        Phase::Finished => run.next == run.tags.len(),
    }
}

/// The event is one that the run waits for.
pub open spec fn fits(phase: Phase, event: EventView) -> bool {
    match event {
        EventView::Deleted => phase == Phase::Deleting,
        EventView::Encoded { .. } => phase == Phase::Encoding,
        EventView::Stored => phase == Phase::Storing,
    }
}

/// The run that starts with the tag `next`, and its action.
pub open spec fn at_tag(tags: Seq<Seq<char>>, next: nat) -> (RunView, ActionView) {
    if next < tags.len() {
        (
            RunView { tags, next, phase: Phase::Encoding },
            ActionView::Encode { tag: tags[next as int] },
        )
    } else {
        (RunView { tags, next: tags.len(), phase: Phase::Finished }, ActionView::Done)
    }
}

/// What a run does after an event that it waits for.
pub open spec fn run_step(run: RunView, event: EventView) -> (RunView, ActionView) {
    match event {
        EventView::Deleted => at_tag(run.tags, 0),
        EventView::Encoded { embedding: Some(embedding) } => (
            RunView { phase: Phase::Storing, ..run },
            ActionView::Store { tag: run.tags[run.next as int], embedding },
        ),
        EventView::Encoded { embedding: None } => at_tag(run.tags, run.next + 1),
        EventView::Stored => at_tag(run.tags, run.next + 1),
    }
}

/// The tags that an analysis has stored: those of its description, where there is
/// an encoder.
pub open spec fn planned_tags(enabled: bool, description: Seq<char>) -> Seq<Seq<char>> {
    match description_tags(description) {
        Some(tags_line) => if enabled {
            tags_of(tags_line)
        } else {
            Seq::empty()
        },
        None => Seq::empty(),
    }
}

/// The tags of one analysis, and how far they have come.
#[derive(Debug)]
pub struct TagRun {
    tags: Vec<String>,
    next: usize,
    phase: Phase,
}

impl View for TagRun {
    type V = RunView;

    closed spec fn view(&self) -> RunView {
        RunView { tags: texts(self.tags@), next: self.next as nat, phase: self.phase }
    }
}

fn copy_texts(list: &Vec<String>) -> (r: Vec<String>)
    ensures
        texts(r@) == texts(list@),
{
    let mut r: Vec<String> = Vec::new();
    for i in 0..list.len()
        invariant
            r@.len() == i,
            forall|k: int| 0 <= k < i ==> (#[trigger] r@[k])@ == list@[k]@,
    {
        r.push(list[i].clone());
    }
    assert(texts(r@) == texts(list@));
    r
}

impl TagRun {
    /// The run for an analysis, and its first action. There is none without an
    /// encoder, and none for a description without tags.
    pub fn start(clip: Option<&ClipConfig>, analysis: &ImageAnalysisResult) -> (r: Option<
        (TagRun, TagAction),
    >)
        ensures
            ({
                let tags = planned_tags(clip is Some, analysis.description@);
                match r {
                    Some((run, action)) => {
                        &&& tags.len() > 0
                        &&& run@ == (RunView { tags, next: 0, phase: Phase::Deleting })
                        &&& action@ == (ActionView::DeleteStale { keep: tags })
                    },
                    None => tags.len() == 0,
                }
            }),
    {
        if clip.is_none() {
            return None;
        }
        match extract_tags(analysis.description.as_str()) {
            None => None,
            Some(tags_line) => {
                let tags = split_tags(tags_line.as_str());
                if tags.len() == 0 {
                    assert(texts(tags@).len() == 0);
                    return None;
                }
                assert(texts(tags@).len() > 0);
                let keep = copy_texts(&tags);
                let run = TagRun { tags, next: 0, phase: Phase::Deleting };
                Some((run, TagAction::DeleteStale { keep }))
            },
        }
    }

    /// The next action of the run.
    pub fn step(&mut self, event: TagEvent) -> (action: TagAction)
        requires
            valid_run(old(self)@),
            fits(old(self)@.phase, event@),
        ensures
            (final(self)@, action@) == run_step(old(self)@, event@),
            valid_run(final(self)@),
    {
        assert(self.next <= self.tags.len());
        match event {
            TagEvent::Deleted { .. } => self.go_to(0),
            TagEvent::Encoded { embedding: Ok(embedding) } => {
                self.phase = Phase::Storing;
                TagAction::Store { tag: self.tags[self.next].clone(), embedding }
            },
            TagEvent::Encoded { embedding: Err(_) } => {
                let next: usize = self.next + 1;
                self.go_to(next)
            },
            TagEvent::Stored { .. } => {
                let next: usize = self.next + 1;
                self.go_to(next)
            },
        }
    }

    fn go_to(&mut self, next: usize) -> (action: TagAction)
        requires
            next <= old(self)@.tags.len(),
        ensures
            (final(self)@, action@) == at_tag(old(self)@.tags, next as nat),
    {
        self.next = next;
        if next < self.tags.len() {
            self.phase = Phase::Encoding;
            TagAction::Encode { tag: self.tags[next].clone() }
        } else {
            self.phase = Phase::Finished;
            TagAction::Done
        }
    }
}

/// A tag that is stored has some text, none of it white space at an end, and
/// neither comma nor line feed.
pub proof fn law_planned_tags(enabled: bool, description: Seq<char>)
    ensures
        forall|i: int|
            0 <= i < planned_tags(enabled, description).len() ==> {
                let tag = #[trigger] planned_tags(enabled, description)[i];
                &&& tag.len() > 0
                &&& trim(tag) == tag
                &&& !tag.contains(',')
                &&& !tag.contains('\n')
            },
{
    law_tags_line(description);
    if let Some(tags_line) = description_tags(description) {
        law_tags(tags_line);
    }
}

/// The rows of tags: for an asset and a tag, the embedding.
pub type TagRows = Map<(AssetId, Seq<char>), Seq<char>>;

/// What comes of the requests of a run, whatever is reported back: whether the
/// stale tags are deleted, the embedding of each tag, where there is one, and
/// whether each tag that has a valid one is stored.
pub struct Fortune {
    pub deleted: bool,
    pub embeddings: Seq<Option<Seq<char>>>,
    pub stored: Seq<bool>,
}

/// The rows without those of the asset's tags that are not among `keep`.
pub open spec fn without_stale(rows: TagRows, id: AssetId, keep: Seq<Seq<char>>) -> TagRows {
    rows.remove_keys(
        Set::new(|key: (AssetId, Seq<char>)| key.0 == id && !keep.contains(key.1)),
    )
}

/// The rows after a statement. One that stores a tag puts a row for the asset and the
/// tag that it names; one that deletes stale tags takes the rows of the asset away
/// whose tags it does not name. Any other changes nothing here.
pub open spec fn executed(rows: TagRows, statement: Seq<char>) -> TagRows {
    match read_statement(statement, false) {
        Some((code, constants)) => if code == upsert_code() {
            rows.insert((asset_named(constants[0]), constants[1]), constants[2])
        } else if constants.len() > 0 && code == delete_code((constants.len() - 1) as nat) {
            without_stale(rows, asset_named(constants[0]), constants.skip(1))
        } else {
            rows
        },
        None => rows,
    }
}

/// What the statements of a run do: the one deletes the asset's tags that are not
/// among those to keep, the other stores the embedding of the tag for the asset.
pub proof fn law_statements_change_rows(
    rows: TagRows,
    id: AssetId,
    keep: Seq<Seq<char>>,
    tag: Seq<char>,
    embedding: Seq<char>,
)
    ensures
        executed(rows, delete_stale(id, keep)) == without_stale(rows, id, keep),
        valid_embedding(embedding) ==> executed(rows, upsert_tag(id, tag, embedding))
            == rows.insert((id, tag), embedding),
{
    law_asset_named(id);
    lemma_codes_differ(keep.len());
    law_delete_constants(id, keep);
    let constants = seq![id.text()] + keep;
    assert(constants.skip(1) == keep);
    if valid_embedding(embedding) {
        law_upsert_constants(id, tag, embedding);
    }
}

/// The rows after an action of a run, where `next` is the tag that it is about. An
/// embedding that is not valid is not sent.
pub open spec fn rows_after(
    rows: TagRows,
    id: AssetId,
    action: ActionView,
    next: nat,
    fortune: Fortune,
) -> TagRows {
    match action {
        ActionView::DeleteStale { keep } => if fortune.deleted {
            executed(rows, delete_stale(id, keep))
        } else {
            rows
        },
        ActionView::Store { tag, embedding } => if valid_embedding(embedding)
            && fortune.stored[next as int] {
            executed(rows, upsert_tag(id, tag, embedding))
        } else {
            rows
        },
        ActionView::Encode { .. } => rows,
        ActionView::Done => rows,
    }
}

/// The event that an action of a run leads to.
pub open spec fn event_after(run: RunView, fortune: Fortune) -> EventView {
    match run.phase {
        Phase::Deleting => EventView::Deleted,
        Phase::Encoding => EventView::Encoded { embedding: fortune.embeddings[run.next as int] },
        Phase::Storing => EventView::Stored,
        Phase::Finished => EventView::Stored,
    }
}

/// An upper bound for the actions that a run still takes.
pub open spec fn actions_left(run: RunView) -> nat {
    match run.phase {
        Phase::Deleting => 2 * run.tags.len() + 1,
        Phase::Encoding => if run.next < run.tags.len() {
            (2 * (run.tags.len() - run.next)) as nat
        } else {
            0
        },
        Phase::Storing => if run.next < run.tags.len() {
            (2 * (run.tags.len() - run.next) - 1) as nat
        } else {
            0
        },
        Phase::Finished => 0,
    }
}

/// The rows when a run that is about to do `action` has come to its end.
pub open spec fn rows_at_end(
    run: RunView,
    action: ActionView,
    id: AssetId,
    rows: TagRows,
    fortune: Fortune,
) -> TagRows
    decreases actions_left(run),
{
    if actions_left(run) == 0 {
        rows
    } else {
        let (next_run, next_action) = run_step(run, event_after(run, fortune));
        rows_at_end(
            next_run,
            next_action,
            id,
            rows_after(rows, id, action, run.next, fortune),
            fortune,
        )
    }
}

/// The tags that a run about to do `action` has embedded, one after the other.
pub open spec fn tags_encoded(run: RunView, action: ActionView, fortune: Fortune) -> Seq<Seq<char>>
    decreases actions_left(run),
{
    if actions_left(run) == 0 {
        Seq::empty()
    } else {
        let (next_run, next_action) = run_step(run, event_after(run, fortune));
        let others = tags_encoded(next_run, next_action, fortune);
        match action {
            ActionView::Encode { tag } => seq![tag] + others,
            _ => others,
        }
    }
}

/// The first run of some tags, and its action.
pub open spec fn at_start(tags: Seq<Seq<char>>) -> (RunView, ActionView) {
    (RunView { tags, next: 0, phase: Phase::Deleting }, ActionView::DeleteStale { keep: tags })
}

/// The tag `i` has a valid embedding, and is stored.
pub open spec fn arrives(fortune: Fortune, i: int) -> bool {
    &&& fortune.embeddings[i] matches Some(embedding) && valid_embedding(embedding)
    &&& fortune.stored[i]
}

/// The rows when the tags from `next` on have been through.
spec fn rows_from(
    tags: Seq<Seq<char>>,
    next: nat,
    id: AssetId,
    rows: TagRows,
    fortune: Fortune,
) -> TagRows
    decreases tags.len() - next,
{
    if next >= tags.len() {
        rows
    } else {
        let i = next as int;
        let after = if arrives(fortune, i) {
            rows.insert((id, tags[i]), fortune.embeddings[i]->0)
        } else {
            rows
        };
        rows_from(tags, next + 1, id, after, fortune)
    }
}

proof fn lemma_rows_at_tag(
    tags: Seq<Seq<char>>,
    next: nat,
    id: AssetId,
    rows: TagRows,
    fortune: Fortune,
)
    requires
        next <= tags.len(),
    ensures
        rows_at_end(at_tag(tags, next).0, at_tag(tags, next).1, id, rows, fortune) == rows_from(
            tags,
            next,
            id,
            rows,
            fortune,
        ),
    decreases tags.len() - next,
{
    if next < tags.len() {
        reveal_with_fuel(rows_at_end, 3);
        let i = next as int;
        if arrives(fortune, i) {
            law_statements_change_rows(rows, id, tags, tags[i], fortune.embeddings[i]->0);
        }
        let after = if arrives(fortune, i) {
            rows.insert((id, tags[i]), fortune.embeddings[i]->0)
        } else {
            rows
        };
        lemma_rows_at_tag(tags, next + 1, id, after, fortune);
    }
}

proof fn lemma_rows_from(
    tags: Seq<Seq<char>>,
    next: nat,
    id: AssetId,
    rows: TagRows,
    fortune: Fortune,
    key: (AssetId, Seq<char>),
)
    requires
        next <= tags.len(),
    ensures
        ({
            let end = rows_from(tags, next, id, rows, fortune);
            &&& (key.0 != id || forall|i: int|
                next <= i < tags.len() && #[trigger] tags[i] == key.1 ==> !arrives(fortune, i))
                ==> (end.dom().contains(key) <==> rows.dom().contains(key)) && (rows.dom().contains(
                key,
            ) ==> end[key] == rows[key])
            &&& forall|i: int|
                #![trigger tags[i]]
                next <= i < tags.len() && key == (id, tags[i]) && arrives(fortune, i) && (forall|
                    j: int,
                |
                    i < j < tags.len() && #[trigger] tags[j] == tags[i] ==> !arrives(fortune, j))
                    ==> end.dom().contains(key) && end[key] == fortune.embeddings[i]->0
        }),
    decreases tags.len() - next,
{
    if next < tags.len() {
        let n = next as int;
        let after = if arrives(fortune, n) {
            rows.insert((id, tags[n]), fortune.embeddings[n]->0)
        } else {
            rows
        };
        lemma_rows_from(tags, next + 1, id, after, fortune, key);
    }
}

/// When a run of some tags has ended, the rows of other assets are as they were.
/// The row of a tag that arrived holds its embedding, the last one where the tag
/// is listed more than once. The row of a listed tag that did not arrive is as it
/// was. Where the stale tags were deleted, the asset has no tag that is not listed:
/// a new analysis replaces the old tags.
pub proof fn law_run_replaces_tags(
    tags: Seq<Seq<char>>,
    id: AssetId,
    rows: TagRows,
    fortune: Fortune,
    key: (AssetId, Seq<char>),
)
    requires
        tags.len() > 0,
    ensures
        ({
            let (run, action) = at_start(tags);
            let end = rows_at_end(run, action, id, rows, fortune);
            let unchanged = (end.dom().contains(key) <==> rows.dom().contains(key)) && (
            rows.dom().contains(key) ==> end[key] == rows[key]);
            &&& key.0 != id ==> unchanged
            &&& forall|i: int|
                #![trigger tags[i]]
                0 <= i < tags.len() && key == (id, tags[i]) && arrives(fortune, i) && (forall|
                    j: int,
                |
                    i < j < tags.len() && #[trigger] tags[j] == tags[i] ==> !arrives(fortune, j))
                    ==> end.dom().contains(key) && end[key] == fortune.embeddings[i]->0
            &&& key.0 == id && tags.contains(key.1) && (forall|i: int|
                0 <= i < tags.len() && #[trigger] tags[i] == key.1 ==> !arrives(fortune, i))
                ==> unchanged
            &&& key.0 == id && !tags.contains(key.1) ==> if fortune.deleted {
                !end.dom().contains(key)
            } else {
                unchanged
            }
        }),
{
    let (run, action) = at_start(tags);
    let kept = if fortune.deleted {
        without_stale(rows, id, tags)
    } else {
        rows
    };
    law_statements_change_rows(rows, id, tags, Seq::empty(), Seq::empty());
    lemma_rows_at_tag(tags, 0, id, kept, fortune);
    assert(rows_at_end(run, action, id, rows, fortune) == rows_from(tags, 0, id, kept, fortune));
    lemma_rows_from(tags, 0, id, kept, fortune, key);
    if !tags.contains(key.1) {
        assert forall|i: int| 0 <= i < tags.len() && #[trigger] tags[i] == key.1 implies !arrives(
            fortune,
            i,
        ) by {
            assert(tags.contains(tags[i]));
        }
    }
}

/// A run has each of its tags embedded once, in their order, whatever fails.
pub proof fn law_run_encodes_every_tag(tags: Seq<Seq<char>>, fortune: Fortune)
    requires
        tags.len() > 0,
    ensures
        tags_encoded(at_start(tags).0, at_start(tags).1, fortune) == tags,
{
    lemma_encoded_at_tag(tags, 0, fortune);
    assert(tags.skip(0) == tags);
}

proof fn lemma_encoded_at_tag(tags: Seq<Seq<char>>, next: nat, fortune: Fortune)
    requires
        next <= tags.len(),
    ensures
        tags_encoded(at_tag(tags, next).0, at_tag(tags, next).1, fortune) == tags.skip(next as int),
    decreases tags.len() - next,
{
    if next < tags.len() {
        reveal_with_fuel(tags_encoded, 3);
        lemma_encoded_at_tag(tags, next + 1, fortune);
        assert(tags.skip(next as int) == seq![tags[next as int]] + tags.skip(next as int + 1));
    }
}

/// The events that a run is handed are ones that it waits for, and it stays valid.
pub proof fn law_run_stays_valid(run: RunView, fortune: Fortune)
    requires
        valid_run(run),
        run.phase != Phase::Finished,
    ensures
        fits(run.phase, event_after(run, fortune)),
        valid_run(run_step(run, event_after(run, fortune)).0),
        actions_left(run_step(run, event_after(run, fortune)).0) < actions_left(run),
{
}

/// With an encoder, the planned tags are the pieces between the commas of the
/// description's tags text that are not blank, each trimmed: every one of them, in
/// their order and as often as they stand there, however many there are. `places` says
/// where each of them stands. Without an encoder or a tags text there are none.
pub proof fn law_every_tag_is_planned(description: Seq<char>) -> (places: Seq<int>)
    ensures
        planned_tags(false, description).len() == 0,
        description_tags(description) is None ==> planned_tags(true, description).len() == 0,
        description_tags(description) matches Some(tags_line) ==> {
            let pieces = split(tags_line, ',');
            let tags = planned_tags(true, description);
            &&& places.len() == tags.len()
            &&& forall|k: int|
                0 <= k < places.len() ==> 0 <= #[trigger] places[k] < pieces.len() && tags[k]
                    == trim(pieces[places[k]])
            &&& forall|k: int, l: int|
                0 <= k < l < places.len() ==> #[trigger] places[k] < #[trigger] places[l]
            &&& forall|i: int|
                0 <= i < pieces.len() ==> (trim(#[trigger] pieces[i]).len() > 0
                    <==> places.contains(i))
        },
{
    match description_tags(description) {
        Some(tags_line) => law_tags_are_the_filled_pieces(tags_line),
        None => Seq::empty(),
    }
}

/// A tags text that lists two lists of tags with a comma between them plans the tags of
/// the one and then those of the other.
pub proof fn law_planned_tags_of_two_lists(
    description: Seq<char>,
    one: Seq<char>,
    other: Seq<char>,
    first: Seq<char>,
    second: Seq<char>,
)
    requires
        description_tags(description) == Some(first + seq![','] + second),
        description_tags(one) == Some(first),
        description_tags(other) == Some(second),
    ensures
        planned_tags(true, description) == planned_tags(true, one) + planned_tags(true, other),
{
    law_tags_of_two_lists(first, second);
}

/// A run goes from tag to tag. After the deletion comes the first tag. A tag that has an
/// embedding is stored with that embedding. After a tag that is stored or has no
/// embedding comes the one after it, and after the last one nothing. The tags of the run
/// stay as they are.
pub proof fn law_run_order(run: RunView, embedding: Seq<char>)
    requires
        run.next < run.tags.len(),
    ensures
        run_step(run, EventView::Deleted) == (
            RunView { tags: run.tags, next: 0, phase: Phase::Encoding },
            ActionView::Encode { tag: run.tags[0] },
        ),
        run_step(run, EventView::Encoded { embedding: Some(embedding) }) == (
            RunView { tags: run.tags, next: run.next, phase: Phase::Storing },
            ActionView::Store { tag: run.tags[run.next as int], embedding },
        ),
        run_step(run, EventView::Encoded { embedding: None }) == run_step(run, EventView::Stored),
        run.next + 1 < run.tags.len() ==> run_step(run, EventView::Stored) == (
            RunView { tags: run.tags, next: run.next + 1, phase: Phase::Encoding },
            ActionView::Encode { tag: run.tags[run.next as int + 1] },
        ),
        run.next + 1 == run.tags.len() ==> run_step(run, EventView::Stored) == (
            RunView { tags: run.tags, next: run.tags.len(), phase: Phase::Finished },
            ActionView::Done,
        ),
{
}

/// A run of any tags can be stepped: it is valid at its start and at each of its tags,
/// and takes every event of its phase, whatever came of the action.
pub proof fn law_run_takes_its_events(
    tags: Seq<Seq<char>>,
    next: nat,
    embedding: Option<Seq<char>>,
)
    requires
        next < tags.len(),
    ensures
        valid_run(RunView { tags, next: 0, phase: Phase::Deleting }),
        valid_run(RunView { tags, next, phase: Phase::Encoding }),
        valid_run(RunView { tags, next, phase: Phase::Storing }),
        valid_run(RunView { tags, next: tags.len(), phase: Phase::Finished }),
        fits(Phase::Deleting, EventView::Deleted),
        fits(Phase::Encoding, EventView::Encoded { embedding }),
        fits(Phase::Storing, EventView::Stored),
{
}

/// An action holds the texts of its strings, and an event the text of its embedding.
pub proof fn law_run_views(
    keep: Vec<String>,
    tag: String,
    embedding: String,
    error: ImageAnalysisError,
    result: Result<(), ImageAnalysisError>,
)
    ensures
        (TagAction::DeleteStale { keep })@ == (ActionView::DeleteStale { keep: texts(keep@) }),
        (TagAction::Encode { tag })@ == (ActionView::Encode { tag: tag@ }),
        (TagAction::Store { tag, embedding })@ == (ActionView::Store {
            tag: tag@,
            embedding: embedding@,
        }),
        TagAction::Done@ == ActionView::Done,
        (TagEvent::Deleted { result })@ == EventView::Deleted,
        (TagEvent::Encoded { embedding: Ok(embedding) })@ == (EventView::Encoded {
            embedding: Some(embedding@),
        }),
        (TagEvent::Encoded { embedding: Err(error) })@ == (EventView::Encoded { embedding: None }),
        (TagEvent::Stored { result })@ == EventView::Stored,
{
}

} // verus!
