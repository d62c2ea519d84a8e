//! The tags that a description ends with.

use crate::text::{
    chars_of, find, find_from, has_prefix, is_white_space, law_line_is_a_stretch, law_lines,
    law_split, law_split_of, law_trim, law_trim_of, law_trim_twice, lemma_find, lines, optional_text, split, string_of,
    strip_carriage_return, texts, trim, trim_bounds, trim_start,
};
use vstd::prelude::*;

verus! {

/// What follows the label of a tags line, or nothing where `line` is none.
pub open spec fn after_label(line: Seq<char>) -> Option<Seq<char>> {
    let trimmed = trim(line);
    if "Tags:"@.is_prefix_of(trimmed) {
        Some(trim(trimmed.skip("Tags:"@.len() as int)))
    } else if "tags:"@.is_prefix_of(trimmed) {
        Some(trim(trimmed.skip("tags:"@.len() as int)))
    } else {
        None
    }
}

/// The tags that `line` lists, where it is a tags line with some text.
pub open spec fn line_tags(line: Seq<char>) -> Option<Seq<char>> {
    match after_label(line) {
        Some(tags) => if tags.len() > 0 {
            Some(tags)
        } else {
            None
        },
        None => None,
    }
}

/// The tags of the first of the lines that lists any.
pub open spec fn first_line_tags(lines: Seq<Seq<char>>) -> Option<Seq<char>>
    decreases lines.len(),
{
    if lines.len() == 0 {
        None
    } else {
        match line_tags(lines.first()) {
            Some(tags) => Some(tags),
            None => first_line_tags(lines.drop_first()),
        }
    }
}

/// The tags line of a description, without its label.
pub open spec fn description_tags(description: Seq<char>) -> Option<Seq<char>> {
    first_line_tags(lines(description))
}

/// The tags of a tags line: what stands between the commas, without the white
/// space round it, as far as there is anything.
pub open spec fn tags_of(tags_line: Seq<char>) -> Seq<Seq<char>> {
    split(tags_line, ',').map_values(|piece: Seq<char>| trim(piece)).filter(
        |tag: Seq<char>| tag.len() > 0,
    )
}

fn tags_in(v: &Vec<char>, from: usize, to: usize) -> (r: Option<String>)
    requires
        from <= to <= v@.len(),
    ensures
        optional_text(r) == line_tags(v@.subrange(from as int, to as int)),
{
    let (low, high) = trim_bounds(v, from, to);
    let ghost trimmed = v@.subrange(low as int, high as int);
    proof {
        reveal_strlit("Tags:");
        reveal_strlit("tags:");
    }
    if has_prefix(v, low, high, "Tags:") || has_prefix(v, low, high, "tags:") {
        let (start, end) = trim_bounds(v, low + 5, high);
        assert(trimmed.skip(5) == v@.subrange(low + 5, high as int));
        if start < end {
            Some(string_of(v, start, end))
        } else {
            None
        }
    } else {
        None
    }
}

/// Extract the `Tags: ...` line from a description, if the model produced one.
///
/// This reads the raw model output, never the stored description, so the
/// `[AI]...[/AI]` wrapper applied at storage time is irrelevant here.
#[must_use]
pub fn extract_tags(description: &str) -> (r: Option<String>)
    ensures
        optional_text(r) == description_tags(description@),
{
    let v = chars_of(description);
    let n: usize = v.len();
    let mut start: usize = 0;
    assert(v@.subrange(0, n as int) == description@);
    while start < n
        invariant
            n == v@.len(),
            start <= n,
            description_tags(description@) == first_line_tags(
                lines(v@.subrange(start as int, n as int)),
            ),
        decreases n - start,
    {
        let end = find_from(&v, start, n, '\n');
        let ghost rest = v@.subrange(start as int, n as int);
        let mut line_end: usize = end;
        if end < n && start < end && v[end - 1] == '\r' {
            line_end = end - 1;
        }
        let ghost line = v@.subrange(start as int, line_end as int);
        let found = tags_in(&v, start, line_end);
        let next: usize = if end < n {
            end + 1
        } else {
            n
        };
        proof {
            let others = lines(v@.subrange(next as int, n as int));
            if end < n {
                assert(rest.take(end - start) == v@.subrange(start as int, end as int));
                assert(strip_carriage_return(rest.take(end - start)) == line);
                assert(rest.skip(end - start + 1) == v@.subrange(next as int, n as int));
            } else {
                assert(rest == line);
                assert(others == Seq::<Seq<char>>::empty());
            }
            assert(lines(rest) == seq![line] + others);
            assert(lines(rest).drop_first() == others);
        }
        if found.is_some() {
            return found;
        }
        start = next;
    }
    None
}

/// The trimmed pieces with some text.
spec fn kept(pieces: Seq<Seq<char>>) -> Seq<Seq<char>> {
    pieces.map_values(|piece: Seq<char>| trim(piece)).filter(|tag: Seq<char>| tag.len() > 0)
}

proof fn lemma_kept_first(piece: Seq<char>, others: Seq<Seq<char>>)
    ensures
        kept(seq![piece] + others) == (if trim(piece).len() > 0 {
            seq![trim(piece)]
        } else {
            Seq::empty()
        }) + kept(others),
{
    let trimmed = |p: Seq<char>| trim(p);
    let filled = |t: Seq<char>| t.len() > 0;
    let one = seq![trim(piece)];
    assert((seq![piece] + others).map_values(trimmed) == one + others.map_values(trimmed));
    Seq::filter_distributes_over_add(one, others.map_values(trimmed), filled);
    reveal_with_fuel(Seq::<_>::filter, 2);
    assert(one.drop_last() == Seq::<Seq<char>>::empty());
    assert(one.filter(filled) == (if trim(piece).len() > 0 {
        one
    } else {
        Seq::empty()
    }));
}

/// The tags of a tags line.
pub fn split_tags(tags_line: &str) -> (r: Vec<String>)
    ensures
        texts(r@) == tags_of(tags_line@),
{
    let v = chars_of(tags_line);
    let n: usize = v.len();
    let mut tags: Vec<String> = Vec::new();
    let mut start: usize = 0;
    let mut more = true;
    assert(v@.subrange(0, n as int) == tags_line@);
    assert(texts(tags@) + kept(split(tags_line@, ',')) == tags_of(tags_line@));
    while more
        invariant
            n == v@.len(),
            start <= n,
            more ==> tags_of(tags_line@) == texts(tags@) + kept(
                split(v@.subrange(start as int, n as int), ','),
            ),
            !more ==> tags_of(tags_line@) == texts(tags@),
        decreases
                if more {
                    n - start + 1
                } else {
                    0
                },
    {
        let end = find_from(&v, start, n, ',');
        let (low, high) = trim_bounds(&v, start, end);
        let ghost before = texts(tags@);
        let ghost rest = v@.subrange(start as int, n as int);
        let ghost piece = v@.subrange(start as int, end as int);
        if low < high {
            tags.push(string_of(&v, low, high));
        }
        assert(texts(tags@) == before + (if trim(piece).len() > 0 {
            seq![trim(piece)]
        } else {
            Seq::empty()
        }));
        if end < n {
            start = end + 1;
            proof {
                let others = split(v@.subrange(start as int, n as int), ',');
                assert(rest.take(find(rest, ',') as int) == piece);
                assert(rest.skip(find(rest, ',') as int + 1) == v@.subrange(start as int, n as int));
                assert(split(rest, ',') == seq![piece] + others);
                lemma_kept_first(piece, others);
                assert(tags_of(tags_line@) == texts(tags@) + kept(others));
            }
        } else {
            more = false;
            proof {
                let none = Seq::<Seq<char>>::empty();
                assert(rest == piece);
                assert(split(rest, ',') == seq![piece] + none);
                lemma_kept_first(piece, none);
                reveal(Seq::filter);
                assert(kept(none) == none);
                assert(tags_of(tags_line@) == texts(tags@));
            }
        }
    }
    tags
}

/// Every tag has some text, none of it white space at an end, and no comma; its
/// characters are from the tags line.
pub proof fn law_tags(tags_line: Seq<char>)
    ensures
        forall|i: int|
            0 <= i < tags_of(tags_line).len() ==> {
                let tag = #[trigger] tags_of(tags_line)[i];
                &&& tag.len() > 0
                &&& trim(tag) == tag
                &&& !tag.contains(',')
                &&& forall|c: char| #[trigger] tag.contains(c) ==> tags_line.contains(c)
            },
{
    let pieces = split(tags_line, ',');
    let trimmed = pieces.map_values(|piece: Seq<char>| trim(piece));
    let filled = |tag: Seq<char>| tag.len() > 0;
    assert forall|i: int| 0 <= i < tags_of(tags_line).len() implies {
        let tag = #[trigger] tags_of(tags_line)[i];
        &&& tag.len() > 0
        &&& trim(tag) == tag
        &&& !tag.contains(',')
        &&& forall|c: char| #[trigger] tag.contains(c) ==> tags_line.contains(c)
    } by {
        let tag = tags_of(tags_line)[i];
        trimmed.lemma_filter_pred(filled, i);
        lemma_filter_from(trimmed, filled, i);
        let k = choose|k: int| 0 <= k < trimmed.len() && trimmed[k] == tag;
        assert(tag == trim(pieces[k]));
        law_split(tags_line, ',');
        law_trim_twice(pieces[k]);
        let from = law_trim(pieces[k]);
        if tag.contains(',') {
            let j = tag.index_of(',');
            assert(pieces[k][from + j] == ',');
            assert(pieces[k].contains(','));
        }
        assert forall|c: char| #[trigger] tag.contains(c) implies tags_line.contains(c) by {
            let j = tag.index_of(c);
            assert(pieces[k][from + j] == c);
            assert(pieces[k].contains(c));
        }
    }
}

proof fn lemma_filter_from(s: Seq<Seq<char>>, pred: spec_fn(Seq<char>) -> bool, i: int)
    requires
        0 <= i < s.filter(pred).len(),
    ensures
        exists|k: int| 0 <= k < s.len() && s[k] == s.filter(pred)[i],
    decreases s.len(),
{
    reveal(Seq::filter);
    if s.len() > 0 {
        let front = s.drop_last();
        if i < front.filter(pred).len() {
            lemma_filter_from(front, pred, i);
            let k = choose|k: int| 0 <= k < front.len() && front[k] == front.filter(pred)[i];
            assert(s[k] == s.filter(pred)[i]);
        } else {
            assert(s[s.len() - 1] == s.filter(pred)[i]);
        }
    }
}

/// The tags line of a description is the first line that lists any tags; where
/// there is none, no line does.
pub proof fn law_first_tags_line(description: Seq<char>)
    ensures
        match description_tags(description) {
            Some(tags) => exists|i: int|
                {
                    &&& 0 <= i < lines(description).len()
                    &&& #[trigger] line_tags(lines(description)[i]) == Some(tags)
                    &&& forall|j: int|
                        0 <= j < i ==> #[trigger] line_tags(lines(description)[j]) is None
                },
            None => forall|i: int|
                0 <= i < lines(description).len() ==> #[trigger] line_tags(
                    lines(description)[i],
                ) is None,
        },
{
    lemma_first_line_tags(lines(description));
}

proof fn lemma_first_line_tags(all: Seq<Seq<char>>)
    ensures
        match first_line_tags(all) {
            Some(tags) => exists|i: int|
                {
                    &&& 0 <= i < all.len()
                    &&& #[trigger] line_tags(all[i]) == Some(tags)
                    &&& forall|j: int| 0 <= j < i ==> #[trigger] line_tags(all[j]) is None
                },
            None => forall|i: int| 0 <= i < all.len() ==> #[trigger] line_tags(all[i]) is None,
        },
    decreases all.len(),
{
    if all.len() > 0 {
        let others = all.drop_first();
        lemma_first_line_tags(others);
        if line_tags(all[0]) is None {
            match first_line_tags(others) {
                Some(tags) => {
                    let i = choose|i: int|
                        {
                            &&& 0 <= i < others.len()
                            &&& #[trigger] line_tags(others[i]) == Some(tags)
                            &&& forall|j: int|
                                0 <= j < i ==> #[trigger] line_tags(others[j]) is None
                        };
                    assert(line_tags(all[i + 1]) == Some(tags));
                    assert forall|j: int| 0 <= j < i + 1 implies #[trigger] line_tags(
                        all[j],
                    ) is None by {
                        if j > 0 {
                            assert(line_tags(others[j - 1]) is None);
                        }
                    }
                },
                None => {
                    assert forall|i: int| 0 <= i < all.len() implies #[trigger] line_tags(
                        all[i],
                    ) is None by {
                        if i > 0 {
                            assert(line_tags(others[i - 1]) is None);
                        }
                    }
                },
            }
        } else {
            assert(line_tags(all[0]) == first_line_tags(all));
        }
    }
}

/// A tags line has some text, none of it white space at an end, and no line feed.
pub proof fn law_tags_line(description: Seq<char>)
    ensures
        description_tags(description) matches Some(tags) ==> {
            &&& tags.len() > 0
            &&& trim(tags) == tags
            &&& !tags.contains('\n')
        },
{
    law_first_tags_line(description);
    if let Some(tags) = description_tags(description) {
        let i = choose|i: int|
            {
                &&& 0 <= i < lines(description).len()
                &&& #[trigger] line_tags(lines(description)[i]) == Some(tags)
                &&& forall|j: int|
                    0 <= j < i ==> #[trigger] line_tags(lines(description)[j]) is None
            };
        let line = lines(description)[i];
        law_lines(description);
        let from = law_trim(line);
        let rest = trim(line).skip(5);
        reveal_strlit("Tags:");
        reveal_strlit("tags:");
        assert(tags == trim(rest));
        law_trim_twice(rest);
        let start = law_trim(rest);
        if tags.contains('\n') {
            let k = tags.index_of('\n');
            assert(tags[k] == '\n');
            assert(rest[start + k] == '\n');
            assert(line[from + 5 + start + k] == '\n');
            assert(line.contains('\n'));
        }
    }
}

proof fn lemma_trim_start_push(s: Seq<char>, c: char)
    requires
        is_white_space(c),
    ensures
        trim_start(s.push(c)) == (if trim_start(s).len() == 0 {
            Seq::empty()
        } else {
            trim_start(s).push(c)
        }),
    decreases s.len(),
{
    if s.len() == 0 {
        reveal_with_fuel(trim_start, 2);
        assert(s.push(c).drop_first() == Seq::<char>::empty());
    } else {
        assert(s.push(c).first() == s.first());
        if is_white_space(s.first()) {
            assert(s.push(c).drop_first() == s.drop_first().push(c));
            lemma_trim_start_push(s.drop_first(), c);
        }
    }
}

proof fn lemma_trim_push(s: Seq<char>, c: char)
    requires
        is_white_space(c),
    ensures
        trim(s.push(c)) == trim(s),
{
    lemma_trim_start_push(s, c);
    assert(trim_start(s).push(c).drop_last() == trim_start(s));
}

proof fn lemma_line_end(line: Seq<char>)
    ensures
        line_tags(strip_carriage_return(line)) == line_tags(line),
{
    if line.len() > 0 && line.last() == '\r' {
        lemma_trim_push(line.drop_last(), '\r');
        assert(line == line.drop_last().push('\r'));
    }
}

proof fn lemma_first_line(line: Seq<char>, others: Seq<Seq<char>>)
    ensures
        first_line_tags(seq![line] + others) == (match line_tags(line) {
            Some(tags) => Some(tags),
            None => first_line_tags(others),
        }),
{
    assert((seq![line] + others).drop_first() == others);
}

/// The tags text of a description is a stretch of it.
pub proof fn law_tags_text_is_a_stretch(description: Seq<char>)
    ensures
        description_tags(description) matches Some(tags) ==> exists|from: int|
            0 <= from <= description.len() - tags.len() && #[trigger] description.subrange(
                from,
                from + tags.len(),
            ) == tags,
{
    law_first_tags_line(description);
    if let Some(tags) = description_tags(description) {
        let i = choose|i: int|
            {
                &&& 0 <= i < lines(description).len()
                &&& #[trigger] line_tags(lines(description)[i]) == Some(tags)
                &&& forall|j: int|
                    0 <= j < i ==> #[trigger] line_tags(lines(description)[j]) is None
            };
        let line = lines(description)[i];
        let place = law_line_is_a_stretch(description, i);
        let from = law_trim(line);
        let rest = trim(line).skip(5);
        reveal_strlit("Tags:");
        reveal_strlit("tags:");
        assert(tags == trim(rest));
        let start = law_trim(rest);
        let at = place + from + 5 + start;
        assert(description.subrange(at, at + tags.len()) == tags);
    }
}

proof fn lemma_trim_plain(s: Seq<char>)
    requires
        s.len() > 0,
        !is_white_space(s.first()),
        !is_white_space(s.last()),
    ensures
        trim(s) == s,
{
}

proof fn lemma_one_line(line: Seq<char>)
    requires
        line.len() > 0,
        !line.contains('\n'),
    ensures
        description_tags(line) == line_tags(line),
{
    lemma_find(line, '\n');
    let end = find(line, '\n') as int;
    if end < line.len() {
        assert(line.contains(line[end]));
    }
    assert(lines(line) == seq![line] + Seq::<Seq<char>>::empty());
    lemma_first_line(line, Seq::empty());
}

proof fn lemma_labelled(tags: Seq<char>)
    requires
        tags.len() > 0,
        !is_white_space(tags.first()),
        !is_white_space(tags.last()),
    ensures
        line_tags("Tags: "@ + tags) == Some(tags),
{
    reveal_strlit("Tags: ");
    reveal_strlit("Tags:");
    let line = "Tags: "@ + tags;
    let rest = line.skip(5);
    assert(line.first() == 'T');
    assert(line.last() == tags.last());
    lemma_trim_plain(line);
    assert("Tags:"@ == line.take(5));
    assert("Tags:"@.is_prefix_of(line));
    assert(rest.first() == ' ');
    assert(rest.drop_first() == tags);
    assert(trim_start(rest) == trim_start(tags));
    lemma_trim_plain(tags);
    assert(after_label(line) == Some(tags));
}

proof fn lemma_labelled_line(tags: Seq<char>)
    requires
        !tags.contains('\n'),
    ensures
        !("Tags: "@ + tags).contains('\n'),
{
    reveal_strlit("Tags: ");
    let line = "Tags: "@ + tags;
    assert forall|i: int| 0 <= i < line.len() implies line[i] != '\n' by {
        if i >= 6 {
            assert(line[i] == tags[i - 6]);
            assert(tags.contains(tags[i - 6]));
        } else {
            assert(line[i] == "Tags: "@[i]);
        }
    }
}

/// A line of the label, a space and the tags text of a description has that tags
/// text again.
pub proof fn law_labelled_tags_text(description: Seq<char>)
    ensures
        description_tags(description) matches Some(tags) ==> description_tags("Tags: "@ + tags)
            == Some(tags),
{
    if let Some(tags) = description_tags(description) {
        let line = "Tags: "@ + tags;
        law_tags_line(description);
        law_trim(tags);
        lemma_labelled(tags);
        lemma_labelled_line(tags);
        lemma_one_line(line);
    }
}

/// Two texts with a line feed between them have the tags of the first, and where it
/// has none, those of the second.
pub proof fn law_tags_of_two_texts(a: Seq<char>, b: Seq<char>)
    ensures
        description_tags(a + seq!['\n'] + b) == (match description_tags(a) {
            Some(tags) => Some(tags),
            None => description_tags(b),
        }),
    decreases a.len(),
{
    let s = a + seq!['\n'] + b;
    let end = find(a, '\n') as int;
    lemma_find(a, '\n');
    lemma_find(s, '\n');
    assert(s[a.len() as int] == '\n');
    let first = s.take(find(s, '\n') as int);
    lemma_line_end(first);
    if end < a.len() {
        let rest = a.skip(end + 1);
        assert(s[end] == '\n');
        assert(find(s, '\n') == end) by {
            if find(s, '\n') < end {
                assert(a[find(s, '\n') as int] == '\n');
            }
        }
        assert(first == a.take(end));
        assert(s.skip(end + 1) == rest + seq!['\n'] + b);
        law_tags_of_two_texts(rest, b);
        lemma_first_line(strip_carriage_return(first), lines(rest));
        lemma_first_line(strip_carriage_return(first), lines(s.skip(end + 1)));
    } else {
        assert(find(s, '\n') == a.len()) by {
            if find(s, '\n') < a.len() {
                assert(a[find(s, '\n') as int] == '\n');
            }
        }
        assert(first == a);
        assert(s.skip(a.len() as int + 1) == b);
        lemma_first_line(strip_carriage_return(a), lines(b));
        if a.len() > 0 {
            assert(lines(a) == seq![a] + Seq::<Seq<char>>::empty());
            lemma_first_line(a, Seq::empty());
        } else {
            reveal_strlit("Tags:");
            reveal_strlit("tags:");
            assert(line_tags(a) is None);
        }
    }
}

proof fn lemma_label_of_line(
    before: Seq<char>,
    label: Seq<char>,
    between: Seq<char>,
    tags: Seq<char>,
    after: Seq<char>,
)
    requires
        label == "Tags:"@ || label == "tags:"@,
        forall|i: int| 0 <= i < before.len() ==> is_white_space(#[trigger] before[i]),
        forall|i: int| 0 <= i < between.len() ==> is_white_space(#[trigger] between[i]),
        forall|i: int| 0 <= i < after.len() ==> is_white_space(#[trigger] after[i]),
        tags.len() > 0 ==> !is_white_space(tags.first()) && !is_white_space(tags.last()),
    ensures
        after_label(before + label + between + tags + after) == Some(tags),
{
    reveal_strlit("Tags:");
    reveal_strlit("tags:");
    let line = before + label + between + tags + after;
    let none = Seq::<char>::empty();
    assert(label.len() == 5 && label[4] == ':');
    assert(!is_white_space(label.first()) && !is_white_space(label.last()));
    let middle = if tags.len() == 0 {
        label
    } else {
        label + between + tags
    };
    let end = if tags.len() == 0 {
        between + after
    } else {
        after
    };
    assert(line == before + middle + end);
    assert(middle.first() == label.first());
    assert(tags.len() > 0 ==> middle.last() == tags.last());
    assert forall|i: int| 0 <= i < end.len() implies is_white_space(#[trigger] end[i]) by {
        if tags.len() == 0 {
            assert(end[i] == if i < between.len() {
                between[i]
            } else {
                after[i - between.len()]
            });
        }
    }
    law_trim_of(before, middle, end);
    assert(middle.take(5) == label);
    assert(label.is_prefix_of(middle));
    if label == "tags:"@ {
        assert(label[0] != "Tags:"@[0]);
        assert(!"Tags:"@.is_prefix_of(middle)) by {
            assert(middle[0] == 't');
        }
    }
    if tags.len() == 0 {
        assert(middle.skip(5) == none + none + none);
        law_trim_of(none, none, none);
        assert(tags == none);
    } else {
        assert(middle.skip(5) == between + tags + none);
        law_trim_of(between, tags, none);
    }
}

proof fn lemma_parts_without(parts: Seq<Seq<char>>, c: char)
    requires
        parts.len() == 5,
        forall|i: int| 0 <= i < parts.len() ==> !(#[trigger] parts[i]).contains(c),
    ensures
        !(parts[0] + parts[1] + parts[2] + parts[3] + parts[4]).contains(c),
{
    let all = parts[0] + parts[1] + parts[2] + parts[3] + parts[4];
    if all.contains(c) {
        let at = all.index_of(c);
        let a = parts[0].len() as int;
        let b = a + parts[1].len();
        let d = b + parts[2].len();
        let e = d + parts[3].len();
        if at < a {
            assert(parts[0][at] == c);
        } else if at < b {
            assert(parts[1][at - a] == c);
        } else if at < d {
            assert(parts[2][at - b] == c);
        } else if at < e {
            assert(parts[3][at - d] == c);
        } else {
            assert(parts[4][at - e] == c);
        }
    }
}

/// A line of the label `Tags:` or `tags:` and some text without a line feed, with white
/// space before, between and behind them or not, has that text as its tags text,
/// whatever it is and however long it is. With no text, it has none.
pub proof fn law_line_with_label(
    before: Seq<char>,
    label: Seq<char>,
    between: Seq<char>,
    tags: Seq<char>,
    after: Seq<char>,
)
    requires
        label == "Tags:"@ || label == "tags:"@,
        forall|i: int| 0 <= i < before.len() ==> is_white_space(#[trigger] before[i]),
        forall|i: int| 0 <= i < between.len() ==> is_white_space(#[trigger] between[i]),
        forall|i: int| 0 <= i < after.len() ==> is_white_space(#[trigger] after[i]),
        tags.len() > 0 ==> !is_white_space(tags.first()) && !is_white_space(tags.last()),
        !before.contains('\n'),
        !between.contains('\n'),
        !tags.contains('\n'),
        !after.contains('\n'),
    ensures
        tags.len() > 0 ==> description_tags(before + label + between + tags + after) == Some(tags),
        tags.len() == 0 ==> description_tags(before + label + between + tags + after) is None,
{
    let line = before + label + between + tags + after;
    lemma_label_of_line(before, label, between, tags, after);
    assert(label.len() > 0 && !label.contains('\n')) by {
        reveal_strlit("Tags:");
        reveal_strlit("tags:");
    }
    let parts = seq![before, label, between, tags, after];
    lemma_parts_without(parts, '\n');
    assert(line == parts[0] + parts[1] + parts[2] + parts[3] + parts[4]);
    lemma_one_line(line);
}

/// A line has tags only where it is the label `Tags:` or `tags:` and the tags text, with
/// nothing but white space before, between and behind them.
pub proof fn law_line_has_label(line: Seq<char>) -> (parts: (
    Seq<char>,
    Seq<char>,
    Seq<char>,
    Seq<char>,
))
    requires
        !line.contains('\n'),
        description_tags(line) is Some,
    ensures
        ({
            let (before, label, between, after) = parts;
            let tags = description_tags(line)->0;
            &&& line == before + label + between + tags + after
            &&& label == "Tags:"@ || label == "tags:"@
            &&& tags.len() > 0
            &&& !is_white_space(tags.first()) && !is_white_space(tags.last())
            &&& forall|i: int| 0 <= i < before.len() ==> is_white_space(#[trigger] before[i])
            &&& forall|i: int| 0 <= i < between.len() ==> is_white_space(#[trigger] between[i])
            &&& forall|i: int| 0 <= i < after.len() ==> is_white_space(#[trigger] after[i])
        }),
{
    let tags = description_tags(line)->0;
    if line.len() == 0 {
        assert(lines(line) == Seq::<Seq<char>>::empty());
    }
    lemma_one_line(line);
    reveal_strlit("Tags:");
    reveal_strlit("tags:");
    let trimmed = trim(line);
    let from = law_trim(line);
    let rest = trimmed.skip(5);
    assert(tags == trim(rest));
    let start = law_trim(rest);
    let before = line.take(from);
    let label = trimmed.take(5);
    let between = rest.take(start);
    let after = line.skip(from + 5 + start + tags.len());
    assert(label == "Tags:"@ || label == "tags:"@);
    assert forall|i: int| 0 <= i < after.len() implies is_white_space(#[trigger] after[i]) by {
        let at = from + 5 + start + tags.len() + i;
        assert(after[i] == line[at]);
        if at < from + trimmed.len() {
            assert(line[at] == rest[at - from - 5]);
        }
    }
    assert(line == before + label + between + tags + after);
    (before, label, between, after)
}

proof fn lemma_kept_push(pieces: Seq<Seq<char>>, piece: Seq<char>)
    ensures
        kept(pieces.push(piece)) == (if trim(piece).len() > 0 {
            kept(pieces).push(trim(piece))
        } else {
            kept(pieces)
        }),
{
    let trimmed = |p: Seq<char>| trim(p);
    let all = pieces.push(piece).map_values(trimmed);
    assert(all == pieces.map_values(trimmed).push(trim(piece)));
    assert(all.drop_last() == pieces.map_values(trimmed));
    reveal(Seq::filter);
}

proof fn lemma_kept_places(pieces: Seq<Seq<char>>) -> (places: Seq<int>)
    ensures
        places.len() == kept(pieces).len(),
        forall|k: int|
            0 <= k < places.len() ==> 0 <= #[trigger] places[k] < pieces.len() && kept(pieces)[k]
                == trim(pieces[places[k]]),
        forall|k: int, l: int| 0 <= k < l < places.len() ==> #[trigger] places[k] < #[trigger] places[l],
        forall|i: int|
            0 <= i < pieces.len() ==> (trim(#[trigger] pieces[i]).len() > 0 <==> places.contains(i)),
    decreases pieces.len(),
{
    if pieces.len() == 0 {
        reveal(Seq::filter);
        Seq::empty()
    } else {
        let n = pieces.len() - 1;
        let front = pieces.drop_last();
        let shorter = lemma_kept_places(front);
        assert(front.push(pieces.last()) == pieces);
        lemma_kept_push(front, pieces.last());
        let places = if trim(pieces.last()).len() > 0 {
            shorter.push(n)
        } else {
            shorter
        };
        assert forall|i: int| 0 <= i < pieces.len() implies (trim(#[trigger] pieces[i]).len() > 0
            <==> places.contains(i)) by {
            if i < n {
                assert(front[i] == pieces[i]);
                if shorter.contains(i) {
                    let k = shorter.index_of(i);
                    assert(places[k] == i);
                }
                if places.contains(i) {
                    let k = places.index_of(i);
                    assert(shorter[k] == i);
                }
            } else if trim(pieces[i]).len() > 0 {
                assert(places[places.len() - 1] == i);
            } else if places.contains(i) {
                let k = places.index_of(i);
                assert(shorter[k] == n);
            }
        }
        places
    }
}

/// The tags of a tags text are its pieces between the commas that are not blank, each
/// trimmed, every one of them, in their order and as often as they stand there.
/// `places` says where each of them stands.
pub proof fn law_tags_are_the_filled_pieces(tags_line: Seq<char>) -> (places: Seq<int>)
    ensures
        places.len() == tags_of(tags_line).len(),
        forall|k: int|
            0 <= k < places.len() ==> 0 <= #[trigger] places[k] < split(tags_line, ',').len()
                && tags_of(tags_line)[k] == trim(split(tags_line, ',')[places[k]]),
        forall|k: int, l: int| 0 <= k < l < places.len() ==> #[trigger] places[k] < #[trigger] places[l],
        forall|i: int|
            0 <= i < split(tags_line, ',').len() ==> (trim(
                #[trigger] split(tags_line, ',')[i],
            ).len() > 0 <==> places.contains(i)),
{
    assert(tags_of(tags_line) == kept(split(tags_line, ',')));
    lemma_kept_places(split(tags_line, ','))
}

/// A text without a comma is one tag, trimmed, or none where it is blank. Two tags texts
/// with a comma between them have the tags of the one and then those of the other.
pub proof fn law_tags_of_two_lists(a: Seq<char>, b: Seq<char>)
    ensures
        !a.contains(',') ==> tags_of(a) == (if trim(a).len() > 0 {
            seq![trim(a)]
        } else {
            Seq::empty()
        }),
        tags_of(a + seq![','] + b) == tags_of(a) + tags_of(b),
{
    law_split_of(a, b, ',');
    let none = Seq::<Seq<char>>::empty();
    let trimmed = |p: Seq<char>| trim(p);
    let filled = |t: Seq<char>| t.len() > 0;
    let one = split(a, ',');
    let other = split(b, ',');
    assert((one + other).map_values(trimmed) == one.map_values(trimmed) + other.map_values(
        trimmed,
    ));
    Seq::filter_distributes_over_add(one.map_values(trimmed), other.map_values(trimmed), filled);
    if !a.contains(',') {
        lemma_kept_first(a, none);
        reveal(Seq::filter);
        assert(kept(none) == none);
        assert(seq![a] + none == seq![a]);
    }
}

} // verus!
