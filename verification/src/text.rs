//! Text as sequences of characters: trimming, lines, separators.

use vstd::prelude::*;

verus! {

/// `String::push`: the character is put at the end of the text.
pub assume_specification[ String::push ](s: &mut String, c: char)
    ensures
        final(s)@ == old(s)@.push(c),
;

/// The characters with the Unicode property `White_Space`.
pub open spec fn is_white_space(c: char) -> bool {
    ||| '\u{9}' <= c && c <= '\u{d}'
    ||| c == ' '
    ||| c == '\u{85}'
    ||| c == '\u{a0}'
    ||| c == '\u{1680}'
    ||| '\u{2000}' <= c && c <= '\u{200a}'
    ||| c == '\u{2028}'
    ||| c == '\u{2029}'
    ||| c == '\u{202f}'
    ||| c == '\u{205f}'
    ||| c == '\u{3000}'
}

/// `s` without the white space at its start.
pub open spec fn trim_start(s: Seq<char>) -> Seq<char>
    decreases s.len(),
{
    if s.len() > 0 && is_white_space(s.first()) {
        trim_start(s.drop_first())
    } else {
        s
    }
}

/// `s` without the white space at its end.
pub open spec fn trim_end(s: Seq<char>) -> Seq<char>
    decreases s.len(),
{
    if s.len() > 0 && is_white_space(s.last()) {
        trim_end(s.drop_last())
    } else {
        s
    }
}

/// `s` without the white space at either end.
pub open spec fn trim(s: Seq<char>) -> Seq<char> {
    trim_end(trim_start(s))
}

/// `s` without the characters `c` at its end.
pub open spec fn trim_end_char(s: Seq<char>, c: char) -> Seq<char>
    decreases s.len(),
{
    if s.len() > 0 && s.last() == c {
        trim_end_char(s.drop_last(), c)
    } else {
        s
    }
}

/// The place of the first `c` in `s`, or the length of `s` where there is none.
pub open spec fn find(s: Seq<char>, c: char) -> nat
    decreases s.len(),
{
    if s.len() == 0 || s.first() == c {
        0
    } else {
        1 + find(s.drop_first(), c)
    }
}

/// `s` without one carriage return at its end.
pub open spec fn strip_carriage_return(s: Seq<char>) -> Seq<char> {
    if s.len() > 0 && s.last() == '\r' {
        s.drop_last()
    } else {
        s
    }
}

/// The lines of `s`: each ends in `\n` or `\r\n`, which is not part of it; the
/// last one may end with the text instead.
pub open spec fn lines(s: Seq<char>) -> Seq<Seq<char>>
    decreases s.len(),
{
    let end = find(s, '\n');
    if s.len() == 0 {
        Seq::empty()
    } else if end >= s.len() {
        seq![s]
    } else {
        seq![strip_carriage_return(s.take(end as int))] + lines(s.skip(end as int + 1))
    }
}

/// The pieces of `s` between the separators `c`: one more than it holds of them.
pub open spec fn split(s: Seq<char>, c: char) -> Seq<Seq<char>>
    decreases s.len(),
{
    let end = find(s, c);
    if end >= s.len() {
        seq![s]
    } else {
        seq![s.take(end as int)] + split(s.skip(end as int + 1), c)
    }
}

/// The parts one after the other, with `separator` between each two.
pub open spec fn join(parts: Seq<Seq<char>>, separator: Seq<char>) -> Seq<char>
    decreases parts.len(),
{
    if parts.len() == 0 {
        Seq::empty()
    } else if parts.len() == 1 {
        parts[0]
    } else {
        join(parts.drop_last(), separator) + separator + parts.last()
    }
}

/// The digits of `n` to base ten, the highest first.
pub open spec fn decimal(n: nat) -> Seq<char>
    decreases n,
{
    if n < 10 {
        seq![decimal_digit(n)]
    } else {
        decimal(n / 10).push(decimal_digit(n % 10))
    }
}

/// The digit for a number below ten.
pub open spec fn decimal_digit(n: nat) -> char {
    ('0' as u32 + n) as char
}

/// The texts of a list of strings.
pub open spec fn texts(list: Seq<String>) -> Seq<Seq<char>> {
    list.map_values(|s: String| s@)
}

/// The text of an optional string.
pub open spec fn optional_text(s: Option<String>) -> Option<Seq<char>> {
    match s {
        Some(s) => Some(s@),
        None => None,
    }
}

/// Whether `c` has the Unicode property `White_Space`.
pub fn white_space(c: char) -> (r: bool)
    ensures
        r == is_white_space(c),
{
    ('\u{9}' <= c && c <= '\u{d}') || c == ' ' || c == '\u{85}' || c == '\u{a0}' || c == '\u{1680}'
        || ('\u{2000}' <= c && c <= '\u{200a}') || c == '\u{2028}' || c == '\u{2029}' || c
        == '\u{202f}' || c == '\u{205f}' || c == '\u{3000}'
}

/// The characters of `s`.
pub fn chars_of(s: &str) -> (v: Vec<char>)
    ensures
        v@ == s@,
{
    let mut v: Vec<char> = Vec::new();
    for c in it: s.chars()
        invariant
            v@ == it.seq().take(it.index() as int),
            it.seq() == s@,
    {
        v.push(c);
    }
    v
}

/// The string of the characters from `from` up to `to`.
pub fn string_of(v: &Vec<char>, from: usize, to: usize) -> (s: String)
    requires
        from <= to <= v@.len(),
    ensures
        s@ == v@.subrange(from as int, to as int),
{
    let mut s = String::new();
    for i in from..to
        invariant
            from <= i <= to <= v@.len(),
            s@ == v@.subrange(from as int, i as int),
    {
        s.push(v[i]);
        assert(v@.subrange(from as int, i + 1) == v@.subrange(from as int, i as int).push(
            v@[i as int],
        ));
    }
    s
}

/// The part of `v` between `from` and `to` that is left when the white space at
/// its ends is taken off.
pub fn trim_bounds(v: &Vec<char>, from: usize, to: usize) -> (r: (usize, usize))
    requires
        from <= to <= v@.len(),
    ensures
        from <= r.0 <= r.1 <= to,
        v@.subrange(r.0 as int, r.1 as int) == trim(v@.subrange(from as int, to as int)),
{
    let mut low: usize = from;
    while low < to && white_space(v[low])
        invariant
            from <= low <= to <= v@.len(),
            trim_start(v@.subrange(from as int, to as int)) == trim_start(
                v@.subrange(low as int, to as int),
            ),
        ensures
            low < to ==> !is_white_space(v@[low as int]),
        decreases to - low,
    {
        assert(v@.subrange(low as int, to as int).drop_first() == v@.subrange(low + 1, to as int));
        low += 1;
    }
    let mut high: usize = to;
    while low < high && white_space(v[high - 1])
        invariant
            low <= high <= to <= v@.len(),
            trim_end(v@.subrange(low as int, to as int)) == trim_end(
                v@.subrange(low as int, high as int),
            ),
        ensures
            low < high ==> !is_white_space(v@[high - 1]),
        decreases high,
    {
        assert(v@.subrange(low as int, high as int).drop_last() == v@.subrange(
            low as int,
            high - 1,
        ));
        high -= 1;
    }
    (low, high)
}

/// The place of the first `c` in `v` from `from` on, or `to` where there is none
/// before it.
pub fn find_from(v: &Vec<char>, from: usize, to: usize, c: char) -> (r: usize)
    requires
        from <= to <= v@.len(),
    ensures
        from <= r <= to,
        r - from == find(v@.subrange(from as int, to as int), c),
{
    let mut i: usize = from;
    while i < to && v[i] != c
        invariant
            from <= i <= to <= v@.len(),
            find(v@.subrange(from as int, to as int), c) == (i - from) + find(
                v@.subrange(i as int, to as int),
                c,
            ),
        ensures
            i < to ==> v@[i as int] == c,
        decreases to - i,
    {
        assert(v@.subrange(i as int, to as int).drop_first() == v@.subrange(i + 1, to as int));
        i += 1;
    }
    i
}

/// Whether `v` holds `prefix` from `from` on, before `to`.
pub fn has_prefix(v: &Vec<char>, from: usize, to: usize, prefix: &str) -> (r: bool)
    requires
        from <= to <= v@.len(),
    ensures
        r == prefix@.is_prefix_of(v@.subrange(from as int, to as int)),
{
    let p = chars_of(prefix);
    if p.len() > to - from {
        return false;
    }
    let mut i: usize = 0;
    while i < p.len()
        invariant
            p@ == prefix@,
            from <= to <= v@.len(),
            0 <= i <= p@.len() <= to - from,
            forall|k: int| 0 <= k < i ==> #[trigger] p@[k] == v@[from + k],
        decreases p@.len() - i,
    {
        if v[from + i] != p[i] {
            assert(v@.subrange(from as int, to as int)[i as int] != prefix@[i as int]);
            return false;
        }
        i += 1;
    }
    assert(prefix@ == v@.subrange(from as int, to as int).subrange(0, prefix@.len() as int));
    true
}

/// The parts one after the other, with `separator` between each two.
pub fn join_strings(parts: &Vec<String>, separator: &str) -> (s: String)
    ensures
        s@ == join(texts(parts@), separator@),
{
    let mut s = String::new();
    for i in 0..parts.len()
        invariant
            s@ == join(texts(parts@).take(i as int), separator@),
    {
        if i > 0 {
            s.append(separator);
        }
        s.append(parts[i].as_str());
        let ghost taken = texts(parts@).take(i + 1);
        assert(taken.drop_last() == texts(parts@).take(i as int));
        assert(i == 0 ==> s@ == taken[0]);
    }
    assert(texts(parts@).take(parts@.len() as int) == texts(parts@));
    s
}

/// The digits of `n` to base ten.
pub fn decimal_text(n: u64) -> (s: String)
    ensures
        s@ == decimal(n as nat),
    decreases n,
{
    let digit: char = (48 + (n % 10) as u8) as char;
    let mut s = if n < 10 {
        String::new()
    } else {
        decimal_text(n / 10)
    };
    s.push(digit);
    assert(n < 10 ==> s@ == seq![decimal_digit(n as nat)]);
    s
}

/// Where the first `c` is: within the text, and none stands before it.
pub proof fn lemma_find(s: Seq<char>, c: char)
    ensures
        find(s, c) <= s.len(),
        find(s, c) < s.len() ==> s[find(s, c) as int] == c,
        forall|i: int| 0 <= i < find(s, c) ==> #[trigger] s[i] != c,
    decreases s.len(),
{
    if s.len() > 0 && s.first() != c {
        let rest = s.drop_first();
        lemma_find(rest, c);
        assert forall|i: int| 0 <= i < find(s, c) implies #[trigger] s[i] != c by {
            if i > 0 {
                assert(rest[i - 1] == s[i]);
            }
        }
    }
}

proof fn lemma_trim_start(s: Seq<char>)
    ensures
        trim_start(s).len() <= s.len(),
        trim_start(s) == s.skip(s.len() - trim_start(s).len()),
        trim_start(s).len() > 0 ==> !is_white_space(trim_start(s).first()),
        forall|i: int|
            0 <= i < s.len() - trim_start(s).len() ==> is_white_space(#[trigger] s[i]),
    decreases s.len(),
{
    if s.len() > 0 && is_white_space(s.first()) {
        let rest = s.drop_first();
        lemma_trim_start(rest);
        assert(trim_start(s) == s.skip(s.len() - trim_start(s).len()));
        assert forall|i: int| 0 <= i < s.len() - trim_start(s).len() implies is_white_space(
            #[trigger] s[i],
        ) by {
            if i > 0 {
                assert(rest[i - 1] == s[i]);
            }
        }
    }
}

proof fn lemma_trim_end(s: Seq<char>)
    ensures
        trim_end(s).len() <= s.len(),
        trim_end(s) == s.take(trim_end(s).len() as int),
        trim_end(s).len() > 0 ==> !is_white_space(trim_end(s).last()),
        forall|i: int| trim_end(s).len() <= i < s.len() ==> is_white_space(#[trigger] s[i]),
    decreases s.len(),
{
    if s.len() > 0 && is_white_space(s.last()) {
        let front = s.drop_last();
        lemma_trim_end(front);
        assert(trim_end(s) == s.take(trim_end(s).len() as int));
        assert forall|i: int| trim_end(s).len() <= i < s.len() implies is_white_space(
            #[trigger] s[i],
        ) by {
            if i < s.len() - 1 {
                assert(front[i] == s[i]);
            }
        }
    }
}

/// A trimmed text is a stretch of the text, with nothing but white space outside
/// it and none at its own ends.
pub proof fn law_trim(s: Seq<char>) -> (from: int)
    ensures
        0 <= from <= from + trim(s).len() <= s.len(),
        trim(s) == s.subrange(from, from + trim(s).len()),
        forall|i: int|
            0 <= i < from || from + trim(s).len() <= i < s.len() ==> is_white_space(
                #[trigger] s[i],
            ),
        trim(s).len() > 0 ==> !is_white_space(trim(s).first()) && !is_white_space(trim(s).last()),
{
    let rest = trim_start(s);
    lemma_trim_start(s);
    lemma_trim_end(rest);
    let from = s.len() - rest.len();
    assert forall|i: int| from + trim(s).len() <= i < s.len() implies is_white_space(
        #[trigger] s[i],
    ) by {
        assert(rest[i - from] == s[i]);
    }
    from
}

/// A trimmed text has nothing left to trim.
pub proof fn law_trim_twice(s: Seq<char>)
    ensures
        trim(trim(s)) == trim(s),
{
    let from = law_trim(s);
}

/// No piece holds the separator, every character of a piece is one of the text, and
/// the pieces with the separator between each two are the text.
pub proof fn law_split(s: Seq<char>, c: char)
    ensures
        split(s, c).len() > 0,
        forall|i: int| 0 <= i < split(s, c).len() ==> !(#[trigger] split(s, c)[i]).contains(c),
        forall|i: int, d: char|
            0 <= i < split(s, c).len() && #[trigger] split(s, c)[i].contains(d) ==> s.contains(d),
        join(split(s, c), seq![c]) == s,
    decreases s.len(),
{
    lemma_find(s, c);
    let end = find(s, c) as int;
    if end < s.len() {
        let rest = s.skip(end + 1);
        let first = s.take(end);
        law_split(rest, c);
        lemma_join_first(seq![first] + split(rest, c), seq![c]);
        assert((seq![first] + split(rest, c)).drop_first() == split(rest, c));
        assert(first + seq![c] + rest == s);
        assert forall|i: int, d: char|
            0 <= i < split(s, c).len() && #[trigger] split(s, c)[i].contains(d) implies s.contains(
            d,
        ) by {
            if i == 0 {
                let k = first.index_of(d);
                assert(s[k] == d);
            } else {
                assert(split(s, c)[i] == split(rest, c)[i - 1]);
                let k = rest.index_of(d);
                assert(s[end + 1 + k] == d);
            }
        }
    }
}

/// Parts without the separator are what their join splits into.
pub proof fn law_split_of_join(parts: Seq<Seq<char>>, c: char)
    requires
        parts.len() > 0,
        forall|i: int| 0 <= i < parts.len() ==> !(#[trigger] parts[i]).contains(c),
    ensures
        split(join(parts, seq![c]), c) == parts,
    decreases parts.len(),
{
    let s = join(parts, seq![c]);
    let first = parts[0];
    lemma_find(s, c);
    let end = find(s, c) as int;
    if parts.len() == 1 {
        if end < s.len() {
            assert(first.contains(s[end]));
        }
        assert(split(s, c) == parts);
    } else {
        let others = parts.drop_first();
        let rest = join(others, seq![c]);
        lemma_join_first(parts, seq![c]);
        assert(s == first + seq![c] + rest);
        assert(s[first.len() as int] == c);
        if end < first.len() {
            assert(first[end] == c);
        }
        assert(end == first.len());
        assert(s.take(end) == first);
        assert(s.skip(end + 1) == rest);
        law_split_of_join(others, c);
        assert(parts == seq![first] + others);
    }
}

/// A character other than the separator is in one of the pieces.
pub proof fn lemma_split_holds(s: Seq<char>, c: char, d: char)
    requires
        s.contains(d),
        d != c,
    ensures
        exists|i: int| 0 <= i < split(s, c).len() && (#[trigger] split(s, c)[i]).contains(d),
    decreases s.len(),
{
    let at = s.index_of(d);
    lemma_find(s, c);
    let end = find(s, c) as int;
    if end >= s.len() {
        assert(split(s, c)[0].contains(d));
    } else if at < end {
        assert(s.take(end)[at] == d);
        assert(split(s, c)[0].contains(d));
    } else {
        let rest = s.skip(end + 1);
        assert(rest[at - end - 1] == d);
        lemma_split_holds(rest, c, d);
        let i = choose|i: int|
            0 <= i < split(rest, c).len() && (#[trigger] split(rest, c)[i]).contains(d);
        assert(split(s, c)[i + 1].contains(d));
    }
}

/// The first part, the separator and the join of the others.
pub proof fn lemma_join_first(parts: Seq<Seq<char>>, separator: Seq<char>)
    requires
        parts.len() >= 2,
    ensures
        join(parts, separator) == parts[0] + separator + join(parts.drop_first(), separator),
    decreases parts.len(),
{
    let front = parts.drop_last();
    let others = parts.drop_first();
    if parts.len() == 2 {
        assert(front.len() == 1 && others.len() == 1);
        assert(join(front, separator) == parts[0]);
        assert(join(others, separator) == parts[1]);
    } else {
        lemma_join_first(front, separator);
        assert(front.drop_first() == others.drop_last());
        assert(others.last() == parts.last());
        assert(front[0] == parts[0]);
        assert(join(others, separator) == join(others.drop_last(), separator) + separator
            + others.last());
        assert(join(parts, separator) == (parts[0] + separator + join(others.drop_last(), separator))
            + separator + parts.last());
    }
}

/// No line holds a line feed.
pub proof fn law_lines(s: Seq<char>)
    ensures
        forall|i: int| 0 <= i < lines(s).len() ==> !(#[trigger] lines(s)[i]).contains('\n'),
    decreases s.len(),
{
    lemma_find(s, '\n');
    let end = find(s, '\n') as int;
    if s.len() > 0 && end < s.len() {
        let others = lines(s.skip(end + 1));
        let first = strip_carriage_return(s.take(end));
        law_lines(s.skip(end + 1));
        assert forall|i: int| 0 <= i < lines(s).len() implies !(#[trigger] lines(s)[i]).contains(
            '\n',
        ) by {
            if i == 0 {
                if first.contains('\n') {
                    let k = first.index_of('\n');
                    assert(first[k] == '\n');
                    assert(s[k] == '\n');
                }
            } else {
                assert(lines(s)[i] == others[i - 1]);
            }
        }
    }
}

/// A line of `s` is a stretch of it, which starts at the place that is returned.
pub proof fn law_line_is_a_stretch(s: Seq<char>, i: int) -> (from: int)
    requires
        0 <= i < lines(s).len(),
    ensures
        0 <= from <= from + lines(s)[i].len() <= s.len(),
        lines(s)[i] == s.subrange(from, from + lines(s)[i].len()),
    decreases s.len(),
{
    lemma_find(s, '\n');
    let end = find(s, '\n') as int;
    if end >= s.len() || i == 0 {
        0
    } else {
        let rest = s.skip(end + 1);
        assert(lines(s)[i] == lines(rest)[i - 1]);
        let from = law_line_is_a_stretch(rest, i - 1);
        assert(rest.subrange(from, from + lines(s)[i].len()) == s.subrange(
            end + 1 + from,
            end + 1 + from + lines(s)[i].len(),
        ));
        end + 1 + from
    }
}

/// No parts join to nothing, one part to itself, and a part more is put behind one
/// more separator.
pub proof fn law_join(parts: Seq<Seq<char>>, part: Seq<char>, separator: Seq<char>)
    ensures
        join(Seq::empty(), separator) == Seq::<char>::empty(),
        join(seq![part], separator) == part,
        parts.len() > 0 ==> join(parts.push(part), separator) == join(parts, separator) + separator
            + part,
{
    assert(parts.push(part).drop_last() == parts);
}

/// A list of strings has as many texts, each that of the string in its place.
pub proof fn law_texts(list: Seq<String>)
    ensures
        texts(list).len() == list.len(),
        forall|i: int| 0 <= i < list.len() ==> #[trigger] texts(list)[i] == list[i]@,
{
}

/// An optional string has a text exactly when it is there.
pub proof fn law_optional_text(s: String)
    ensures
        optional_text(Some(s)) == Some(s@),
        optional_text(None) is None,
{
}

/// The number that a sequence of digits stands for.
pub open spec fn decimal_value(digits: Seq<char>) -> nat
    decreases digits.len(),
{
    if digits.len() == 0 {
        0
    } else {
        (10 * decimal_value(digits.drop_last()) + (digits.last() as nat - '0' as nat)) as nat
    }
}

/// A number is written in digits that stand for it, with no zero before them.
pub proof fn law_decimal(n: nat)
    ensures
        decimal_value(decimal(n)) == n,
        forall|i: int|
            0 <= i < decimal(n).len() ==> '0' <= #[trigger] decimal(n)[i] && decimal(n)[i] <= '9',
        decimal(n).len() > 0,
        n > 0 ==> decimal(n)[0] != '0',
        n == 0 ==> decimal(n).len() == 1,
    decreases n,
{
    if n < 10 {
        reveal_with_fuel(decimal_value, 2);
        assert(decimal(n).drop_last() == Seq::<char>::empty());
    } else {
        law_decimal(n / 10);
        assert(decimal(n).drop_last() == decimal(n / 10));
        assert(decimal(n)[0] == decimal(n / 10)[0]);
    }
}

/// White space round a text that has none at its ends is what is trimmed off, and
/// white space alone leaves nothing.
pub proof fn law_trim_of(before: Seq<char>, s: Seq<char>, after: Seq<char>)
    requires
        forall|i: int| 0 <= i < before.len() ==> is_white_space(#[trigger] before[i]),
        forall|i: int| 0 <= i < after.len() ==> is_white_space(#[trigger] after[i]),
        s.len() > 0 ==> !is_white_space(s.first()) && !is_white_space(s.last()),
    ensures
        trim(before + s + after) == s,
{
    let all = before + s + after;
    let from = law_trim(all);
    let to = from + trim(all).len();
    if s.len() == 0 {
        if trim(all).len() > 0 {
            assert(all[from] == trim(all).first());
            assert(from < before.len() ==> all[from] == before[from]);
            assert(from >= before.len() ==> all[from] == after[from - before.len()]);
        }
    } else {
        let low = before.len() as int;
        let high = low + s.len() - 1;
        assert(all[low] == s.first());
        assert(all[high] == s.last());
        assert(from <= low && high < to);
        assert(all[from] == trim(all).first());
        assert(all[to - 1] == trim(all).last());
        assert(from < low ==> all[from] == before[from]);
        assert(to - 1 > high ==> all[to - 1] == after[to - 1 - high - 1]);
        assert(trim(all) == s);
    }
}

/// A text without a line feed is one line, where it is not empty. Before a line feed,
/// or a carriage return and a line feed, it is the first line, and the lines of what
/// follows are the others.
pub proof fn law_lines_of(line: Seq<char>, rest: Seq<char>)
    requires
        !line.contains('\n'),
    ensures
        lines(Seq::empty()) == Seq::<Seq<char>>::empty(),
        line.len() > 0 ==> lines(line) == seq![line],
        line.len() == 0 || line.last() != '\r' ==> lines(line + seq!['\n'] + rest) == seq![line]
            + lines(rest),
        lines(line + seq!['\r', '\n'] + rest) == seq![line] + lines(rest),
{
    lemma_find(line, '\n');
    if find(line, '\n') < line.len() {
        assert(line.contains(line[find(line, '\n') as int]));
    }
    lemma_line_before(line, rest);
    let returned = line.push('\r');
    if returned.contains('\n') {
        let i = returned.index_of('\n');
        assert(returned[i] == '\n');
        assert(line[i] == '\n');
        assert(line.contains('\n'));
    }
    lemma_line_before(returned, rest);
    assert(returned + seq!['\n'] + rest == line + seq!['\r', '\n'] + rest);
    assert(returned.drop_last() == line);
}

proof fn lemma_line_before(line: Seq<char>, rest: Seq<char>)
    requires
        !line.contains('\n'),
    ensures
        lines(line + seq!['\n'] + rest) == seq![strip_carriage_return(line)] + lines(rest),
{
    let s = line + seq!['\n'] + rest;
    let n = line.len() as int;
    lemma_find(s, '\n');
    let end = find(s, '\n') as int;
    assert(s[n] == '\n');
    if end < n {
        assert(line[end] == '\n');
        assert(line.contains('\n'));
    }
    assert(end == n);
    assert(s.take(n) == line);
    assert(s.skip(n + 1) == rest);
}

/// A text without the separator is one piece; two texts with it between them have
/// the pieces of the one and then those of the other.
pub proof fn law_split_of(a: Seq<char>, b: Seq<char>, c: char)
    ensures
        !a.contains(c) ==> split(a, c) == seq![a],
        split(a + seq![c] + b, c) == split(a, c) + split(b, c),
    decreases a.len(),
{
    let s = a + seq![c] + b;
    let n = a.len() as int;
    lemma_find(a, c);
    lemma_find(s, c);
    let end = find(a, c) as int;
    let first = find(s, c) as int;
    assert(s[n] == c);
    if end < n {
        assert(a.contains(a[end]));
        assert(s[end] == c);
        if first < end {
            assert(a[first] == c);
        }
        assert(first == end);
        let rest = a.skip(end + 1);
        law_split_of(rest, b, c);
        assert(s.skip(end + 1) == rest + seq![c] + b);
        assert(s.take(end) == a.take(end));
    } else {
        if first < n {
            assert(a[first] == c);
        }
        assert(s.take(n) == a);
        assert(s.skip(n + 1) == b);
    }
}

} // verus!
