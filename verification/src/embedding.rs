//! Embeddings in the notation of a pgvector literal.

use crate::text::{
    chars_of, find, find_from, join, join_strings, law_join, law_split_of_join, lemma_find,
    lemma_split_holds, split, texts,
};
use vstd::prelude::*;

verus! {

/// A decimal digit.
pub open spec fn is_digit(c: char) -> bool {
    '0' <= c && c <= '9'
}

/// Some digits, and nothing else.
pub open spec fn is_digits(s: Seq<char>) -> bool {
    &&& s.len() > 0
    &&& forall|i: int| 0 <= i < s.len() ==> is_digit(#[trigger] s[i])
}

/// Digits with at most one point among them or at an end, and at least one digit.
pub open spec fn is_mantissa(s: Seq<char>) -> bool {
    &&& forall|i: int| 0 <= i < s.len() ==> is_digit(#[trigger] s[i]) || s[i] == '.'
    &&& exists|i: int| 0 <= i < s.len() && is_digit(#[trigger] s[i])
    &&& forall|i: int, j: int|
        0 <= i < j < s.len() ==> #[trigger] s[i] != '.' || #[trigger] s[j] != '.'
}

/// `s` without a sign at its start.
pub open spec fn unsigned(s: Seq<char>) -> Seq<char> {
    if s.len() > 0 && (s[0] == '+' || s[0] == '-') {
        s.skip(1)
    } else {
        s
    }
}

/// The place of the first `e` or `E`, or the length where there is none.
pub open spec fn exponent_mark(s: Seq<char>) -> nat {
    if find(s, 'e') <= find(s, 'E') {
        find(s, 'e')
    } else {
        find(s, 'E')
    }
}

/// A number in writing: a sign, where it has one, then the digits, and behind a
/// mark `e` or `E`, where it has one, the exponent with or without a sign.
pub open spec fn is_numeral(s: Seq<char>) -> bool {
    let body = unsigned(s);
    let mark = exponent_mark(body);
    if mark < body.len() {
        is_mantissa(body.take(mark as int)) && is_digits(unsigned(body.skip(mark as int + 1)))
    } else {
        is_mantissa(body)
    }
}

/// Brackets round one number or more, with commas between them.
pub open spec fn valid_embedding(s: Seq<char>) -> bool {
    &&& s.len() >= 2
    &&& s.first() == '['
    &&& s.last() == ']'
    &&& all_numerals(split(s.subrange(1, s.len() - 1), ','))
}

/// Every one of the texts is a number in writing.
pub open spec fn all_numerals(parts: Seq<Seq<char>>) -> bool {
    forall|i: int| 0 <= i < parts.len() ==> is_numeral(#[trigger] parts[i])
}

/// The vector of the numbers that the parts write down.
pub open spec fn vector(parts: Seq<Seq<char>>) -> Seq<char> {
    seq!['['] + join(parts, seq![',']) + seq![']']
}

fn digit(c: char) -> (r: bool)
    ensures
        r == is_digit(c),
{
    '0' <= c && c <= '9'
}

fn after_sign(v: &Vec<char>, from: usize, to: usize) -> (r: usize)
    requires
        from <= to <= v@.len(),
    ensures
        from <= r <= to,
        v@.subrange(r as int, to as int) == unsigned(v@.subrange(from as int, to as int)),
{
    if from < to && (v[from] == '+' || v[from] == '-') {
        assert(v@.subrange(from as int, to as int).skip(1) == v@.subrange(from + 1, to as int));
        from + 1
    } else {
        from
    }
}

fn digits(v: &Vec<char>, from: usize, to: usize) -> (r: bool)
    requires
        from <= to <= v@.len(),
    ensures
        r == is_digits(v@.subrange(from as int, to as int)),
{
    let ghost s = v@.subrange(from as int, to as int);
    for i in from..to
        invariant
            from <= i <= to <= v@.len(),
            s == v@.subrange(from as int, to as int),
            forall|k: int| 0 <= k < i - from ==> is_digit(#[trigger] s[k]),
    {
        if !digit(v[i]) {
            assert(!is_digit(s[i - from]));
            return false;
        }
    }
    from < to
}

fn mantissa(v: &Vec<char>, from: usize, to: usize) -> (r: bool)
    requires
        from <= to <= v@.len(),
    ensures
        r == is_mantissa(v@.subrange(from as int, to as int)),
{
    let ghost s = v@.subrange(from as int, to as int);
    let mut digit_seen = false;
    let mut point_seen = false;
    let ghost mut point: int = 0;
    for i in from..to
        invariant
            from <= i <= to <= v@.len(),
            s == v@.subrange(from as int, to as int),
            forall|k: int| 0 <= k < i - from ==> is_digit(#[trigger] s[k]) || s[k] == '.',
            digit_seen <==> exists|k: int| 0 <= k < i - from && is_digit(#[trigger] s[k]),
            point_seen ==> 0 <= point < i - from && s[point] == '.',
            forall|k: int| 0 <= k < i - from && #[trigger] s[k] == '.' ==> point_seen && k == point,
    {
        let c = v[i];
        assert(s[i - from] == c);
        if c == '.' {
            if point_seen {
                assert(s[point] == '.' && s[i - from] == '.');
                return false;
            }
            point_seen = true;
            proof {
                point = i - from;
            }
        } else if digit(c) {
            digit_seen = true;
        } else {
            return false;
        }
    }
    digit_seen
}

fn numeral(v: &Vec<char>, from: usize, to: usize) -> (r: bool)
    requires
        from <= to <= v@.len(),
    ensures
        r == is_numeral(v@.subrange(from as int, to as int)),
{
    let start = after_sign(v, from, to);
    let ghost body = v@.subrange(start as int, to as int);
    let small = find_from(v, start, to, 'e');
    let large = find_from(v, start, to, 'E');
    let mark: usize = if small <= large {
        small
    } else {
        large
    };
    if mark < to {
        assert(body.take(mark - start) == v@.subrange(start as int, mark as int));
        assert(body.skip(mark - start + 1) == v@.subrange(mark + 1, to as int));
        let exponent = after_sign(v, mark + 1, to);
        mantissa(v, start, mark) && digits(v, exponent, to)
    } else {
        mantissa(v, start, to)
    }
}

/// Validate that a string is a valid pgvector literal: brackets round one number
/// or more, with commas between them and no white space.
pub fn is_valid_embedding(embedding: &str) -> (r: bool)
    ensures
        r == valid_embedding(embedding@),
{
    let v = chars_of(embedding);
    let n: usize = v.len();
    if n < 2 || v[0] != '[' || v[n - 1] != ']' {
        return false;
    }
    let end: usize = n - 1;
    let mut start: usize = 1;
    let mut more = true;
    let ghost inner = embedding@.subrange(1, end as int);
    while more
        invariant
            v@ == embedding@,
            end + 1 == v@.len(),
            1 <= start <= end,
            inner == embedding@.subrange(1, end as int),
            more ==> (all_numerals(split(inner, ',')) <==> all_numerals(
                split(v@.subrange(start as int, end as int), ','),
            )),
            !more ==> all_numerals(split(inner, ',')),
        decreases
                if more {
                    end - start + 1
                } else {
                    0
                },
    {
        let ghost rest = v@.subrange(start as int, end as int);
        let comma = find_from(&v, start, end, ',');
        let ghost piece = v@.subrange(start as int, comma as int);
        let ghost pieces = split(rest, ',');
        proof {
            if comma < end {
                assert(rest.take(comma - start) == piece);
                assert(rest.skip(comma - start + 1) == v@.subrange(comma + 1, end as int));
                assert(pieces == seq![piece] + split(v@.subrange(comma + 1, end as int), ','));
            } else {
                assert(rest == piece);
            }
            assert(pieces[0] == piece);
        }
        if !numeral(&v, start, comma) {
            return false;
        }
        if comma < end {
            proof {
                let others = split(v@.subrange(comma + 1, end as int), ',');
                assert forall|i: int| 0 <= i < others.len() && all_numerals(pieces) implies is_numeral(
                    #[trigger] others[i],
                ) by {
                    assert(pieces[i + 1] == others[i]);
                }
            }
            start = comma + 1;
        } else {
            more = false;
        }
    }
    true
}

/// The pgvector literal of the numbers that the parts write down.
pub fn vector_literal(parts: &Vec<String>) -> (s: String)
    ensures
        s@ == vector(texts(parts@)),
{
    let mut s = String::new();
    s.push('[');
    proof {
        reveal_strlit(",");
        assert(","@ == seq![',']);
    }
    s.append(join_strings(parts, ",").as_str());
    s.push(']');
    s
}

proof fn lemma_numeral_chars(s: Seq<char>, c: char)
    requires
        is_numeral(s),
        s.contains(c),
    ensures
        is_digit(c) || c == '.' || c == '+' || c == '-' || c == 'e' || c == 'E',
{
    let body = unsigned(s);
    let mark = exponent_mark(body) as int;
    let at = s.index_of(c);
    let sign = s.len() - body.len();
    if at >= sign {
        assert(body[at - sign] == c);
        lemma_find(body, 'e');
        lemma_find(body, 'E');
        if mark < body.len() {
            let tail = body.skip(mark + 1);
            let exponent = unsigned(tail);
            let k = at - sign;
            if k < mark {
                assert(body.take(mark)[k] == c);
            } else if k > mark {
                assert(tail[k - mark - 1] == c);
                let tail_sign = tail.len() - exponent.len();
                if k - mark - 1 >= tail_sign {
                    assert(exponent[k - mark - 1 - tail_sign] == c);
                }
            }
        }
    }
}

/// Numbers in writing hold no comma.
pub proof fn lemma_numerals_without_commas(parts: Seq<Seq<char>>)
    requires
        all_numerals(parts),
    ensures
        forall|i: int| 0 <= i < parts.len() ==> !(#[trigger] parts[i]).contains(','),
{
    assert forall|i: int| 0 <= i < parts.len() implies !(#[trigger] parts[i]).contains(',') by {
        if parts[i].contains(',') {
            lemma_numeral_chars(parts[i], ',');
        }
    }
}

/// The pieces of a vector between its commas are the numbers that it was made of.
pub proof fn law_vector_parts(parts: Seq<Seq<char>>)
    requires
        parts.len() > 0,
        forall|i: int| 0 <= i < parts.len() ==> !(#[trigger] parts[i]).contains(','),
    ensures
        split(vector(parts).subrange(1, vector(parts).len() - 1), ',') == parts,
{
    let s = vector(parts);
    assert(s.subrange(1, s.len() - 1) == join(parts, seq![',']));
    law_split_of_join(parts, ',');
}

/// A vector of one number or more is a valid embedding; one whose parts hold no
/// comma is valid only then.
pub proof fn law_vector_validity(parts: Seq<Seq<char>>)
    ensures
        parts.len() > 0 && all_numerals(parts) ==> valid_embedding(vector(parts)),
        (forall|i: int| 0 <= i < parts.len() ==> !(#[trigger] parts[i]).contains(',')) ==> (
        valid_embedding(vector(parts)) <==> parts.len() > 0 && all_numerals(parts)),
{
    let s = vector(parts);
    if all_numerals(parts) {
        lemma_numerals_without_commas(parts);
    }
    if parts.len() == 0 {
        let inner = s.subrange(1, s.len() - 1);
        assert(inner == Seq::<char>::empty());
        assert(split(inner, ',')[0] == inner);
        assert(unsigned(inner) == inner);
        assert(!is_numeral(inner));
    } else if forall|i: int| 0 <= i < parts.len() ==> !(#[trigger] parts[i]).contains(',') {
        law_vector_parts(parts);
    }
}

/// A valid embedding holds no single quote.
pub proof fn law_embedding_without_quotes(s: Seq<char>)
    requires
        valid_embedding(s),
    ensures
        !s.contains('\''),
{
    if s.contains('\'') {
        let inner = s.subrange(1, s.len() - 1);
        let at = s.index_of('\'');
        assert(inner[at - 1] == '\'');
        lemma_split_holds(inner, ',', '\'');
        let i = choose|i: int|
            0 <= i < split(inner, ',').len() && (#[trigger] split(inner, ',')[i]).contains('\'');
        lemma_numeral_chars(split(inner, ',')[i], '\'');
    }
}

proof fn lemma_mantissa_of(whole: Seq<char>, point: Seq<char>, fraction: Seq<char>)
    requires
        forall|i: int| 0 <= i < whole.len() ==> '0' <= #[trigger] whole[i] && whole[i] <= '9',
        forall|i: int|
            0 <= i < fraction.len() ==> '0' <= #[trigger] fraction[i] && fraction[i] <= '9',
        (point.len() == 0 && fraction.len() == 0) || point == seq!['.'],
        whole.len() + fraction.len() > 0,
    ensures
        is_mantissa(whole + point + fraction),
{
    let s = whole + point + fraction;
    let n = whole.len() as int;
    assert forall|i: int| 0 <= i < s.len() implies (is_digit(#[trigger] s[i]) || s[i] == '.') && (
    i != n ==> is_digit(s[i])) by {
        if i < n {
            assert(s[i] == whole[i]);
        } else if i > n || point.len() == 0 {
            assert(s[i] == fraction[i - n - point.len()]);
        } else {
            assert(s[i] == point[0]);
        }
    }
    let k = if n > 0 {
        0
    } else {
        point.len() as int
    };
    assert(is_digit(s[k]));
    assert forall|i: int, j: int| 0 <= i < j < s.len() implies #[trigger] s[i] != '.'
        || #[trigger] s[j] != '.' by {
        assert(i != n || j != n);
    }
}

proof fn lemma_mark_of(mantissa: Seq<char>, mark: Seq<char>, exponent: Seq<char>)
    requires
        is_mantissa(mantissa),
        (mark.len() == 0 && exponent.len() == 0) || mark == seq!['e'] || mark == seq!['E'],
    ensures
        exponent_mark(mantissa + mark + exponent) == mantissa.len(),
{
    let s = mantissa + mark + exponent;
    let n = mantissa.len() as int;
    lemma_find(s, 'e');
    lemma_find(s, 'E');
    assert forall|i: int| 0 <= i < n implies #[trigger] s[i] != 'e' && s[i] != 'E' by {
        assert(s[i] == mantissa[i]);
    }
    if mark.len() > 0 {
        assert(s[n] == mark[0]);
    }
}

proof fn lemma_parts_in_a_row(
    sign: Seq<char>,
    whole: Seq<char>,
    point: Seq<char>,
    fraction: Seq<char>,
    mark: Seq<char>,
    exponent_sign: Seq<char>,
    exponent: Seq<char>,
)
    ensures
        sign + ((whole + point + fraction) + mark + (exponent_sign + exponent)) == sign + whole
            + point + fraction + mark + exponent_sign + exponent,
{
    let mantissa = whole + point + fraction;
    assert(sign + mantissa == sign + whole + point + fraction);
    assert(sign + (mantissa + mark + (exponent_sign + exponent)) == (sign + mantissa) + mark
        + exponent_sign + exponent);
}

proof fn lemma_sign_of(s: Seq<char>) -> (sign: Seq<char>)
    ensures
        s == sign + unsigned(s),
        sign.len() == 0 || sign == seq!['+'] || sign == seq!['-'],
{
    let sign = s.take(s.len() - unsigned(s).len());
    assert(s == sign + unsigned(s));
    if sign.len() > 0 {
        assert(sign == seq![s[0]]);
    }
    sign
}

proof fn lemma_numeral_parts(s: Seq<char>) -> (parts: (Seq<char>, Seq<char>, Seq<char>))
    requires
        is_numeral(s),
    ensures
        ({
            let (mantissa, mark, tail) = parts;
            &&& unsigned(s) == mantissa + mark + tail
            &&& is_mantissa(mantissa)
            &&& (mark.len() == 0 && tail.len() == 0) || ((mark == seq!['e'] || mark == seq!['E'])
                && is_digits(unsigned(tail)))
        }),
{
    let body = unsigned(s);
    let n = exponent_mark(body) as int;
    lemma_find(body, 'e');
    lemma_find(body, 'E');
    if n < body.len() {
        assert(body == body.take(n) + seq![body[n]] + body.skip(n + 1));
        (body.take(n), seq![body[n]], body.skip(n + 1))
    } else {
        let none = Seq::<char>::empty();
        assert(body == body + none + none);
        (body, none, none)
    }
}

/// A number in writing is a sign or none, digits, with or without a point among them or
/// at an end, and an exponent or none: a mark `e` or `E`, a sign or none, and digits.
/// There may be any count of digits, before the point, behind it and in the exponent.
pub proof fn law_number_in_writing(
    sign: Seq<char>,
    whole: Seq<char>,
    point: Seq<char>,
    fraction: Seq<char>,
    mark: Seq<char>,
    exponent_sign: Seq<char>,
    exponent: Seq<char>,
)
    requires
        sign.len() == 0 || sign == seq!['+'] || sign == seq!['-'],
        forall|i: int| 0 <= i < whole.len() ==> '0' <= #[trigger] whole[i] && whole[i] <= '9',
        forall|i: int|
            0 <= i < fraction.len() ==> '0' <= #[trigger] fraction[i] && fraction[i] <= '9',
        (point.len() == 0 && fraction.len() == 0) || point == seq!['.'],
        whole.len() + fraction.len() > 0,
        (mark.len() == 0 && exponent_sign.len() == 0 && exponent.len() == 0) || ((mark == seq!['e']
            || mark == seq!['E']) && (exponent_sign.len() == 0 || exponent_sign == seq!['+']
            || exponent_sign == seq!['-']) && exponent.len() > 0),
        forall|i: int|
            0 <= i < exponent.len() ==> '0' <= #[trigger] exponent[i] && exponent[i] <= '9',
    ensures
        is_numeral(sign + whole + point + fraction + mark + exponent_sign + exponent),
{
    let s = sign + whole + point + fraction + mark + exponent_sign + exponent;
    let mantissa = whole + point + fraction;
    let tail = exponent_sign + exponent;
    let body = mantissa + mark + tail;
    lemma_parts_in_a_row(sign, whole, point, fraction, mark, exponent_sign, exponent);
    lemma_mantissa_of(whole, point, fraction);
    lemma_mark_of(mantissa, mark, tail);
    assert(mantissa.len() > 0);
    assert(body[0] == mantissa[0]);
    assert(is_digit(mantissa[0]) || mantissa[0] == '.');
    assert(unsigned(s) == body) by {
        if sign.len() == 0 {
            assert(s == body);
        } else {
            assert(s[0] == sign[0]);
            assert(s.skip(1) == body);
        }
    }
    let n = mantissa.len() as int;
    if mark.len() == 0 {
        assert(body == mantissa);
    } else {
        assert(body.take(n) == mantissa);
        assert(body.skip(n + 1) == tail);
        assert(is_digit(exponent[0]));
        if exponent_sign.len() == 0 {
            assert(tail == exponent);
            assert(unsigned(tail) == exponent);
        } else {
            assert(tail[0] == exponent_sign[0]);
            assert(tail.skip(1) == exponent);
        }
    }
}

/// A number in writing has no other form than a sign or none, digits with or without a
/// point, and an exponent or none. Its parts are returned in that order.
pub proof fn law_number_parts(s: Seq<char>) -> (parts: (
    Seq<char>,
    Seq<char>,
    Seq<char>,
    Seq<char>,
    Seq<char>,
    Seq<char>,
    Seq<char>,
))
    requires
        is_numeral(s),
    ensures
        ({
            let (sign, whole, point, fraction, mark, exponent_sign, exponent) = parts;
            &&& s == sign + whole + point + fraction + mark + exponent_sign + exponent
            &&& sign.len() == 0 || sign == seq!['+'] || sign == seq!['-']
            &&& forall|i: int|
                0 <= i < whole.len() ==> '0' <= #[trigger] whole[i] && whole[i] <= '9'
            &&& forall|i: int|
                0 <= i < fraction.len() ==> '0' <= #[trigger] fraction[i] && fraction[i] <= '9'
            &&& (point.len() == 0 && fraction.len() == 0) || point == seq!['.']
            &&& whole.len() + fraction.len() > 0
            &&& (mark.len() == 0 && exponent_sign.len() == 0 && exponent.len() == 0) || ((mark
                == seq!['e'] || mark == seq!['E']) && (exponent_sign.len() == 0 || exponent_sign
                == seq!['+'] || exponent_sign == seq!['-']) && exponent.len() > 0)
            &&& forall|i: int|
                0 <= i < exponent.len() ==> '0' <= #[trigger] exponent[i] && exponent[i] <= '9'
        }),
{
    let sign = lemma_sign_of(s);
    let (mantissa, mark, tail) = lemma_numeral_parts(s);
    let exponent_sign = lemma_sign_of(tail);
    let exponent = unsigned(tail);
    let (whole, point, fraction) = lemma_mantissa_parts(mantissa);
    lemma_parts_in_a_row(sign, whole, point, fraction, mark, exponent_sign, exponent);
    (sign, whole, point, fraction, mark, exponent_sign, exponent)
}

proof fn lemma_mantissa_parts(s: Seq<char>) -> (parts: (Seq<char>, Seq<char>, Seq<char>))
    requires
        is_mantissa(s),
    ensures
        ({
            let (whole, point, fraction) = parts;
            &&& s == whole + point + fraction
            &&& forall|i: int|
                0 <= i < whole.len() ==> '0' <= #[trigger] whole[i] && whole[i] <= '9'
            &&& forall|i: int|
                0 <= i < fraction.len() ==> '0' <= #[trigger] fraction[i] && fraction[i] <= '9'
            &&& (point.len() == 0 && fraction.len() == 0) || point == seq!['.']
            &&& whole.len() + fraction.len() > 0
        }),
{
    lemma_find(s, '.');
    let n = find(s, '.') as int;
    let k = choose|k: int| 0 <= k < s.len() && is_digit(#[trigger] s[k]);
    assert(is_digit(s[k]));
    let whole = s.take(n);
    assert forall|i: int| 0 <= i < whole.len() implies '0' <= #[trigger] whole[i] && whole[i]
        <= '9' by {
        assert(whole[i] == s[i]);
        assert(is_digit(s[i]) || s[i] == '.');
    }
    if n < s.len() {
        let fraction = s.skip(n + 1);
        assert forall|i: int| 0 <= i < fraction.len() implies '0' <= #[trigger] fraction[i]
            && fraction[i] <= '9' by {
            assert(fraction[i] == s[n + 1 + i]);
            assert(s[n] != '.' || s[n + 1 + i] != '.');
            assert(is_digit(s[n + 1 + i]) || s[n + 1 + i] == '.');
        }
        assert(s == whole + seq!['.'] + fraction);
        assert(k != n);
        (whole, seq!['.'], fraction)
    } else {
        let none = Seq::<char>::empty();
        assert(s == whole + none + none);
        (whole, none, none)
    }
}

/// A sign before a number that has none is a number in writing too, and nothing else with
/// a sign is.
pub proof fn law_signed_number(s: Seq<char>)
    requires
        s.len() == 0 || (s[0] != '+' && s[0] != '-'),
    ensures
        is_numeral(seq!['-'] + s) <==> is_numeral(s),
        is_numeral(seq!['+'] + s) <==> is_numeral(s),
{
    assert((seq!['-'] + s).skip(1) == s);
    assert((seq!['+'] + s).skip(1) == s);
}

/// Brackets round one number or more, with commas between them, are a valid embedding,
/// however many there are; round texts without a comma of which one is no number, or
/// round nothing, they are not.
pub proof fn law_numbers_in_brackets(parts: Seq<Seq<char>>)
    ensures
        parts.len() > 0 && (forall|i: int| 0 <= i < parts.len() ==> is_numeral(#[trigger] parts[i]))
            ==> valid_embedding(seq!['['] + join(parts, seq![',']) + seq![']']),
        (forall|i: int| 0 <= i < parts.len() ==> !(#[trigger] parts[i]).contains(',')) && (
        parts.len() == 0 || exists|i: int| 0 <= i < parts.len() && !is_numeral(#[trigger] parts[i]))
            ==> !valid_embedding(seq!['['] + join(parts, seq![',']) + seq![']']),
{
    law_vector_validity(parts);
}

/// An embedding is valid exactly when it is in brackets and each of its pieces between
/// the commas is a number.
pub proof fn law_valid_embedding(s: Seq<char>)
    ensures
        valid_embedding(s) ==> s.len() >= 2 && s[0] == '[' && s[s.len() - 1] == ']',
        s.len() >= 2 && s[0] == '[' && s[s.len() - 1] == ']' ==> (valid_embedding(s) <==> forall|
            i: int,
        |
            0 <= i < split(s.subrange(1, s.len() - 1), ',').len() ==> is_numeral(
                #[trigger] split(s.subrange(1, s.len() - 1), ',')[i],
            )),
{
}

/// The vector of no numbers is a pair of brackets, that of one number has it between
/// them, and a number more stands behind a comma before the closing bracket.
pub proof fn law_vector(parts: Seq<Seq<char>>, part: Seq<char>)
    ensures
        vector(Seq::empty()) == seq!['[', ']'],
        vector(seq![part]) == seq!['['] + part + seq![']'],
        parts.len() > 0 ==> vector(parts.push(part)) == vector(parts).drop_last() + seq![','] + part
            + seq![']'],
{
    law_join(parts, part, seq![',']);
}

} // verus!
