//! Character-level helpers shared by the parsers and formatters of the crate.
//!
//! Strings are viewed as `Seq<char>`; the functions here move between `&str`,
//! `String` and `Vec<char>` and state their results over those views.

use vstd::prelude::*;
use vstd::string::*;

verus! {

/// Appends one character to `s`.
///
/// Trusted: `String::push` of the standard library, which puts `c` behind the
/// characters already in the string and changes nothing else.
#[verifier::external_body]
pub(crate) fn push_char(s: &mut String, c: char)
    ensures
        final(s)@ == old(s)@.push(c),
{
    s.push(c);
}

/// The characters of `s`, in order.
pub fn chars_of(s: &str) -> (v: Vec<char>)
    ensures
        v@ == s@,
{
    let n: usize = s.unicode_len();
    let mut v: Vec<char> = Vec::new();
    let mut i: usize = 0;
    while i < n
        invariant
            n == s@.len(),
            i <= n,
            v@ == s@.subrange(0, i as int),
        decreases n - i,
    {
        let c = s.get_char(i);
        v.push(c);
        i += 1;
        assert(v@ =~= s@.subrange(0, i as int));
    }
    assert(s@.subrange(0, n as int) =~= s@);
    v
}

/// The characters of an optional text.
pub open spec fn text_of(o: Option<String>) -> Option<Seq<char>> {
    match o {
        Some(s) => Some(s@),
        None => None,
    }
}

/// The characters of each text of a list.
pub open spec fn texts_of(v: Seq<String>) -> Seq<Seq<char>> {
    v.map_values(|s: String| s@)
}

/// A copy of an optional text.
pub fn clone_text(o: &Option<String>) -> (r: Option<String>)
    ensures
        text_of(r) == text_of(*o),
{
    match o {
        Some(s) => Some(s.clone()),
        None => None,
    }
}

/// The characters of a list with one more text are those of the list with the
/// characters of that text behind them.
pub proof fn lemma_texts_of_push(v: Seq<String>, s: String)
    ensures
        texts_of(v.push(s)) == texts_of(v).push(s@),
{
    assert(texts_of(v.push(s)) =~= texts_of(v).push(s@));
}

/// A copy of a list of texts.
pub fn clone_texts(v: &Vec<String>) -> (r: Vec<String>)
    ensures
        texts_of(r@) == texts_of(v@),
{
    let mut r: Vec<String> = Vec::new();
    let mut i: usize = 0;
    while i < v.len()
        invariant
            i <= v.len(),
            r.len() == i,
            texts_of(r@) == texts_of(v@).take(i as int),
        decreases v.len() - i,
    {
        let ghost before = r@;
        let c = v[i].clone();
        r.push(c);
        i += 1;
        assert forall|k: int| 0 <= k < i implies texts_of(r@)[k] == texts_of(v@)[k] by {
            if k < i - 1 {
                assert(texts_of(before)[k] == texts_of(v@).take(i - 1)[k]);
                assert(r@[k] == before[k]);
            }
        }
        assert(texts_of(r@) =~= texts_of(v@).take(i as int));
    }
    assert(texts_of(v@).take(v.len() as int) =~= texts_of(v@));
    r
}

/// Whether one of the texts of `v` holds the characters of `x`.
pub fn contains_text(v: &Vec<String>, x: &String) -> (r: bool)
    ensures
        r == texts_of(v@).contains(x@),
{
    let mut i: usize = 0;
    while i < v.len()
        invariant
            i <= v.len(),
            forall|k: int| 0 <= k < i ==> texts_of(v@)[k] != x@,
        decreases v.len() - i,
    {
        if v[i] == *x {
            assert(texts_of(v@)[i as int] == x@);
            return true;
        }
        i += 1;
    }
    false
}

/// Whether two texts hold the same characters.
pub fn str_equals(a: &str, b: &str) -> (r: bool)
    ensures
        r == (a@ == b@),
{
    let x = String::from_str(a);
    let y = String::from_str(b);
    x == y
}

/// Whether `c` is one of the ten decimal digits.
pub open spec fn is_digit(c: char) -> bool {
    '0' <= c && c <= '9'
}

/// The value of the decimal digit `c`.
pub open spec fn digit_value(c: char) -> nat
    recommends
        is_digit(c),
{
    (c as int - '0' as int) as nat
}

/// Whether `s` is a non-empty run of decimal digits.
pub open spec fn is_number(s: Seq<char>) -> bool {
    s.len() > 0 && forall|i: int| 0 <= i < s.len() ==> is_digit(#[trigger] s[i])
}

/// The number that the digits of `s` write in base ten, most significant first.
pub open spec fn decimal_value(s: Seq<char>) -> nat
    decreases s.len(),
{
    if s.len() == 0 {
        0
    } else {
        10 * decimal_value(s.drop_last()) + digit_value(s.last())
    }
}

/// What `s` denotes as an unsigned 16-bit number: its decimal value where `s`
/// is a run of digits (leading zeros allowed) that stays within range, and
/// nothing otherwise. No sign and no blank is part of a number.
pub open spec fn u16_of_text(s: Seq<char>) -> Option<u16> {
    if is_number(s) && decimal_value(s) <= 0xffff {
        Some(decimal_value(s) as u16)
    } else {
        None
    }
}

/// A prefix of a run of digits never denotes more than the whole run.
pub proof fn lemma_decimal_value_prefix(s: Seq<char>, k: int)
    requires
        0 <= k <= s.len(),
    ensures
        decimal_value(s.take(k)) <= decimal_value(s),
    decreases s.len() - k,
{
    if k < s.len() {
        lemma_decimal_value_prefix(s, k + 1);
        assert(s.take(k + 1).drop_last() =~= s.take(k));
    } else {
        assert(s.take(k) =~= s);
    }
}

/// Reads the characters of `v` from `from` up to `to` as an unsigned 16-bit
/// decimal number.
pub fn parse_u16(v: &Vec<char>, from: usize, to: usize) -> (r: Option<u16>)
    requires
        from <= to <= v.len(),
    ensures
        r == u16_of_text(v@.subrange(from as int, to as int)),
{
    let ghost s = v@.subrange(from as int, to as int);
    if from == to {
        return None;
    }
    let mut acc: u32 = 0;
    let mut i: usize = from;
    while i < to
        invariant
            from <= i <= to <= v.len(),
            s == v@.subrange(from as int, to as int),
            forall|k: int| 0 <= k < i - from ==> is_digit(#[trigger] s[k]),
            acc as nat == decimal_value(s.take(i - from)),
            acc <= 0xffff,
        decreases to - i,
    {
        let c = v[i];
        if !('0' <= c && c <= '9') {
            assert(!is_digit(s[i - from]));
            return None;
        }
        let d: u32 = (c as u32) - ('0' as u32);
        let next: u32 = acc * 10 + d;
        proof {
            assert(s.take(i - from + 1).drop_last() =~= s.take(i - from));
            assert(s.take(i - from + 1).last() == c);
            assert(next as nat == decimal_value(s.take(i - from + 1)));
        }
        if next > 0xffff {
            proof {
                lemma_decimal_value_prefix(s, i - from + 1);
            }
            return None;
        }
        acc = next;
        i += 1;
    }
    assert(s.take(to - from) =~= s);
    Some(acc as u16)
}

/// The index of the first character of `s` that is `a` or `b`, and the length
/// of `s` where it holds neither.
pub open spec fn first_of(s: Seq<char>, a: char, b: char) -> int
    decreases s.len(),
{
    if s.len() == 0 {
        0
    } else if s[0] == a || s[0] == b {
        0
    } else {
        1 + first_of(s.drop_first(), a, b)
    }
}

/// `first_of` stays within the sequence, nothing before it is `a` or `b`, and
/// what stands at it is.
pub proof fn lemma_first_of_bounds(s: Seq<char>, a: char, b: char)
    ensures
        0 <= first_of(s, a, b) <= s.len(),
        forall|k: int| 0 <= k < first_of(s, a, b) ==> #[trigger] s[k] != a && s[k] != b,
        first_of(s, a, b) < s.len() ==> s[first_of(s, a, b)] == a || s[first_of(s, a, b)] == b,
    decreases s.len(),
{
    if s.len() != 0 && !(s[0] == a || s[0] == b) {
        let t = s.drop_first();
        lemma_first_of_bounds(t, a, b);
        assert forall|k: int| 0 <= k < first_of(s, a, b) implies #[trigger] s[k] != a && s[k]
            != b by {
            if k > 0 {
                assert(s[k] == t[k - 1]);
            }
        }
    }
}

/// An index with nothing before it that is `a` or `b`, and which is the end or
/// holds one of them, is `first_of`.
pub proof fn lemma_first_of_is(s: Seq<char>, a: char, b: char, i: int)
    requires
        0 <= i <= s.len(),
        forall|k: int| 0 <= k < i ==> #[trigger] s[k] != a && s[k] != b,
        i < s.len() ==> s[i] == a || s[i] == b,
    ensures
        first_of(s, a, b) == i,
    decreases s.len(),
{
    if s.len() != 0 && !(s[0] == a || s[0] == b) {
        let t = s.drop_first();
        assert forall|k: int| 0 <= k < i - 1 implies #[trigger] t[k] != a && t[k] != b by {
            assert(t[k] == s[k + 1]);
        }
        lemma_first_of_is(t, a, b, i - 1);
    } else if s.len() != 0 {
        if i > 0 {
            assert(s[0] != a && s[0] != b);
        }
    }
}

/// Looks from index `from` on for the first character that is `a` or `b`;
/// gives the length of `v` where there is none.
pub fn find_first(v: &Vec<char>, from: usize, a: char, b: char) -> (i: usize)
    requires
        from <= v.len(),
    ensures
        from <= i <= v.len(),
        i == from + first_of(v@.skip(from as int), a, b),
{
    let ghost s = v@.skip(from as int);
    let mut i: usize = from;
    while i < v.len() && !(v[i] == a || v[i] == b)
        invariant
            from <= i <= v.len(),
            s == v@.skip(from as int),
            forall|k: int| 0 <= k < i - from ==> #[trigger] s[k] != a && s[k] != b,
        decreases v.len() - i,
    {
        i += 1;
    }
    proof {
        lemma_first_of_is(s, a, b, i - from);
    }
    i
}

/// Whether `p` stands in `s` at index `i`.
pub open spec fn occurs_at(s: Seq<char>, p: Seq<char>, i: int) -> bool {
    0 <= i && i + p.len() <= s.len() && s.subrange(i, i + p.len()) == p
}

/// Whether `s` begins with `p`.
pub open spec fn has_prefix(s: Seq<char>, p: Seq<char>) -> bool {
    occurs_at(s, p, 0)
}

/// Whether `s` ends with `p`.
pub open spec fn has_suffix(s: Seq<char>, p: Seq<char>) -> bool {
    occurs_at(s, p, s.len() - p.len())
}

/// Whether `p` stands somewhere in `s`. The empty text stands in every text.
pub open spec fn has_occurrence(s: Seq<char>, p: Seq<char>) -> bool {
    exists|i: int| occurs_at(s, p, i)
}

/// The index of the first place at which `p` stands in `s`, and the length of
/// `s` where it stands nowhere.
pub open spec fn first_occurrence(s: Seq<char>, p: Seq<char>) -> int
    decreases s.len(),
{
    if s.len() == 0 {
        0
    } else if occurs_at(s, p, 0) {
        0
    } else {
        1 + first_occurrence(s.drop_first(), p)
    }
}

/// An index before which `p` stands nowhere in `s`, and which is the end of
/// `s` or a place at which `p` stands, is `first_occurrence`.
pub proof fn lemma_first_occurrence_is(s: Seq<char>, p: Seq<char>, i: int)
    requires
        0 <= i <= s.len(),
        forall|k: int| 0 <= k < i ==> !occurs_at(s, p, k),
        i < s.len() ==> occurs_at(s, p, i),
    ensures
        first_occurrence(s, p) == i,
    decreases s.len(),
{
    if s.len() != 0 && !occurs_at(s, p, 0) {
        let t = s.drop_first();
        assert forall|k: int| 0 <= k < i - 1 implies !occurs_at(t, p, k) by {
            if occurs_at(t, p, k) {
                assert(s.subrange(k + 1, k + 1 + p.len()) =~= t.subrange(k, k + p.len()));
                assert(occurs_at(s, p, k + 1));
            }
        }
        if i - 1 < t.len() {
            assert(t.subrange(i - 1, i - 1 + p.len()) =~= s.subrange(i, i + p.len()));
        }
        lemma_first_occurrence_is(t, p, i - 1);
    } else if s.len() != 0 {
        if i > 0 {
            assert(!occurs_at(s, p, 0));
        }
    }
}

/// `first_occurrence` stays within the text, `p` stands nowhere before it,
/// and `p` stands at it unless it is the end.
pub proof fn lemma_first_occurrence_bounds(s: Seq<char>, p: Seq<char>)
    ensures
        0 <= first_occurrence(s, p) <= s.len(),
        forall|k: int| 0 <= k < first_occurrence(s, p) ==> !occurs_at(s, p, k),
        first_occurrence(s, p) < s.len() ==> occurs_at(s, p, first_occurrence(s, p)),
    decreases s.len(),
{
    if s.len() != 0 && !occurs_at(s, p, 0) {
        let t = s.drop_first();
        lemma_first_occurrence_bounds(t, p);
        let f = first_occurrence(t, p);
        assert forall|k: int| 0 <= k < f + 1 implies !occurs_at(s, p, k) by {
            if k > 0 && occurs_at(s, p, k) {
                assert(t.subrange(k - 1, k - 1 + p.len()) =~= s.subrange(k, k + p.len()));
                assert(occurs_at(t, p, k - 1));
            }
        }
        if f < t.len() {
            assert(s.subrange(f + 1, f + 1 + p.len()) =~= t.subrange(f, f + p.len()));
        }
    }
}

/// Whether `p` stands in `v` at index `i`.
pub fn matches_at(v: &Vec<char>, i: usize, p: &Vec<char>) -> (r: bool)
    requires
        i <= v.len(),
    ensures
        r == occurs_at(v@, p@, i as int),
{
    if p.len() > v.len() - i {
        return false;
    }
    let mut k: usize = 0;
    while k < p.len()
        invariant
            k <= p.len(),
            i + p.len() <= v.len(),
            forall|n: int| 0 <= n < k ==> v@[i + n] == p@[n],
        decreases p.len() - k,
    {
        if v[i + k] != p[k] {
            assert(v@.subrange(i as int, i + p.len())[k as int] == v@[i + k]);
            return false;
        }
        k += 1;
    }
    assert(v@.subrange(i as int, i + p.len()) =~= p@);
    true
}

/// Looks from index `from` on for the first place at which `p` stands; gives
/// the length of `v` where there is none.
pub fn find_text(v: &Vec<char>, from: usize, p: &Vec<char>) -> (i: usize)
    requires
        from <= v.len(),
    ensures
        from <= i <= v.len(),
        i == from + first_occurrence(v@.skip(from as int), p@),
{
    let ghost s = v@.skip(from as int);
    let mut i: usize = from;
    while i < v.len()
        invariant
            from <= i <= v.len(),
            s == v@.skip(from as int),
            forall|k: int| 0 <= k < i - from ==> !occurs_at(s, p@, k),
        decreases v.len() - i,
    {
        let hit = matches_at(v, i, p);
        proof {
            if i + p.len() <= v.len() {
                assert(s.subrange(i - from, i - from + p.len()) =~= v@.subrange(
                    i as int,
                    i + p.len(),
                ));
            }
            assert(hit == occurs_at(s, p@, i - from));
        }
        if hit {
            proof {
                lemma_first_occurrence_is(s, p@, i - from);
            }
            return i;
        }
        i += 1;
    }
    proof {
        lemma_first_occurrence_is(s, p@, i - from);
    }
    i
}

/// Whether `s` begins with `prefix`.
pub fn starts_with(s: &str, prefix: &str) -> (r: bool)
    ensures
        r == has_prefix(s@, prefix@),
{
    let v = chars_of(s);
    let p = chars_of(prefix);
    matches_at(&v, 0, &p)
}

/// Whether `s` ends with `suffix`.
pub fn ends_with(s: &str, suffix: &str) -> (r: bool)
    ensures
        r == has_suffix(s@, suffix@),
{
    let v = chars_of(s);
    let p = chars_of(suffix);
    if p.len() > v.len() {
        return false;
    }
    matches_at(&v, v.len() - p.len(), &p)
}

/// Whether `needle` stands somewhere in `s`.
pub fn contains(s: &str, needle: &str) -> (r: bool)
    ensures
        r == has_occurrence(s@, needle@),
{
    let v = chars_of(s);
    let p = chars_of(needle);
    if p.len() == 0 {
        assert(v@.subrange(0, 0) =~= p@);
        assert(occurs_at(v@, p@, 0));
        return true;
    }
    let i = find_text(&v, 0, &p);
    proof {
        assert(v@.skip(0) =~= v@);
        lemma_first_occurrence_bounds(v@, p@);
        if i < v.len() {
            assert(occurs_at(v@, p@, i as int));
        } else {
            assert forall|k: int| !occurs_at(v@, p@, k) by {
                if occurs_at(v@, p@, k) {
                    assert(k < v.len());
                }
            }
        }
    }
    i < v.len()
}

/// The characters of `v` from `from` up to `to`, as a text.
pub fn text_between(v: &Vec<char>, from: usize, to: usize) -> (r: String)
    requires
        from <= to <= v.len(),
    ensures
        r@ == v@.subrange(from as int, to as int),
{
    let mut r = String::new();
    let mut i: usize = from;
    while i < to
        invariant
            from <= i <= to <= v.len(),
            r@ == v@.subrange(from as int, i as int),
        decreases to - i,
    {
        push_char(&mut r, v[i]);
        i += 1;
        assert(r@ =~= v@.subrange(from as int, i as int));
    }
    r
}

/// What is left of `s` behind `prefix`, where `s` begins with it.
pub fn strip_prefix(s: &str, prefix: &str) -> (r: Option<String>)
    ensures
        match r {
            Some(rest) => has_prefix(s@, prefix@) && rest@ == s@.skip(prefix@.len() as int),
            None => !has_prefix(s@, prefix@),
        },
{
    let v = chars_of(s);
    let p = chars_of(prefix);
    if matches_at(&v, 0, &p) {
        let rest = text_between(&v, p.len(), v.len());
        assert(v@.subrange(p.len() as int, v.len() as int) =~= v@.skip(p.len() as int));
        Some(rest)
    } else {
        None
    }
}

/// The pieces of `s` between the places at which `sep` stands, read from the
/// left: a place that overlaps an earlier one does not count.
pub open spec fn split_text(s: Seq<char>, sep: Seq<char>) -> Seq<Seq<char>>
    decreases s.len(),
{
    let i = first_occurrence(s, sep);
    if sep.len() == 0 || i < 0 || i + sep.len() > s.len() {
        seq![s]
    } else {
        seq![s.take(i)] + split_text(s.skip(i + sep.len()), sep)
    }
}

/// Cuts `s` at each place at which `sep` stands.
pub fn split(s: &str, sep: &str) -> (r: Vec<String>)
    requires
        sep@.len() > 0,
    ensures
        texts_of(r@) == split_text(s@, sep@),
{
    let v = chars_of(s);
    let p = chars_of(sep);
    let mut r: Vec<String> = Vec::new();
    let mut start: usize = 0;
    assert(v@.skip(0) =~= v@);
    assert(texts_of(r@) =~= Seq::<Seq<char>>::empty());
    loop
        invariant
            start <= v.len(),
            p@.len() > 0,
            v@ == s@,
            p@ == sep@,
            split_text(v@, p@) == texts_of(r@) + split_text(v@.skip(start as int), p@),
        decreases v.len() - start,
    {
        let ghost rest = v@.skip(start as int);
        let ghost done = texts_of(r@);
        let i = find_text(&v, start, &p);
        proof {
            lemma_first_occurrence_bounds(rest, p@);
        }
        if i >= v.len() {
            let piece = text_between(&v, start, v.len());
            r.push(piece);
            proof {
                assert(v@.subrange(start as int, v.len() as int) =~= rest);
                assert(split_text(rest, p@) =~= seq![rest]);
                assert(texts_of(r@) =~= done + seq![rest]);
            }
            return r;
        }
        let piece = text_between(&v, start, i);
        r.push(piece);
        proof {
            assert(v@.subrange(start as int, i as int) =~= rest.take(i - start));
            assert(rest.skip(i - start + p.len()) =~= v@.skip(i + p.len()));
            assert(texts_of(r@) =~= done + seq![rest.take(i - start)]);
            assert(split_text(v@, p@) =~= texts_of(r@) + split_text(
                v@.skip(i + p.len()),
                p@,
            ));
        }
        start = i + p.len();
    }
}

/// The texts of `parts` in a row, with `sep` between each two.
pub open spec fn join_text(parts: Seq<Seq<char>>, sep: Seq<char>) -> Seq<char>
    decreases parts.len(),
{
    if parts.len() == 0 {
        Seq::empty()
    } else if parts.len() == 1 {
        parts[0]
    } else {
        join_text(parts.drop_last(), sep) + sep + parts.last()
    }
}

/// Puts the texts of `parts` in a row, with `sep` between each two.
pub fn join(parts: &Vec<String>, sep: &str) -> (r: String)
    ensures
        r@ == join_text(texts_of(parts@), sep@),
{
    let mut r = String::new();
    let mut i: usize = 0;
    let ghost all = texts_of(parts@);
    assert(all.take(0).len() == 0);
    while i < parts.len()
        invariant
            i <= parts.len(),
            all == texts_of(parts@),
            r@ == join_text(all.take(i as int), sep@),
        decreases parts.len() - i,
    {
        if i > 0 {
            r.append(sep);
        }
        r.append(parts[i].as_str());
        proof {
            assert(all.take(i + 1).drop_last() =~= all.take(i as int));
            assert(all.take(i + 1).last() == parts@[i as int]@);
            if i == 0 {
                assert(r@ =~= all.take(1)[0]);
            }
        }
        i += 1;
    }
    assert(all.take(parts.len() as int) =~= all);
    r
}

/// The sequences of `parts` in a row.
pub open spec fn concat_all<T>(parts: Seq<Seq<T>>) -> Seq<T>
    decreases parts.len(),
{
    if parts.len() == 0 {
        Seq::empty()
    } else {
        concat_all(parts.drop_last()) + parts.last()
    }
}

/// Adding one more part to the row adds it behind the rest.
pub proof fn lemma_concat_all_step<T>(parts: Seq<Seq<T>>, i: int)
    requires
        0 <= i < parts.len(),
    ensures
        concat_all(parts.take(i + 1)) == concat_all(parts.take(i)) + parts[i],
{
    assert(parts.take(i + 1).drop_last() =~= parts.take(i));
}

/// The character that writes the digit `d`.
pub open spec fn digit_char(d: nat) -> char
    recommends
        d < 10,
{
    ((d + 48) as u8) as char
}

/// The decimal digits of `n`, most significant first and without leading
/// zeros; zero is written `0`.
pub open spec fn decimal_text(n: nat) -> Seq<char>
    decreases n,
{
    if n < 10 {
        seq![digit_char(n)]
    } else {
        decimal_text(n / 10).push(digit_char(n % 10))
    }
}

/// Reading back what `decimal_text` wrote gives the number again.
pub proof fn lemma_decimal_text_value(n: nat)
    ensures
        is_number(decimal_text(n)),
        decimal_value(decimal_text(n)) == n,
    decreases n,
{
    let s = decimal_text(n);
    if n < 10 {
        assert(s.drop_last() =~= Seq::<char>::empty());
        assert(is_digit(digit_char(n)));
        assert(digit_value(digit_char(n)) == n);
        reveal_with_fuel(decimal_value, 2);
    } else {
        lemma_decimal_text_value(n / 10);
        let head = decimal_text(n / 10);
        assert(s.drop_last() =~= head);
        assert(is_digit(digit_char(n % 10)));
        assert(digit_value(digit_char(n % 10)) == n % 10);
        assert forall|i: int| 0 <= i < s.len() implies is_digit(#[trigger] s[i]) by {
            if i < head.len() {
                assert(s[i] == head[i]);
            }
        }
    }
}

/// What is not yet written of a number while its digits are taken off its
/// low end: nothing once the number has come down to zero.
spec fn pending_digits(m: nat) -> Seq<char> {
    if m == 0 {
        Seq::empty()
    } else {
        decimal_text(m)
    }
}

/// Writes `n` in decimal digits.
pub fn u64_to_decimal(n: u64) -> (r: String)
    ensures
        r@ == decimal_text(n as nat),
{
    let mut low_first: Vec<char> = Vec::new();
    let mut m: u64 = n / 10;
    low_first.push(((n % 10) as u8 + 48u8) as char);
    assert(decimal_text(n as nat) =~= pending_digits(m as nat) + low_first@.reverse());
    while m > 0
        invariant
            low_first.len() > 0,
            decimal_text(n as nat) == pending_digits(m as nat) + low_first@.reverse(),
        decreases m,
    {
        let ghost had = low_first@;
        let ghost before = m;
        low_first.push(((m % 10) as u8 + 48u8) as char);
        m = m / 10;
        proof {
            let d = digit_char((before % 10) as nat);
            assert(low_first@ == had.push(d));
            assert(low_first@.reverse() =~= seq![d] + had.reverse());
            assert(pending_digits(before as nat) =~= pending_digits(m as nat) + seq![d]);
            assert(pending_digits(before as nat) + had.reverse() =~= pending_digits(m as nat)
                + low_first@.reverse());
        }
    }
    let mut r = String::new();
    let mut k: usize = low_first.len();
    let ghost digits = low_first@.reverse();
    assert(decimal_text(n as nat) =~= digits);
    while k > 0
        invariant
            k <= low_first.len(),
            digits == low_first@.reverse(),
            r@ == digits.take(low_first.len() - k),
        decreases k,
    {
        k -= 1;
        push_char(&mut r, low_first[k]);
        assert(r@ =~= digits.take(low_first.len() - k));
    }
    assert(digits.take(low_first.len() as int) =~= digits);
    r
}

} // verus!
