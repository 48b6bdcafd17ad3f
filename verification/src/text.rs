//! Small text operations: trimming, splitting, joining and decimal digits.

use vstd::prelude::*;
use vstd::string::{StrSliceExecFns, StringExecFns};

verus! {

/// Whether `c` has the Unicode property `White_Space`.
pub open spec fn is_whitespace(c: char) -> bool {
    let code = c as u32;
    ||| 0x09 <= code <= 0x0d
    ||| code == 0x20
    ||| code == 0x85
    ||| code == 0xa0
    ||| code == 0x1680
    ||| 0x2000 <= code <= 0x200a
    ||| code == 0x2028
    ||| code == 0x2029
    ||| code == 0x202f
    ||| code == 0x205f
    ||| code == 0x3000
}

/// `text` without the whitespace at its start.
pub open spec fn trimmed_start(text: Seq<char>) -> Seq<char>
    decreases text.len(),
{
    if text.len() > 0 && is_whitespace(text.first()) {
        trimmed_start(text.drop_first())
    } else {
        text
    }
}

/// `text` without the whitespace at its end.
pub open spec fn trimmed_end(text: Seq<char>) -> Seq<char>
    decreases text.len(),
{
    if text.len() > 0 && is_whitespace(text.last()) {
        trimmed_end(text.drop_last())
    } else {
        text
    }
}

/// `text` without the whitespace at its start and end.
pub open spec fn trimmed(text: Seq<char>) -> Seq<char> {
    trimmed_end(trimmed_start(text))
}

/// The part of `text` before the first `mark`, or all of it where `mark` does not occur.
pub open spec fn before(text: Seq<char>, mark: char) -> Seq<char>
    decreases text.len(),
{
    if text.len() == 0 || text.first() == mark {
        Seq::empty()
    } else {
        seq![text.first()] + before(text.drop_first(), mark)
    }
}

/// The ASCII lower case form of `c`; every other character stands for itself.
pub open spec fn ascii_lower(c: char) -> char {
    if 'A' <= c && c <= 'Z' {
        ((c as u32) + 32) as char
    } else {
        c
    }
}

/// `text` with every ASCII letter in lower case.
pub open spec fn ascii_lowered(text: Seq<char>) -> Seq<char> {
    Seq::new(text.len(), |i: int| ascii_lower(text[i]))
}

/// The decimal digit for a number below ten.
pub open spec fn digit(n: nat) -> char {
    (('0' as u32) + n) as char
}

/// `n` in decimal, without leading zeros.
pub open spec fn decimal(n: nat) -> Seq<char>
    decreases n,
{
    if n < 10 {
        seq![digit(n)]
    } else {
        decimal(n / 10).push(digit(n % 10))
    }
}

/// Lexicographic order by character, which is also the order of the UTF-8 bytes.
pub open spec fn ordered_before(a: Seq<char>, b: Seq<char>) -> bool
    decreases a.len(),
{
    if b.len() == 0 {
        false
    } else if a.len() == 0 {
        true
    } else if a.first() == b.first() {
        ordered_before(a.drop_first(), b.drop_first())
    } else {
        a.first() < b.first()
    }
}

fn whitespace(c: char) -> (r: bool)
    ensures
        r == is_whitespace(c),
{
    let code: u32 = c as u32;
    (0x09 <= code && code <= 0x0d) || code == 0x20 || code == 0x85 || code == 0xa0
        || code == 0x1680 || (0x2000 <= code && code <= 0x200a) || code == 0x2028
        || code == 0x2029 || code == 0x202f || code == 0x205f || code == 0x3000
}

/// The characters of `text`.
pub fn characters(text: &str) -> (r: Vec<char>)
    ensures
        r@ == text@,
{
    let mut out: Vec<char> = Vec::new();
    for c in it: text.chars()
        invariant
            out@ == it.seq().take(it.index()),
            it.seq() == text@,
    {
        out.push(c);
        assert(it.seq().take(it.index() + 1) == it.seq().take(it.index()).push(c));
    }
    assert(text@.take(text@.len() as int) == text@);
    out
}

proof fn trimmed_start_skips(text: Seq<char>, n: int)
    requires
        0 <= n <= text.len(),
        forall|i: int| 0 <= i < n ==> is_whitespace(#[trigger] text[i]),
        n == text.len() || !is_whitespace(text[n]),
    ensures
        trimmed_start(text) == text.skip(n),
    decreases n,
{
    if n == 0 {
        assert(text.skip(0) == text);
    } else {
        let rest = text.drop_first();
        assert forall|i: int| 0 <= i < n - 1 implies is_whitespace(#[trigger] rest[i]) by {
            assert(rest[i] == text[i + 1]);
        }
        trimmed_start_skips(rest, n - 1);
        assert(rest.skip(n - 1) == text.skip(n));
    }
}

proof fn trimmed_end_takes(text: Seq<char>, n: int)
    requires
        0 <= n <= text.len(),
        forall|i: int| n <= i < text.len() ==> is_whitespace(#[trigger] text[i]),
        n == 0 || !is_whitespace(text[n - 1]),
    ensures
        trimmed_end(text) == text.take(n),
    decreases text.len(),
{
    if n == text.len() {
        assert(text.take(n) == text);
    } else {
        trimmed_end_takes(text.drop_last(), n);
        assert(text.drop_last().take(n) == text.take(n));
    }
}

/// `text` without the whitespace at its start and end.
pub fn trim(text: &str) -> (r: String)
    ensures
        r@ == trimmed(text@),
{
    let chars = characters(text);
    let n: usize = chars.len();
    let mut from: usize = 0;
    while from < n && whitespace(chars[from])
        invariant
            n == chars@.len(),
            from <= n,
            forall|i: int| 0 <= i < from ==> is_whitespace(#[trigger] chars@[i]),
        decreases n - from,
    {
        from = from + 1;
    }
    let mut to: usize = n;
    while from < to && whitespace(chars[to - 1])
        invariant
            n == chars@.len(),
            from <= to <= n,
            forall|i: int| to <= i < n ==> is_whitespace(#[trigger] chars@[i]),
        decreases to,
    {
        to = to - 1;
    }
    proof {
        trimmed_start_skips(chars@, from as int);
        let rest = chars@.skip(from as int);
        trimmed_end_takes(rest, to - from);
        assert(rest.take(to - from) == chars@.subrange(from as int, to as int));
    }
    text.substring_char(from, to).to_owned()
}

proof fn before_takes(text: Seq<char>, mark: char, n: int)
    requires
        0 <= n <= text.len(),
        forall|i: int| 0 <= i < n ==> #[trigger] text[i] != mark,
        n == text.len() || text[n] == mark,
    ensures
        before(text, mark) == text.take(n),
    decreases n,
{
    if n == 0 {
        assert(text.take(0) == Seq::<char>::empty());
    } else {
        let rest = text.drop_first();
        assert forall|i: int| 0 <= i < n - 1 implies #[trigger] rest[i] != mark by {
            assert(rest[i] == text[i + 1]);
        }
        before_takes(rest, mark, n - 1);
        assert(seq![text.first()] + rest.take(n - 1) == text.take(n));
    }
}

/// The part of `text` before the first `mark`, or all of it where `mark` does not occur.
pub fn until(text: &str, mark: char) -> (r: String)
    ensures
        r@ == before(text@, mark),
{
    let chars = characters(text);
    let n: usize = chars.len();
    let mut to: usize = 0;
    while to < n && chars[to] != mark
        invariant
            n == chars@.len(),
            to <= n,
            forall|i: int| 0 <= i < to ==> #[trigger] chars@[i] != mark,
        decreases n - to,
    {
        to = to + 1;
    }
    proof {
        before_takes(chars@, mark, to as int);
        assert(chars@.take(to as int) == chars@.subrange(0, to as int));
    }
    text.substring_char(0, to).to_owned()
}

fn lower(c: char) -> (r: char)
    ensures
        r == ascii_lower(c),
{
    if 'A' <= c && c <= 'Z' {
        let code: u8 = c as u8;
        (code + 32) as char
    } else {
        c
    }
}

/// Whether `a` and `b` are the same text.
pub fn equal(a: &str, b: &str) -> (r: bool)
    ensures
        r == (a@ == b@),
{
    a.to_owned() == b.to_owned()
}

/// Whether `a` and `b` differ at most in the case of their ASCII letters.
pub fn equal_ignoring_case(a: &str, b: &str) -> (r: bool)
    ensures
        r == (ascii_lowered(a@) == ascii_lowered(b@)),
{
    let left = characters(a);
    let right = characters(b);
    if left.len() != right.len() {
        assert(ascii_lowered(a@).len() != ascii_lowered(b@).len());
        return false;
    }
    let n: usize = left.len();
    let mut at: usize = 0;
    while at < n
        invariant
            n == left@.len(),
            n == right@.len(),
            at <= n,
            left@ == a@,
            right@ == b@,
            forall|i: int|
                0 <= i < at ==> ascii_lower(#[trigger] left@[i]) == ascii_lower(right@[i]),
        decreases n - at,
    {
        if lower(left[at]) != lower(right[at]) {
            assert(ascii_lowered(a@)[at as int] != ascii_lowered(b@)[at as int]);
            return false;
        }
        at = at + 1;
    }
    assert(ascii_lowered(a@) == ascii_lowered(b@));
    true
}

/// `n` in decimal.
pub fn decimal_text(n: u8) -> (r: String)
    ensures
        r@ == decimal(n as nat),
{
    let digits = "0123456789";
    proof {
        reveal_strlit("0123456789");
        reveal_with_fuel(decimal, 3);
    }
    let ones: usize = (n % 10) as usize;
    let tens: usize = (n / 10 % 10) as usize;
    let hundreds: usize = (n / 100) as usize;
    let mut out = String::new();
    if n >= 100 {
        out.append(digits.substring_char(hundreds, hundreds + 1));
    }
    if n >= 10 {
        out.append(digits.substring_char(tens, tens + 1));
    }
    out.append(digits.substring_char(ones, ones + 1));
    assert(out@ == decimal(n as nat));
    out
}

/// Whether `a` comes before `b` in lexicographic order.
pub fn precedes(a: &str, b: &str) -> (r: bool)
    ensures
        r == ordered_before(a@, b@),
{
    let left = characters(a);
    let right = characters(b);
    let mut at: usize = 0;
    assert(left@.skip(0) == left@ && right@.skip(0) == right@);
    while at < left.len() && at < right.len() && left[at] == right[at]
        invariant
            at <= left@.len(),
            at <= right@.len(),
            ordered_before(left@, right@) == ordered_before(
                left@.skip(at as int),
                right@.skip(at as int),
            ),
        decreases left@.len() - at,
    {
        assert(left@.skip(at as int).drop_first() == left@.skip(at + 1));
        assert(right@.skip(at as int).drop_first() == right@.skip(at + 1));
        at = at + 1;
    }
    if at >= right.len() {
        false
    } else if at >= left.len() {
        true
    } else {
        left[at] < right[at]
    }
}

/// Two texts joined.
pub fn join2(a: &str, b: &str) -> (r: String)
    ensures
        r@ == a@ + b@,
{
    let mut out = a.to_owned();
    out.append(b);
    out
}

/// Three texts joined.
pub fn join3(a: &str, b: &str, c: &str) -> (r: String)
    ensures
        r@ == a@ + b@ + c@,
{
    let mut out = join2(a, b);
    out.append(c);
    out
}

/// Whether nothing but whitespace stands in `text` before `from` and from `to` on, and no whitespace
/// at either end of what stands between.
pub open spec fn trims_to(text: Seq<char>, from: int, to: int) -> bool {
    &&& 0 <= from <= to <= text.len()
    &&& forall|i: int| 0 <= i < from || to <= i < text.len() ==> is_whitespace(#[trigger] text[i])
    &&& from < to ==> !is_whitespace(text[from]) && !is_whitespace(text[to - 1])
}

/// Trimming leaves what stands between the whitespace at either end.
pub proof fn trimming_leaves_what_stands_between(text: Seq<char>, from: int, to: int)
    requires
        trims_to(text, from, to),
    ensures
        trimmed(text) == text.subrange(from, to),
{
    if from < to {
        trimmed_start_skips(text, from);
        let rest = text.skip(from);
        assert forall|i: int| to - from <= i < rest.len() implies is_whitespace(
            #[trigger] rest[i],
        ) by {
            assert(rest[i] == text[from + i]);
        }
        trimmed_end_takes(rest, to - from);
        assert(rest.take(to - from) == text.subrange(from, to));
    } else {
        trimmed_start_skips(text, text.len() as int);
        assert(text.skip(text.len() as int).len() == 0);
        assert(trimmed(text) =~= text.subrange(from, to));
    }
}

/// Every text has a place where the whitespace at its start ends, and one where that at its end
/// begins.
pub proof fn texts_can_be_trimmed(text: Seq<char>)
    ensures
        exists|from: int, to: int| trims_to(text, from, to),
    decreases text.len(),
{
    if text.len() == 0 {
        assert(trims_to(text, 0, 0));
    } else if is_whitespace(text.last()) {
        let rest = text.drop_last();
        texts_can_be_trimmed(rest);
        let (from, to) = choose|from: int, to: int| trims_to(rest, from, to);
        assert forall|i: int| 0 <= i < from || to <= i < text.len() implies is_whitespace(
            #[trigger] text[i],
        ) by {
            if i < rest.len() {
                assert(rest[i] == text[i]);
            }
        }
        assert(trims_to(text, from, to));
    } else if is_whitespace(text.first()) {
        let rest = text.drop_first();
        texts_can_be_trimmed(rest);
        let (from, to) = choose|from: int, to: int| trims_to(rest, from, to);
        assert(rest[rest.len() - 1] == text.last());
        assert(to == rest.len());
        assert forall|i: int| 0 <= i < from + 1 || to + 1 <= i < text.len() implies is_whitespace(
            #[trigger] text[i],
        ) by {
            if i > 0 {
                assert(rest[i - 1] == text[i]);
            }
        }
        assert(from < to);
        assert(rest[from] == text[from + 1]);
        assert(trims_to(text, from + 1, to + 1));
    } else {
        assert(trims_to(text, 0, text.len() as int));
    }
}

/// Nothing is left of a text if and only if it is all whitespace.
pub proof fn trimming_takes_whitespace_only(text: Seq<char>)
    ensures
        trimmed(text).len() == 0 <==> forall|i: int|
            0 <= i < text.len() ==> is_whitespace(#[trigger] text[i]),
{
    texts_can_be_trimmed(text);
    let (from, to) = choose|from: int, to: int| trims_to(text, from, to);
    trimming_leaves_what_stands_between(text, from, to);
    if from < to {
        assert(!is_whitespace(text[from]));
    }
}

/// What stands before a mark is the start of the text, without the mark, and goes on until the mark
/// comes or the text ends.
pub proof fn before_goes_on_until_the_mark(text: Seq<char>, mark: char)
    ensures
        before(text, mark).len() <= text.len(),
        before(text, mark) == text.take(before(text, mark).len() as int),
        forall|i: int| 0 <= i < before(text, mark).len() ==> #[trigger] text[i] != mark,
        before(text, mark).len() < text.len() ==> text[before(text, mark).len() as int] == mark,
    decreases text.len(),
{
    if text.len() > 0 && text.first() != mark {
        let rest = text.drop_first();
        before_goes_on_until_the_mark(rest, mark);
        let n = before(rest, mark).len() as int;
        assert(before(text, mark).len() == n + 1);
        assert(before(text, mark) =~= text.take(n + 1));
        assert forall|i: int| 0 <= i < n + 1 implies #[trigger] text[i] != mark by {
            if i > 0 {
                assert(rest[i - 1] == text[i]);
            }
        }
    } else {
        assert(before(text, mark) =~= text.take(0));
    }
}

/// What stands before a mark is found by looking for the first one.
pub proof fn before_is_what_stands_before(text: Seq<char>, mark: char, n: int)
    requires
        0 <= n <= text.len(),
        forall|i: int| 0 <= i < n ==> #[trigger] text[i] != mark,
        n == text.len() || text[n] == mark,
    ensures
        before(text, mark) == text.take(n),
{
    before_takes(text, mark, n);
}

/// Lower case changes the capital letters of ASCII, each to its small letter, and nothing else.
pub proof fn lower_case_changes_capitals_only(text: Seq<char>, i: int)
    requires
        0 <= i < text.len(),
    ensures
        ascii_lowered(text).len() == text.len(),
        65 <= text[i] as u32 <= 90 ==> ascii_lowered(text)[i] as u32 == text[i] as u32 + 32,
        !(65 <= text[i] as u32 <= 90) ==> ascii_lowered(text)[i] == text[i],
{
}

/// The number that decimal digits stand for.
pub open spec fn decimal_value(digits: Seq<char>) -> int
    decreases digits.len(),
{
    if digits.len() == 0 {
        0
    } else {
        decimal_value(digits.drop_last()) * 10 + (digits.last() as int - '0' as int)
    }
}

/// A number is written in digits that stand for it, without a zero that says nothing.
pub proof fn decimal_stands_for_its_number(n: nat)
    ensures
        decimal_value(decimal(n)) == n,
        decimal(n).len() > 0,
        forall|i: int| 0 <= i < decimal(n).len() ==> '0' <= #[trigger] decimal(n)[i] <= '9',
        n > 0 ==> decimal(n)[0] != '0',
        n == 0 ==> decimal(n).len() == 1,
    decreases n,
{
    reveal_with_fuel(decimal_value, 2);
    if n >= 10 {
        let rest = decimal(n / 10);
        decimal_stands_for_its_number(n / 10);
        assert(decimal(n).drop_last() =~= rest);
        assert forall|i: int| 0 <= i < decimal(n).len() implies '0' <= #[trigger] decimal(n)[i]
            <= '9' by {
            if i < rest.len() {
                assert(rest[i] == decimal(n)[i]);
            }
        }
        assert(decimal(n)[0] == rest[0]);
    } else {
        assert(decimal(n).drop_last() =~= Seq::<char>::empty());
    }
}

/// Two texts are ordered by the first place at which they differ; a text comes before every longer
/// one that starts with it.
pub proof fn order_is_by_the_first_difference(a: Seq<char>, b: Seq<char>, k: int)
    requires
        0 <= k <= a.len(),
        k <= b.len(),
        a.take(k) == b.take(k),
        k == a.len() || k == b.len() || a[k] != b[k],
    ensures
        ordered_before(a, b) <==> k < b.len() && (k == a.len() || a[k] < b[k]),
    decreases k,
{
    if k > 0 {
        let c = a.drop_first();
        let d = b.drop_first();
        assert(a.take(k)[0] == a[0] && b.take(k)[0] == b[0]);
        assert forall|i: int| 0 <= i < k - 1 implies #[trigger] c[i] == d[i] by {
            assert(a.take(k)[i + 1] == a[i + 1]);
            assert(b.take(k)[i + 1] == b[i + 1]);
            assert(c[i] == a[i + 1] && d[i] == b[i + 1]);
        }
        if k < a.len() {
            assert(c[k - 1] == a[k]);
        }
        if k < b.len() {
            assert(d[k - 1] == b[k]);
        }
        assert(c.take(k - 1) =~= d.take(k - 1));
        order_is_by_the_first_difference(c, d, k - 1);
    }
}

} // verus!
