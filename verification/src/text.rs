//! Character-level text utilities.
//!
//! The library does its string work over `Vec<char>`, whose view is a
//! `Seq<char>`; conversion to and from `String` happens at the edges.

use vstd::prelude::*;

verus! {

/// Relies on str::chars and Iterator::collect: the characters of a string
/// slice, in order.
#[verifier::external_body]
pub fn str_to_chars(s: &str) -> (r: Vec<char>)
    ensures
        r@ == s@,
{
    s.chars().collect()
}

/// Relies on String being a sequence of chars and FromIterator for String:
/// the string made of exactly the given characters, in order.
#[verifier::external_body]
pub fn chars_to_string(v: &Vec<char>) -> (r: String)
    ensures
        r@ == v@,
{
    v.iter().collect()
}

/// The decimal digits of `n`, most significant first, no leading zeros
/// (a single `'0'` for zero).
pub open spec fn dec_digits(n: nat) -> Seq<char>
    decreases n,
{
    if n < 10 {
        seq![digit_char(n as int)]
    } else {
        dec_digits(n / 10) + seq![digit_char((n % 10) as int)]
    }
}

/// The decimal text of a signed value: a minus sign before the digits of the
/// magnitude when negative.
pub open spec fn dec_int(i: int) -> Seq<char> {
    if i < 0 {
        seq!['-'] + dec_digits((-i) as nat)
    } else {
        dec_digits(i as nat)
    }
}

/// The character for one decimal digit.
pub open spec fn digit_char(d: int) -> char {
    if d == 0 {
        '0'
    } else if d == 1 {
        '1'
    } else if d == 2 {
        '2'
    } else if d == 3 {
        '3'
    } else if d == 4 {
        '4'
    } else if d == 5 {
        '5'
    } else if d == 6 {
        '6'
    } else if d == 7 {
        '7'
    } else if d == 8 {
        '8'
    } else {
        '9'
    }
}

fn digit_char_exec(d: u64) -> (r: char)
    requires
        d < 10,
    ensures
        r == digit_char(d as int),
{
    if d == 0 {
        '0'
    } else if d == 1 {
        '1'
    } else if d == 2 {
        '2'
    } else if d == 3 {
        '3'
    } else if d == 4 {
        '4'
    } else if d == 5 {
        '5'
    } else if d == 6 {
        '6'
    } else if d == 7 {
        '7'
    } else if d == 8 {
        '8'
    } else {
        '9'
    }
}

/// The decimal digits of `n`, most significant first.
pub fn u64_to_chars(n: u64) -> (r: Vec<char>)
    ensures
        r@ == dec_digits(n as nat),
{
    let mut rev: Vec<char> = Vec::new();
    let mut m: u64 = n;
    let mut done: bool = false;
    proof {
        assert(dec_digits(n as nat) =~= dec_digits(n as nat) + rev@.reverse());
    }
    while !done
        invariant
            !done ==> dec_digits(n as nat) == dec_digits(m as nat) + rev@.reverse(),
            done ==> dec_digits(n as nat) == rev@.reverse(),
        decreases m, if done { 0int } else { 1int },
    {
        let d: u64 = m % 10;
        let ghost old_m = m as nat;
        let ghost old_rev = rev@;
        rev.push(digit_char_exec(d));
        m = m / 10;
        proof {
            assert(rev@.reverse() =~= seq![digit_char(d as int)] + old_rev.reverse());
            if old_m < 10 {
                assert(dec_digits(old_m) == seq![digit_char(old_m as int)]);
                assert(dec_digits(n as nat) =~= rev@.reverse());
            } else {
                assert(dec_digits(old_m) == dec_digits(old_m / 10) + seq![
                    digit_char((old_m % 10) as int),
                ]);
                assert(dec_digits(old_m) + old_rev.reverse() =~= dec_digits(old_m / 10)
                    + rev@.reverse());
            }
        }
        if m == 0 {
            done = true;
        }
    }
    let mut out: Vec<char> = Vec::new();
    let mut i: usize = rev.len();
    while i > 0
        invariant
            i <= rev.len(),
            out@ == rev@.subrange(i as int, rev@.len() as int).reverse(),
        decreases i,
    {
        i = i - 1;
        out.push(rev[i]);
        proof {
            assert(rev@.subrange(i as int, rev@.len() as int).reverse() =~= rev@.subrange(
                i + 1,
                rev@.len() as int,
            ).reverse().push(rev@[i as int]));
        }
    }
    proof {
        assert(rev@.subrange(0, rev@.len() as int) =~= rev@);
        assert(out@ =~= dec_digits(n as nat));
    }
    out
}

/// The decimal text of a signed value.
pub fn i64_to_chars(i: i64) -> (r: Vec<char>)
    ensures
        r@ == dec_int(i as int),
{
    if i >= 0 {
        u64_to_chars(i as u64)
    } else {
        let m128: i128 = -(i as i128);
        let mag: u64 = m128 as u64;
        assert(mag as int == -(i as int));
        let mut out: Vec<char> = Vec::new();
        out.push('-');
        let digits = u64_to_chars(mag);
        let mut j: usize = 0;
        while j < digits.len()
            invariant
                j <= digits.len(),
                digits@ == dec_digits(mag as nat),
                out@ == seq!['-'] + digits@.subrange(0, j as int),
            decreases digits.len() - j,
        {
            out.push(digits[j]);
            j = j + 1;
            proof {
                assert(seq!['-'] + digits@.subrange(0, j as int) =~= (seq!['-'] + digits@.subrange(
                    0,
                    j - 1,
                )).push(digits@[j - 1]));
            }
        }
        proof {
            assert(digits@.subrange(0, digits@.len() as int) =~= digits@);
        }
        out
    }
}

/// Whether `needle` occurs as a contiguous run inside `hay`.
pub open spec fn spec_contains(hay: Seq<char>, needle: Seq<char>) -> bool {
    exists|k: int|
        0 <= k && k + needle.len() <= hay.len() && #[trigger] hay.subrange(k, k + needle.len())
            == needle
}

fn match_at(hay: &Vec<char>, needle: &Vec<char>, k: usize) -> (r: bool)
    requires
        k + needle@.len() <= hay@.len(),
    ensures
        r == (hay@.subrange(k as int, k + needle@.len()) == needle@),
{
    let hay_len: usize = hay.len();
    let mut j: usize = 0;
    while j < needle.len()
        invariant
            j <= needle@.len(),
            k + needle@.len() <= hay@.len(),
            hay_len == hay@.len(),
            forall|t: int| 0 <= t < j ==> hay@[k + t] == needle@[t],
        decreases needle@.len() - j,
    {
        if hay[k + j] != needle[j] {
            assert(hay@.subrange(k as int, k + needle@.len()) != needle@) by {
                assert(hay@.subrange(k as int, k + needle@.len())[j as int] == hay@[k + j]);
            }
            return false;
        }
        j = j + 1;
    }
    proof {
        assert(hay@.subrange(k as int, k + needle@.len()) =~= needle@);
    }
    true
}

/// Whether `needle` occurs as a contiguous run inside `hay`.
pub fn contains_chars(hay: &Vec<char>, needle: &Vec<char>) -> (r: bool)
    ensures
        r == spec_contains(hay@, needle@),
{
    if needle.len() > hay.len() {
        assert(!spec_contains(hay@, needle@));
        return false;
    }
    if needle.len() == 0 {
        proof {
            assert(hay@.subrange(0, 0 + needle@.len() as int) =~= needle@);
        }
        return true;
    }
    let bound: usize = hay.len() - needle.len() + 1;
    let mut k: usize = 0;
    while k < bound
        invariant
            0 < needle@.len() <= hay@.len(),
            bound == hay@.len() - needle@.len() + 1,
            k <= bound,
            forall|t: int|
                0 <= t < k ==> #[trigger] hay@.subrange(t, t + needle@.len()) != needle@,
        decreases bound - k,
    {
        if match_at(hay, needle, k) {
            return true;
        }
        k = k + 1;
    }
    false
}

/// Whether a character counts as blank space at the edges of a script.
pub open spec fn spec_is_space(c: char) -> bool {
    c == ' ' || c == '\t' || c == '\n' || c == '\r'
}

fn is_space(c: char) -> (r: bool)
    ensures
        r == spec_is_space(c),
{
    c == ' ' || c == '\t' || c == '\n' || c == '\r'
}

/// `s` with leading blank space removed.
pub open spec fn spec_trim_front(s: Seq<char>) -> Seq<char>
    decreases s.len(),
{
    if s.len() > 0 && spec_is_space(s[0]) {
        spec_trim_front(s.drop_first())
    } else {
        s
    }
}

/// `s` with trailing blank space removed.
pub open spec fn spec_trim_back(s: Seq<char>) -> Seq<char>
    decreases s.len(),
{
    if s.len() > 0 && spec_is_space(s[s.len() - 1]) {
        spec_trim_back(s.drop_last())
    } else {
        s
    }
}

/// `s` with blank space removed from both ends.
pub open spec fn spec_trim(s: Seq<char>) -> Seq<char> {
    spec_trim_back(spec_trim_front(s))
}

proof fn lemma_trim_front_range(s: Seq<char>, a: int)
    requires
        0 <= a <= s.len(),
        forall|t: int| 0 <= t < a ==> spec_is_space(s[t]),
        a < s.len() ==> !spec_is_space(s[a]),
    ensures
        spec_trim_front(s) == s.subrange(a, s.len() as int),
    decreases a,
{
    if a == 0 {
        if s.len() > 0 && spec_is_space(s[0]) {
            assert(false);
        }
        assert(s.subrange(0, s.len() as int) =~= s);
    } else {
        lemma_trim_front_range(s.drop_first(), a - 1);
        assert(s.drop_first().subrange(a - 1, s.drop_first().len() as int) =~= s.subrange(
            a,
            s.len() as int,
        ));
    }
}

proof fn lemma_trim_back_range(s: Seq<char>, b: int)
    requires
        0 <= b <= s.len(),
        forall|t: int| b <= t < s.len() ==> spec_is_space(s[t]),
        b > 0 ==> !spec_is_space(s[b - 1]),
    ensures
        spec_trim_back(s) == s.subrange(0, b),
    decreases s.len() - b,
{
    if b == s.len() {
        if s.len() > 0 && spec_is_space(s[s.len() - 1]) {
            assert(false);
        }
        assert(s.subrange(0, s.len() as int) =~= s);
    } else {
        lemma_trim_back_range(s.drop_last(), b);
        assert(s.drop_last().subrange(0, b) =~= s.subrange(0, b));
    }
}

/// The characters of `s` with blank space removed from both ends.
pub fn trim_chars(s: &Vec<char>) -> (r: Vec<char>)
    ensures
        r@ == spec_trim(s@),
{
    let mut a: usize = 0;
    while a < s.len() && is_space(s[a])
        invariant
            a <= s@.len(),
            forall|t: int| 0 <= t < a ==> spec_is_space(s@[t]),
        decreases s@.len() - a,
    {
        a = a + 1;
    }
    proof {
        lemma_trim_front_range(s@, a as int);
    }
    let ghost front = s@.subrange(a as int, s@.len() as int);
    let mut b: usize = s.len();
    while b > a && is_space(s[b - 1])
        invariant
            a <= b <= s@.len(),
            forall|t: int| b <= t < s@.len() ==> spec_is_space(s@[t]),
        decreases b,
    {
        b = b - 1;
    }
    proof {
        lemma_trim_back_range(front, b - a);
        assert(front.subrange(0, b - a) =~= s@.subrange(a as int, b as int));
    }
    let mut out: Vec<char> = Vec::new();
    let mut i: usize = a;
    while i < b
        invariant
            a <= i <= b <= s@.len(),
            out@ == s@.subrange(a as int, i as int),
        decreases b - i,
    {
        out.push(s[i]);
        i = i + 1;
        proof {
            assert(s@.subrange(a as int, i as int) =~= s@.subrange(a as int, i - 1).push(
                s@[i - 1],
            ));
        }
    }
    out
}

/// The lines of `s`: the runs between line endings, a newline or a
/// carriage return followed by a newline, with a final line ending closing
/// the last line rather than opening an empty one.
pub open spec fn spec_lines(s: Seq<char>) -> Seq<Seq<char>>
    decreases s.len(),
{
    if s.len() == 0 {
        Seq::empty()
    } else {
        let i = first_newline(s);
        if 0 <= i && i < s.len() {
            seq![strip_cr(s.subrange(0, i))] + spec_lines(s.subrange(i + 1, s.len() as int))
        } else {
            seq![s]
        }
    }
}

/// A line with one trailing carriage return removed: a newline closes both
/// plain and carriage-return-newline line endings.
pub open spec fn strip_cr(line: Seq<char>) -> Seq<char> {
    if line.len() > 0 && line[line.len() - 1] == '\r' {
        line.drop_last()
    } else {
        line
    }
}

/// The index of the first newline in `s`, or `s.len()` when there is none.
pub open spec fn first_newline(s: Seq<char>) -> int
    decreases s.len(),
{
    if s.len() == 0 {
        0
    } else if s[0] == '\n' {
        0
    } else {
        1 + first_newline(s.drop_first())
    }
}

proof fn lemma_first_newline(s: Seq<char>)
    ensures
        0 <= first_newline(s) <= s.len(),
        forall|t: int| 0 <= t < first_newline(s) ==> s[t] != '\n',
        first_newline(s) < s.len() ==> s[first_newline(s)] == '\n',
    decreases s.len(),
{
    if s.len() > 0 && s[0] != '\n' {
        lemma_first_newline(s.drop_first());
        assert forall|t: int| 0 <= t < first_newline(s) implies s[t] != '\n' by {
            if t > 0 {
                assert(s.drop_first()[t - 1] == s[t]);
                assert(s.drop_first()[t - 1] != '\n');
            }
        }
    }
}

/// The lines of `s`, each as its own character vector.
pub fn split_lines(s: &Vec<char>) -> (r: Vec<Vec<char>>)
    ensures
        r@.len() == spec_lines(s@).len(),
        forall|t: int| 0 <= t < r@.len() ==> r@[t]@ == spec_lines(s@)[t],
{
    let mut out: Vec<Vec<char>> = Vec::new();
    let ghost mut emitted: Seq<Seq<char>> = Seq::empty();
    let mut start: usize = 0;
    let mut cur: Vec<char> = Vec::new();
    let mut i: usize = 0;
    proof {
        assert(s@.subrange(0, s@.len() as int) =~= s@);
        assert(emitted + spec_lines(s@) =~= spec_lines(s@));
    }
    while i < s.len()
        invariant
            start <= i <= s@.len(),
            cur@ == s@.subrange(start as int, i as int),
            forall|t: int| start <= t < i ==> s@[t] != '\n',
            emitted.len() == out@.len(),
            forall|t: int| 0 <= t < out@.len() ==> out@[t]@ == emitted[t],
            spec_lines(s@) == emitted + spec_lines(s@.subrange(start as int, s@.len() as int)),
        decreases s@.len() - i,
    {
        let c = s[i];
        if c == '\n' {
            proof {
                let rest = s@.subrange(start as int, s@.len() as int);
                lemma_first_newline(rest);
                assert(rest[i - start] == '\n');
                assert(first_newline(rest) == i - start) by {
                    if first_newline(rest) < i - start {
                        assert(rest[first_newline(rest)] != '\n');
                        assert(false);
                    }
                    if first_newline(rest) > i - start {
                        assert(rest[i - start] != '\n');
                        assert(false);
                    }
                }
                assert(rest.subrange(0, i - start) =~= s@.subrange(start as int, i as int));
                assert(rest.subrange(i - start + 1, rest.len() as int) =~= s@.subrange(
                    i + 1,
                    s@.len() as int,
                ));
                assert(spec_lines(rest) == seq![strip_cr(cur@)] + spec_lines(
                    s@.subrange(i + 1, s@.len() as int),
                ));
                assert(emitted + spec_lines(rest) =~= (emitted + seq![strip_cr(cur@)])
                    + spec_lines(s@.subrange(i + 1, s@.len() as int)));
            }
            let ghost raw_line = cur@;
            if cur.len() > 0 && cur[cur.len() - 1] == '\r' {
                cur.pop();
            }
            proof {
                assert(cur@ == strip_cr(raw_line));
                emitted = emitted + seq![cur@];
            }
            out.push(cur);
            cur = Vec::new();
            start = i + 1;
            proof {
                assert(cur@ =~= s@.subrange(start as int, start as int));
            }
        } else {
            cur.push(c);
            proof {
                assert(s@.subrange(start as int, i + 1) =~= s@.subrange(
                    start as int,
                    i as int,
                ).push(s@[i as int]));
            }
        }
        i = i + 1;
    }
    if start < s.len() {
        proof {
            let rest = s@.subrange(start as int, s@.len() as int);
            lemma_first_newline(rest);
            assert(first_newline(rest) == rest.len()) by {
                if first_newline(rest) < rest.len() {
                    assert(rest[first_newline(rest)] != '\n');
                    assert(false);
                }
            }
            assert(rest =~= s@.subrange(start as int, i as int));
            assert(spec_lines(rest) == seq![rest]);
            assert(emitted + spec_lines(rest) =~= emitted + seq![cur@]);
        }
        proof {
            emitted = emitted + seq![cur@];
        }
        out.push(cur);
    } else {
        proof {
            assert(s@.subrange(start as int, s@.len() as int).len() == 0);
            assert(spec_lines(s@.subrange(start as int, s@.len() as int)) == Seq::<Seq<
                char,
            >>::empty());
            assert(emitted + Seq::<Seq<char>>::empty() =~= emitted);
        }
    }
    out
}

/// The value of a digit character, or 10 for any other character.
pub open spec fn digit_val(c: char) -> int {
    if c == '0' {
        0
    } else if c == '1' {
        1
    } else if c == '2' {
        2
    } else if c == '3' {
        3
    } else if c == '4' {
        4
    } else if c == '5' {
        5
    } else if c == '6' {
        6
    } else if c == '7' {
        7
    } else if c == '8' {
        8
    } else if c == '9' {
        9
    } else {
        10
    }
}

/// Whether every character of `s` is a decimal digit.
pub open spec fn all_digits(s: Seq<char>) -> bool {
    forall|t: int| 0 <= t < s.len() ==> digit_val(s[t]) < 10
}

/// The numeric value of a digit string, read most significant digit first.
pub open spec fn digits_val(s: Seq<char>) -> int
    decreases s.len(),
{
    if s.len() == 0 {
        0
    } else {
        digits_val(s.drop_last()) * 10 + digit_val(s[s.len() - 1])
    }
}

fn digit_of(c: char) -> (r: u64)
    ensures
        r == digit_val(c),
{
    if c == '0' {
        0
    } else if c == '1' {
        1
    } else if c == '2' {
        2
    } else if c == '3' {
        3
    } else if c == '4' {
        4
    } else if c == '5' {
        5
    } else if c == '6' {
        6
    } else if c == '7' {
        7
    } else if c == '8' {
        8
    } else if c == '9' {
        9
    } else {
        10
    }
}

/// Every character that the decimal writer emits is a digit.
pub proof fn lemma_dec_digits_all_digits(n: nat)
    ensures
        all_digits(dec_digits(n)),
        dec_digits(n).len() > 0,
    decreases n,
{
    if n < 10 {
        assert(digit_val(digit_char(n as int)) == n);
    } else {
        lemma_dec_digits_all_digits(n / 10);
        let head = dec_digits(n / 10);
        let whole = dec_digits(n);
        assert(digit_val(digit_char((n % 10) as int)) == n % 10);
        assert forall|t: int| 0 <= t < whole.len() implies digit_val(#[trigger] whole[t])
            < 10 by {
            if t < head.len() {
                assert(whole[t] == head[t]);
            }
        }
    }
}

/// Reading the decimal writer's digits gives the value back.
pub proof fn lemma_digits_val_of_dec_digits(n: nat)
    ensures
        digits_val(dec_digits(n)) == n,
    decreases n,
{
    if n < 10 {
        let one = dec_digits(n);
        assert(one.len() == 1);
        assert(one[0] == digit_char(n as int));
        assert(one.drop_last() =~= Seq::<char>::empty());
        assert(digits_val(Seq::<char>::empty()) == 0);
        assert(digits_val(one) == digits_val(one.drop_last()) * 10 + digit_val(one[0]));
        assert(digit_val(digit_char(n as int)) == n);
    } else {
        lemma_digits_val_of_dec_digits(n / 10);
        let whole = dec_digits(n);
        assert(whole.len() > 0);
        assert(whole.drop_last() =~= dec_digits(n / 10));
        assert(whole[whole.len() - 1] == digit_char((n % 10) as int));
        assert(digits_val(whole) == digits_val(whole.drop_last()) * 10 + digit_val(
            whole[whole.len() - 1],
        ));
        assert(digit_val(digit_char((n % 10) as int)) == n % 10);
        assert(digits_val(whole) == (n / 10) * 10 + (n % 10));
        assert(n == 10 * (n / 10) + (n % 10));
    }
}

/// A digit string's value only grows as more digits are read.
pub proof fn lemma_digits_val_prefix_le(s: Seq<char>, k: int)
    requires
        all_digits(s),
        0 <= k <= s.len(),
    ensures
        digits_val(s.subrange(0, k)) <= digits_val(s),
    decreases s.len() - k,
{
    assert(all_digits(s.subrange(0, k))) by {
        assert(forall|t: int|
            0 <= t < k ==> #[trigger] s.subrange(0, k)[t] == s[t]);
    }
    if k == s.len() {
        assert(s.subrange(0, k) =~= s);
    } else {
        lemma_digits_val_prefix_le(s, k + 1);
        let shorter = s.subrange(0, k);
        let longer = s.subrange(0, k + 1);
        assert(longer.drop_last() =~= shorter);
        lemma_digits_val_nonneg(shorter);
        assert(digits_val(longer) == digits_val(shorter) * 10 + digit_val(s[k]));
    }
}

pub proof fn lemma_digits_val_nonneg(s: Seq<char>)
    requires
        all_digits(s),
    ensures
        digits_val(s) >= 0,
    decreases s.len(),
{
    if s.len() > 0 {
        assert(all_digits(s.drop_last())) by {
            assert(forall|t: int| 0 <= t < s.len() - 1 ==> s.drop_last()[t] == s[t]);
        }
        lemma_digits_val_nonneg(s.drop_last());
    }
}

/// Reads an unsigned 16-bit decimal: succeeds exactly on nonempty digit
/// strings whose value fits, leading zeros allowed.
pub fn parse_u16(s: &Vec<char>) -> (r: Option<u16>)
    ensures
        match r {
            Some(v) => s@.len() > 0 && all_digits(s@) && digits_val(s@) == v as int,
            None => s@.len() == 0 || !all_digits(s@) || digits_val(s@) > u16::MAX as int,
        },
{
    if s.len() == 0 {
        return None;
    }
    let mut acc: u64 = 0;
    let mut i: usize = 0;
    while i < s.len()
        invariant
            i <= s@.len(),
            forall|t: int| 0 <= t < i ==> digit_val(s@[t]) < 10,
            acc <= 100000,
            if digits_val(s@.subrange(0, i as int)) <= u16::MAX as int {
                acc == digits_val(s@.subrange(0, i as int))
            } else {
                acc > u16::MAX as u64
            },
        decreases s@.len() - i,
    {
        let d: u64 = digit_of(s[i]);
        if d >= 10 {
            assert(!all_digits(s@));
            return None;
        }
        proof {
            let pre = s@.subrange(0, i as int);
            let cur = s@.subrange(0, i + 1);
            assert(cur.drop_last() =~= pre);
            assert(all_digits(pre));
            lemma_digits_val_nonneg(pre);
            assert(digits_val(cur) == digits_val(pre) * 10 + digit_val(s@[i as int]));
        }
        if acc > u16::MAX as u64 {
            acc = 100000;
        } else {
            acc = acc * 10 + d;
            if acc > 100000 {
                acc = 100000;
            }
        }
        i = i + 1;
    }
    proof {
        assert(s@.subrange(0, s@.len() as int) =~= s@);
    }
    if acc <= u16::MAX as u64 {
        Some(acc as u16)
    } else {
        None
    }
}

} // verus!
