//! Character-level text operations shared by the field parsers.

use vstd::prelude::*;
use vstd::string::*;

verus! {

/// Whether `c` is an ASCII decimal digit.
pub open spec fn is_digit(c: char) -> bool {
    '0' <= c && c <= '9'
}

/// The number that the digit `c` stands for.
pub open spec fn digit_value(c: char) -> int {
    c as int - '0' as int
}

/// The character that writes the digit `d`.
pub open spec fn digit_char(d: int) -> char {
    seq!['0', '1', '2', '3', '4', '5', '6', '7', '8', '9'][d]
}

/// `n` in decimal in exactly `width` digits, with zeros in front where it has
/// fewer, and without its leading digits where it has more.
pub open spec fn padded_text(n: nat, width: nat) -> Seq<char>
    decreases width,
{
    if width == 0 {
        Seq::empty()
    } else {
        padded_text(n / 10, (width - 1) as nat).push(digit_char((n % 10) as int))
    }
}

/// Whether every character of `s` is a decimal digit.
pub open spec fn all_digits(s: Seq<char>) -> bool {
    forall|i: int| 0 <= i < s.len() ==> is_digit(#[trigger] s[i])
}

/// The number written by the digit string `s`, most significant digit first.
pub open spec fn digits_value(s: Seq<char>) -> int
    decreases s.len(),
{
    if s.len() == 0 {
        0
    } else {
        digits_value(s.drop_last()) * 10 + digit_value(s.last())
    }
}

/// Whether `s` starts with a sign character.
pub open spec fn has_sign(s: Seq<char>) -> bool {
    s.len() > 0 && (s[0] == '-' || s[0] == '+')
}

/// The digits of `s`: what follows the sign, or all of `s` without one.
pub open spec fn unsigned_part(s: Seq<char>) -> Seq<char> {
    if has_sign(s) {
        s.skip(1)
    } else {
        s
    }
}

/// The integer written by `s` in decimal, without regard to any machine range:
/// an optional `+` or `-`, then one or more digits.
pub open spec fn signed_value(s: Seq<char>) -> int {
    if s.len() > 0 && s[0] == '-' {
        -digits_value(unsigned_part(s))
    } else {
        digits_value(unsigned_part(s))
    }
}

/// What parsing `s` as a 64-bit signed decimal integer gives: the value where
/// `s` is an optional sign followed by at least one digit and the value fits,
/// nothing otherwise.
pub open spec fn spec_parse_i64(s: Seq<char>) -> Option<i64> {
    if unsigned_part(s).len() > 0 && all_digits(unsigned_part(s)) && i64::MIN <= signed_value(s)
        <= i64::MAX {
        Some(signed_value(s) as i64)
    } else {
        None
    }
}

/// A digit string's value never drops when more digits follow.
pub proof fn lemma_digits_value_prefix(s: Seq<char>, k: int)
    requires
        all_digits(s),
        0 <= k <= s.len(),
    ensures
        0 <= digits_value(s.take(k)) <= digits_value(s),
    decreases s.len() - k,
{
    if k == s.len() {
        assert(s.take(k) == s);
        lemma_digits_value_nonnegative(s);
    } else {
        lemma_digits_value_prefix(s, k + 1);
        assert(s.take(k + 1).drop_last() == s.take(k));
        assert(is_digit(s[k]));
        assert(s.take(k + 1).last() == s[k]);
        lemma_digits_value_nonnegative(s.take(k));
    }
}

/// A digit string never stands for a negative number.
pub proof fn lemma_digits_value_nonnegative(s: Seq<char>)
    requires
        all_digits(s),
    ensures
        0 <= digits_value(s),
    decreases s.len(),
{
    if s.len() > 0 {
        assert(is_digit(s[s.len() - 1]));
        lemma_digits_value_nonnegative(s.drop_last());
    }
}

/// Parses a decimal integer as `str::parse::<i64>` does: an optional sign, then
/// digits only, and a value within the range of `i64`.
pub fn parse_i64(text: &str) -> (r: Option<i64>)
    ensures
        r == spec_parse_i64(text@),
{
    let n: usize = text.unicode_len();
    if n == 0 {
        return None;
    }
    let first: char = text.get_char(0);
    let negative: bool = first == '-';
    let start: usize = if first == '-' || first == '+' {
        1
    } else {
        0
    };
    if start == n {
        return None;
    }
    let ghost body = unsigned_part(text@);
    let limit: u128 = if negative {
        9223372036854775808u128
    } else {
        9223372036854775807u128
    };
    let mut acc: u128 = 0;
    let mut i: usize = start;
    while i < n
        invariant
            start <= i <= n,
            n == text@.len(),
            body == text@.skip(start as int),
            body == unsigned_part(text@),
            negative == (text@[0] == '-'),
            limit == if negative {
                9223372036854775808u128
            } else {
                9223372036854775807u128
            },
            forall|j: int| 0 <= j < i - start ==> is_digit(#[trigger] body[j]),
            acc == digits_value(body.take(i - start)),
            acc <= limit,
        decreases n - i,
    {
        let c: char = text.get_char(i);
        assert(body[i - start] == c);
        if !('0' <= c && c <= '9') {
            return None;
        }
        let d: u128 = (c as u32 - '0' as u32) as u128;
        proof {
            let next = body.take(i - start + 1);
            assert(next.drop_last() == body.take(i - start));
            assert(next.last() == c);
        }
        acc = acc * 10 + d;
        if acc > limit {
            proof {
                let k = i - start + 1;
                if all_digits(body) {
                    lemma_digits_value_prefix(body, k);
                }
            }
            return None;
        }
        i = i + 1;
    }
    assert(body.take(i - start) == body);
    if negative {
        if acc == 9223372036854775808u128 {
            Some(i64::MIN)
        } else {
            let m: i64 = acc as i64;
            Some(-m)
        }
    } else {
        Some(acc as i64)
    }
}

/// The position of the first `c` in `s`, or the length of `s` where it holds none.
pub open spec fn first_index_of(s: Seq<char>, c: char) -> int
    decreases s.len(),
{
    if s.len() == 0 || s[0] == c {
        0
    } else {
        1 + first_index_of(s.skip(1), c)
    }
}

/// What stands in `s` before its first `c`: all of `s` where it holds none.
pub open spec fn before_first(s: Seq<char>, c: char) -> Seq<char> {
    s.take(first_index_of(s, c))
}

/// What stands in `s` after its first `c`, if it holds one.
pub open spec fn after_first(s: Seq<char>, c: char) -> Option<Seq<char>> {
    if first_index_of(s, c) < s.len() {
        Some(s.skip(first_index_of(s, c) + 1))
    } else {
        None
    }
}

/// `first_index_of` is within bounds, nothing before it is `c`, and `c` stands
/// at it unless it is the length.
pub proof fn lemma_first_index_of(s: Seq<char>, c: char)
    ensures
        0 <= first_index_of(s, c) <= s.len(),
        forall|j: int| 0 <= j < first_index_of(s, c) ==> s[j] != c,
        first_index_of(s, c) < s.len() ==> s[first_index_of(s, c)] == c,
    decreases s.len(),
{
    if s.len() != 0 && s[0] != c {
        let rest = s.skip(1);
        lemma_first_index_of(rest, c);
        assert forall|j: int| 0 <= j < first_index_of(s, c) implies s[j] != c by {
            if j > 0 {
                assert(rest[j - 1] == s[j]);
            }
        }
        if first_index_of(s, c) < s.len() {
            assert(rest[first_index_of(rest, c)] == s[first_index_of(s, c)]);
        }
    }
}

/// A position with `c` at it and none before it is the first position of `c`.
pub proof fn lemma_first_index_of_unique(s: Seq<char>, c: char, k: int)
    requires
        0 <= k <= s.len(),
        forall|j: int| 0 <= j < k ==> s[j] != c,
        k < s.len() ==> s[k] == c,
    ensures
        first_index_of(s, c) == k,
{
    lemma_first_index_of(s, c);
    let f = first_index_of(s, c);
    if f < k {
        assert(s[f] != c);
    }
}

/// The predicate that keeps every character but `a` and `b`.
pub open spec fn neither(a: char, b: char) -> spec_fn(char) -> bool {
    |c: char| c != a && c != b
}

/// `s` with every `a` and every `b` taken out.
pub open spec fn without_chars(s: Seq<char>, a: char, b: char) -> Seq<char> {
    s.filter(neither(a, b))
}

/// The predicate that keeps `c` alone.
pub open spec fn only(c: char) -> spec_fn(char) -> bool {
    |x: char| x == c
}

/// How often `c` occurs in `s`.
pub open spec fn count_of(s: Seq<char>, c: char) -> nat {
    s.filter(only(c)).len()
}

/// A number written in digits holds no character that is no digit.
pub proof fn lemma_padded_text_holds_digits_only(n: nat, width: nat, c: char)
    requires
        !is_digit(c),
    ensures
        padded_text(n, width).len() == width,
        count_of(padded_text(n, width), c) == 0,
    decreases width,
{
    reveal(Seq::filter);
    if width > 0 {
        let head = padded_text(n / 10, (width - 1) as nat);
        let d = (n % 10) as int;
        lemma_padded_text_holds_digits_only(n / 10, (width - 1) as nat, c);
        assert(is_digit(digit_char(d)));
        assert(head.push(digit_char(d)).drop_last() =~= head);
    }
}

/// Whether `pat` stands in `s` at position `i`.
pub open spec fn occurs_at(s: Seq<char>, pat: Seq<char>, i: int) -> bool {
    0 <= i && i + pat.len() <= s.len() && s.subrange(i, i + pat.len()) == pat
}

/// Whether `pat` stands somewhere in `s`.
pub open spec fn contains_text(s: Seq<char>, pat: Seq<char>) -> bool {
    exists|i: int| occurs_at(s, pat, i)
}

/// `s` with every occurrence of `pat` taken out, found from left to right and
/// without overlap, as `str::replace` with an empty replacement does. An empty
/// `pat` takes nothing out.
pub open spec fn without_text(s: Seq<char>, pat: Seq<char>) -> Seq<char>
    decreases s.len(),
{
    if pat.len() == 0 || s.len() < pat.len() {
        s
    } else if occurs_at(s, pat, 0) {
        without_text(s.skip(pat.len() as int), pat)
    } else {
        seq![s[0]] + without_text(s.skip(1), pat)
    }
}

/// The position of the first `c` in `text`, or the length of `text` in
/// characters where it holds none.
pub fn find_char(text: &str, c: char) -> (r: usize)
    ensures
        r == first_index_of(text@, c),
        r <= text@.len(),
{
    let n: usize = text.unicode_len();
    let mut i: usize = 0;
    while i < n
        invariant
            i <= n,
            n == text@.len(),
            forall|j: int| 0 <= j < i ==> text@[j] != c,
        decreases n - i,
    {
        if text.get_char(i) == c {
            proof {
                lemma_first_index_of_unique(text@, c, i as int);
            }
            return i;
        }
        i = i + 1;
    }
    proof {
        lemma_first_index_of_unique(text@, c, n as int);
    }
    n
}

/// Whether the two texts hold the same characters.
pub fn same_text(a: &str, b: &str) -> (r: bool)
    ensures
        r == (a@ == b@),
{
    let n: usize = a.unicode_len();
    if b.unicode_len() != n {
        return false;
    }
    let mut i: usize = 0;
    while i < n
        invariant
            i <= n,
            n == a@.len(),
            n == b@.len(),
            forall|j: int| 0 <= j < i ==> a@[j] == b@[j],
        decreases n - i,
    {
        if a.get_char(i) != b.get_char(i) {
            return false;
        }
        i = i + 1;
    }
    assert(a@ =~= b@);
    true
}

/// Copies `text` without any `a` and any `b`.
pub fn remove_chars(text: &str, a: char, b: char) -> (r: String)
    ensures
        r@ == without_chars(text@, a, b),
{
    let n: usize = text.unicode_len();
    let mut out = String::new();
    let mut i: usize = 0;
    proof {
        reveal(Seq::filter);
        assert(text@.take(0) =~= Seq::<char>::empty());
    }
    while i < n
        invariant
            i <= n,
            n == text@.len(),
            out@ == text@.take(i as int).filter(neither(a, b)),
        decreases n - i,
    {
        let c: char = text.get_char(i);
        proof {
            reveal(Seq::filter);
            let next = text@.take(i + 1);
            assert(next.drop_last() =~= text@.take(i as int));
            assert(next.last() == c);
            assert(text@.subrange(i as int, i + 1) =~= seq![c]);
            assert(out@ + seq![c] =~= out@.push(c));
        }
        if c != a && c != b {
            out.append(text.substring_char(i, i + 1));
        }
        i = i + 1;
    }
    assert(text@.take(n as int) =~= text@);
    out
}

/// How often `c` occurs in `text`.
pub fn count_char(text: &str, c: char) -> (r: usize)
    ensures
        r == count_of(text@, c),
{
    let n: usize = text.unicode_len();
    let mut found: usize = 0;
    let mut i: usize = 0;
    proof {
        reveal(Seq::filter);
        assert(text@.take(0) =~= Seq::<char>::empty());
    }
    while i < n
        invariant
            i <= n,
            n == text@.len(),
            found == text@.take(i as int).filter(only(c)).len(),
            found <= i,
        decreases n - i,
    {
        proof {
            reveal(Seq::filter);
            let next = text@.take(i + 1);
            assert(next.drop_last() =~= text@.take(i as int));
            assert(next.last() == text@[i as int]);
        }
        if text.get_char(i) == c {
            found = found + 1;
        }
        i = i + 1;
    }
    assert(text@.take(n as int) =~= text@);
    found
}


/// Whether `pat` stands in `text` at character position `at`.
pub fn matches_at(text: &str, pat: &str, at: usize) -> (r: bool)
    ensures
        r == occurs_at(text@, pat@, at as int),
{
    let n: usize = text.unicode_len();
    let m: usize = pat.unicode_len();
    if at > n || m > n - at {
        return false;
    }
    let mut j: usize = 0;
    while j < m
        invariant
            j <= m,
            at + m <= n,
            n == text@.len(),
            m == pat@.len(),
            forall|k: int| 0 <= k < j ==> text@[at + k] == pat@[k],
        decreases m - j,
    {
        if text.get_char(at + j) != pat.get_char(j) {
            assert(text@.subrange(at as int, at + m)[j as int] == text@[at + j]);
            return false;
        }
        j = j + 1;
    }
    assert(text@.subrange(at as int, at + m) =~= pat@);
    true
}

/// Whether `pat` stands somewhere in `text`.
pub fn has_text(text: &str, pat: &str) -> (r: bool)
    ensures
        r == contains_text(text@, pat@),
{
    let n: usize = text.unicode_len();
    let mut i: usize = 0;
    while i <= n
        invariant
            i <= n + 1,
            n == text@.len(),
            forall|k: int| 0 <= k < i ==> !occurs_at(text@, pat@, k),
        decreases n + 1 - i,
    {
        if matches_at(text, pat, i) {
            return true;
        }
        if i == n {
            return false;
        }
        i = i + 1;
    }
    false
}

/// Copies `text` without the occurrences of `pat`.
pub fn remove_text(text: &str, pat: &str) -> (r: String)
    ensures
        r@ == without_text(text@, pat@),
{
    let n: usize = text.unicode_len();
    let m: usize = pat.unicode_len();
    if m == 0 {
        return String::from_str(text);
    }
    let mut out = String::new();
    let mut i: usize = 0;
    assert(text@.skip(0) =~= text@);
    while i < n && m <= n - i
        invariant
            i <= n,
            0 < m,
            n == text@.len(),
            m == pat@.len(),
            out@ + without_text(text@.skip(i as int), pat@) == without_text(text@, pat@),
        decreases n - i,
    {
        let ghost rest = text@.skip(i as int);
        if matches_at(text, pat, i) {
            proof {
                assert(rest.subrange(0, m as int) =~= text@.subrange(i as int, i + m));
                assert(rest.skip(m as int) =~= text@.skip(i + m));
            }
            i = i + m;
        } else {
            proof {
                assert(rest.subrange(0, m as int) =~= text@.subrange(i as int, i + m));
                assert(rest.skip(1) =~= text@.skip(i + 1));
                assert(text@.subrange(i as int, i + 1) =~= seq![rest[0]]);
                let tail = without_text(rest.skip(1), pat@);
                assert(out@ + (seq![rest[0]] + tail) =~= (out@ + seq![rest[0]]) + tail);
            }
            out.append(text.substring_char(i, i + 1));
            i = i + 1;
        }
    }
    proof {
        assert(text@.subrange(i as int, n as int) =~= text@.skip(i as int));
    }
    out.append(text.substring_char(i, n));
    out
}


} // verus!
