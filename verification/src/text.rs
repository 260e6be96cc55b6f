//! Characters, numerals and substrings.
//!
//! The specifications speak of the characters of a string (`s@`), never of its
//! bytes.

use vstd::prelude::*;

verus! {

// ---------------------------------------------------------------------------
// Specifications
// ---------------------------------------------------------------------------

/// The value of `c` as a digit: `0` to `9`, then `a` to `z` in either case.
pub open spec fn digit_value(c: char) -> Option<int> {
    if '0' <= c && c <= '9' {
        Some(c as int - '0' as int)
    } else if 'a' <= c && c <= 'z' {
        Some(c as int - 'a' as int + 10)
    } else if 'A' <= c && c <= 'Z' {
        Some(c as int - 'A' as int + 10)
    } else {
        None
    }
}

/// Whether `c` is a digit of the given radix.
pub open spec fn is_digit(c: char, radix: int) -> bool {
    digit_value(c) is Some && digit_value(c)->0 < radix
}

/// The number that the digits `s` write in the given radix, most significant
/// digit first.
pub open spec fn digits_value(s: Seq<char>, radix: int) -> int
    decreases s.len(),
{
    if s.len() == 0 {
        0
    } else {
        digits_value(s.drop_last(), radix) * radix + digit_value(s.last())->0
    }
}

/// `s` without one leading `+`, where it has one.
pub open spec fn without_plus(s: Seq<char>) -> Seq<char> {
    if s.len() > 0 && s[0] == '+' {
        s.skip(1)
    } else {
        s
    }
}

/// The unsigned number that `s` writes in the given radix: an optional `+`,
/// then at least one digit, then nothing else; at most `max`.
pub open spec fn unsigned_value(s: Seq<char>, radix: int, max: int) -> Option<int> {
    let digits = without_plus(s);
    if digits.len() > 0 && (forall|i: int|
        0 <= i < digits.len() ==> is_digit(#[trigger] digits[i], radix)) && digits_value(
        digits,
        radix,
    ) <= max {
        Some(digits_value(digits, radix))
    } else {
        None
    }
}

/// `s` after every repetition of `prefix` at its start is taken away.
pub open spec fn without_prefixes(s: Seq<char>, prefix: Seq<char>) -> Seq<char>
    decreases s.len(),
{
    if prefix.len() > 0 && prefix.len() <= s.len() && s.take(prefix.len() as int) == prefix {
        without_prefixes(s.skip(prefix.len() as int), prefix)
    } else {
        s
    }
}

/// Whether `needle` occurs in `s`.
pub open spec fn has_substring(s: Seq<char>, needle: Seq<char>) -> bool {
    exists|i: int| #[trigger] occurs_at(s, needle, i)
}

/// Whether `needle` occurs in `s` from index `i` on.
pub open spec fn occurs_at(s: Seq<char>, needle: Seq<char>, i: int) -> bool {
    0 <= i && i + needle.len() <= s.len() && s.subrange(i, i + needle.len()) == needle
}

/// `c` with an ASCII capital replaced by its small letter.
pub open spec fn ascii_lower(c: char) -> char {
    if 'A' <= c && c <= 'Z' {
        (c as u8 + 32) as char
    } else {
        c
    }
}

/// `s` with every ASCII capital replaced by its small letter.
pub open spec fn ascii_lowercase(s: Seq<char>) -> Seq<char> {
    s.map_values(|c: char| ascii_lower(c))
}

// ---------------------------------------------------------------------------
// Lemmas
// ---------------------------------------------------------------------------

/// Digits write no negative number.
proof fn lemma_digits_value_nonneg(s: Seq<char>, radix: int)
    requires
        radix >= 1,
        forall|i: int| 0 <= i < s.len() ==> is_digit(#[trigger] s[i], radix),
    ensures
        digits_value(s, radix) >= 0,
    decreases s.len(),
{
    if s.len() > 0 {
        lemma_digits_value_nonneg(s.drop_last(), radix);
        assert(is_digit(s.last(), radix));
        assert(digits_value(s.drop_last(), radix) * radix >= 0) by (nonlinear_arith)
            requires
                digits_value(s.drop_last(), radix) >= 0,
                radix >= 1,
        ;
    }
}

/// Further digits never make a number smaller.
proof fn lemma_digits_value_grows(s: Seq<char>, radix: int, n: int)
    requires
        radix >= 1,
        0 <= n <= s.len(),
        forall|i: int| 0 <= i < s.len() ==> is_digit(#[trigger] s[i], radix),
    ensures
        digits_value(s.take(n), radix) <= digits_value(s, radix),
    decreases s.len() - n,
{
    if n == s.len() {
        assert(s.take(n) =~= s);
    } else {
        let shorter = s.take(n);
        let longer = s.take(n + 1);
        assert(longer.drop_last() =~= shorter);
        assert(longer.last() == s[n]);
        assert(is_digit(s[n], radix));
        lemma_digits_value_nonneg(shorter, radix);
        assert(digits_value(shorter, radix) * radix >= digits_value(shorter, radix))
            by (nonlinear_arith)
            requires
                digits_value(shorter, radix) >= 0,
                radix >= 1,
        ;
        lemma_digits_value_grows(s, radix, n + 1);
    }
}

// ---------------------------------------------------------------------------
// Executable functions
// ---------------------------------------------------------------------------

/// Compares two strings.
pub fn same_text(a: &str, b: &str) -> (r: bool)
    ensures
        r == (a@ == b@),
{
    a.to_owned() == b.to_owned()
}

/// The characters of `s`, in order.
pub fn chars_of(s: &str) -> (v: Vec<char>)
    ensures
        v@ == s@,
{
    let mut v: Vec<char> = Vec::new();
    for c in it: s.chars()
        invariant
            it.seq() == s@,
            v@ == it.seq().take(it.index()),
    {
        v.push(c);
    }
    v
}

/// The value of `c` as a digit.
fn digit_of(c: char) -> (d: Option<u32>)
    ensures
        d is Some <==> digit_value(c) is Some,
        d is Some ==> d->0 == digit_value(c)->0 && d->0 < 36,
{
    if '0' <= c && c <= '9' {
        Some(c as u32 - '0' as u32)
    } else if 'a' <= c && c <= 'z' {
        Some(c as u32 - 'a' as u32 + 10)
    } else if 'A' <= c && c <= 'Z' {
        Some(c as u32 - 'A' as u32 + 10)
    } else {
        None
    }
}

/// Reads the unsigned number that the characters of `s` from `start` on write.
fn parse_digits(s: &Vec<char>, start: usize, radix: u32, max: u64) -> (r: Option<u64>)
    requires
        2 <= radix <= 36,
        start <= s@.len(),
    ensures
        ({
            let digits = s@.skip(start as int);
            if digits.len() > 0 && (forall|i: int|
                0 <= i < digits.len() ==> is_digit(#[trigger] digits[i], radix as int))
                && digits_value(digits, radix as int) <= max {
                r is Some && r->0 == digits_value(digits, radix as int)
            } else {
                r is None
            }
        }),
{
    let ghost digits = s@.skip(start as int);
    if start == s.len() {
        return None;
    }
    let mut acc: u64 = 0;
    let mut i: usize = start;
    assert(digits.take(0) =~= Seq::<char>::empty());
    while i < s.len()
        invariant
            2 <= radix <= 36,
            start <= i <= s@.len(),
            digits == s@.skip(start as int),
            acc <= max,
            forall|j: int| 0 <= j < i - start ==> is_digit(#[trigger] digits[j], radix as int),
            acc == digits_value(digits.take(i - start), radix as int),
        decreases s@.len() - i,
    {
        let d: u32 = match digit_of(s[i]) {
            Some(d) => d,
            None => {
                assert(!is_digit(digits[i - start], radix as int));
                return None;
            },
        };
        if d >= radix {
            assert(!is_digit(digits[i - start], radix as int));
            return None;
        }
        assert(acc as int * radix as int + d as int <= 0xffff_ffff_ffff_ffff * 36 + 36)
            by (nonlinear_arith)
            requires
                acc <= 0xffff_ffff_ffff_ffff,
                radix <= 36,
                d < 36,
        ;
        assert(acc as int * radix as int >= 0) by (nonlinear_arith)
            requires
                acc >= 0,
                radix >= 0,
        ;
        let next: u128 = acc as u128 * radix as u128 + d as u128;
        proof {
            let longer = digits.take(i - start + 1);
            assert(longer.drop_last() =~= digits.take(i - start));
            assert(longer.last() == digits[i - start]);
            assert(is_digit(digits[i - start], radix as int));
            assert(next == digits_value(longer, radix as int));
        }
        if next > max as u128 {
            proof {
                if forall|j: int|
                    0 <= j < digits.len() ==> is_digit(#[trigger] digits[j], radix as int) {
                    lemma_digits_value_grows(digits, radix as int, i - start + 1);
                }
            }
            return None;
        }
        acc = next as u64;
        i = i + 1;
    }
    assert(digits.take(i - start) =~= digits);
    Some(acc)
}

/// Reads an unsigned number of at most `max` in the given radix: an optional
/// `+`, then digits and nothing else.
pub fn parse_unsigned(s: &Vec<char>, radix: u32, max: u64) -> (r: Option<u64>)
    requires
        2 <= radix <= 36,
    ensures
        r is Some <==> unsigned_value(s@, radix as int, max as int) is Some,
        r is Some ==> r->0 == unsigned_value(s@, radix as int, max as int)->0,
{
    if s.len() > 0 && s[0] == '+' {
        parse_digits(s, 1, radix, max)
    } else {
        assert(s@.skip(0) =~= s@);
        parse_digits(s, 0, radix, max)
    }
}

/// Whether `needle` stands in `s` from index `at` on.
fn matches_at(s: &Vec<char>, needle: &Vec<char>, at: usize) -> (r: bool)
    ensures
        r == occurs_at(s@, needle@, at as int),
{
    if at > s.len() || needle.len() > s.len() - at {
        return false;
    }
    let len: usize = s.len();
    let mut i: usize = 0;
    while i < needle.len()
        invariant
            len == s@.len(),
            at + needle@.len() <= s@.len(),
            i <= needle@.len(),
            forall|j: int| 0 <= j < i ==> s@[at + j] == #[trigger] needle@[j],
        decreases needle@.len() - i,
    {
        if s[at + i] != needle[i] {
            assert(s@.subrange(at as int, at + needle@.len())[i as int] != needle@[i as int]);
            return false;
        }
        i = i + 1;
    }
    assert(s@.subrange(at as int, at + needle@.len()) =~= needle@);
    true
}

/// Whether `needle` occurs in `s`.
pub fn contains(s: &Vec<char>, needle: &Vec<char>) -> (r: bool)
    ensures
        r == has_substring(s@, needle@),
{
    let mut i: usize = 0;
    while i < s.len()
        invariant
            i <= s@.len(),
            forall|j: int| 0 <= j < i ==> !#[trigger] occurs_at(s@, needle@, j),
        decreases s@.len() - i,
    {
        if matches_at(s, needle, i) {
            return true;
        }
        i = i + 1;
    }
    let r: bool = matches_at(s, needle, i);
    proof {
        if !r && has_substring(s@, needle@) {
            let j = choose|j: int| #[trigger] occurs_at(s@, needle@, j);
            assert(j <= i);
        }
    }
    r
}

/// The characters of `s` left when every repetition of `prefix` at its start
/// is taken away.
pub fn trim_prefixes(s: &Vec<char>, prefix: &Vec<char>) -> (r: Vec<char>)
    ensures
        r@ == without_prefixes(s@, prefix@),
{
    let len: usize = s.len();
    let mut at: usize = 0;
    assert(s@.skip(0) =~= s@);
    while prefix.len() > 0 && matches_at(s, prefix, at)
        invariant
            len == s@.len(),
            at <= s@.len(),
            without_prefixes(s@, prefix@) == without_prefixes(s@.skip(at as int), prefix@),
        decreases s@.len() - at,
    {
        proof {
            let rest = s@.skip(at as int);
            assert(rest.take(prefix@.len() as int) =~= s@.subrange(
                at as int,
                at + prefix@.len(),
            ));
            assert(rest.skip(prefix@.len() as int) =~= s@.skip(at + prefix@.len()));
        }
        at = at + prefix.len();
    }
    proof {
        let rest = s@.skip(at as int);
        if prefix@.len() > 0 && prefix@.len() <= rest.len() {
            assert(rest.take(prefix@.len() as int) =~= s@.subrange(
                at as int,
                at + prefix@.len(),
            ));
        }
    }
    let mut r: Vec<char> = Vec::new();
    let mut i: usize = at;
    while i < s.len()
        invariant
            at <= i <= s@.len(),
            r@ == s@.subrange(at as int, i as int),
        decreases s@.len() - i,
    {
        r.push(s[i]);
        i = i + 1;
    }
    assert(r@ =~= s@.skip(at as int));
    r
}

/// The characters of `s` with ASCII capitals made small.
pub fn lowercase(s: &Vec<char>) -> (r: Vec<char>)
    ensures
        r@ == ascii_lowercase(s@),
        r@.len() == s@.len(),
        forall|i: int|
            0 <= i < s@.len() ==> #[trigger] r@[i] as int == if 'A' <= s@[i] && s@[i] <= 'Z' {
                s@[i] as int + 32
            } else {
                s@[i] as int
            },
{
    let mut r: Vec<char> = Vec::new();
    let mut i: usize = 0;
    while i < s.len()
        invariant
            i <= s@.len(),
            r@.len() == i,
            forall|j: int| 0 <= j < i ==> r@[j] == ascii_lower(#[trigger] s@[j]),
        decreases s@.len() - i,
    {
        let c: char = s[i];
        if 'A' <= c && c <= 'Z' {
            r.push((c as u8 + 32) as char);
        } else {
            r.push(c);
        }
        i = i + 1;
    }
    assert(r@ =~= ascii_lowercase(s@));
    r
}

// ---------------------------------------------------------------------------
// Laws
// ---------------------------------------------------------------------------

/// The digit of a number below 36.
pub open spec fn digit_char(n: int) -> char {
    if n < 10 {
        ('0' as int + n) as char
    } else {
        ('a' as int + n - 10) as char
    }
}

/// The shortest numeral of a number.
pub open spec fn numeral(n: nat, radix: nat) -> Seq<char>
    decreases n,
{
    if n < radix || radix < 2 {
        seq![digit_char(n as int)]
    } else {
        proof {
            assert(n / radix < n) by (nonlinear_arith)
                requires
                    2 <= radix <= n,
            ;
        }
        numeral(n / radix, radix).push(digit_char((n % radix) as int))
    }
}

/// A numeral consists of digits and has its number as their value.
pub(crate) proof fn lemma_numeral(n: nat, radix: nat)
    requires
        2 <= radix <= 36,
    ensures
        numeral(n, radix).len() > 0,
        forall|i: int|
            0 <= i < numeral(n, radix).len() ==> is_digit(
                #[trigger] numeral(n, radix)[i],
                radix as int,
            ),
        digits_value(numeral(n, radix), radix as int) == n,
    decreases n,
{
    let s = numeral(n, radix);
    if n < radix {
        assert(s.drop_last() =~= Seq::empty());
        assert(digits_value(Seq::<char>::empty(), radix as int) == 0);
        assert(digits_value(s, radix as int) == 0 * radix + n);
    } else {
        let shorter = numeral(n / radix, radix);
        assert(n / radix < n) by (nonlinear_arith)
            requires
                2 <= radix <= n,
        ;
        lemma_numeral(n / radix, radix);
        assert(s.drop_last() =~= shorter);
        vstd::arithmetic::div_mod::lemma_fundamental_div_mod(n as int, radix as int);
        vstd::arithmetic::div_mod::lemma_mod_bound(n as int, radix as int);
        assert(digits_value(s, radix as int) == (n / radix) * radix + n % radix);
        assert((n / radix) * radix == radix * (n / radix)) by (nonlinear_arith);
        assert forall|i: int| 0 <= i < s.len() implies is_digit(#[trigger] s[i], radix as int) by {
            if i < shorter.len() {
                assert(s[i] == shorter[i]);
            }
        }
    }
}

/// The numeral of a number reads back as that number, with or without a `+`
/// before it, where the number is not too large, and is refused where it is.
pub proof fn law_numerals_read_back(n: nat, radix: nat, max: nat)
    requires
        2 <= radix <= 36,
    ensures
        unsigned_value(numeral(n, radix), radix as int, max as int) == if n <= max {
            Some(n as int)
        } else {
            None
        },
        unsigned_value(seq!['+'] + numeral(n, radix), radix as int, max as int) == if n <= max {
            Some(n as int)
        } else {
            None
        },
{
    let s = numeral(n, radix);
    lemma_numeral(n, radix);
    assert(is_digit(s[0], radix as int));
    assert((seq!['+'] + s).skip(1) =~= s);
}

/// A zero before a numeral changes nothing.
pub proof fn law_leading_zeros_do_not_count(s: Seq<char>, radix: int, max: int)
    requires
        2 <= radix <= 36,
        s.len() > 0,
        s[0] != '+',
    ensures
        unsigned_value(seq!['0'] + s, radix, max) == unsigned_value(s, radix, max),
{
    let longer = seq!['0'] + s;
    lemma_leading_zero(s, radix);
    if forall|i: int| 0 <= i < s.len() ==> is_digit(#[trigger] s[i], radix) {
        assert forall|i: int| 0 <= i < longer.len() implies is_digit(
            #[trigger] longer[i],
            radix,
        ) by {
            if i > 0 {
                assert(longer[i] == s[i - 1]);
            }
        }
    } else {
        let i = choose|i: int| 0 <= i < s.len() && !is_digit(#[trigger] s[i], radix);
        assert(longer[i + 1] == s[i]);
        assert(!is_digit(longer[i + 1], radix));
    }
}

/// A zero before digits does not change their value.
proof fn lemma_leading_zero(s: Seq<char>, radix: int)
    ensures
        digits_value(seq!['0'] + s, radix) == digits_value(s, radix),
    decreases s.len(),
{
    let longer = seq!['0'] + s;
    if s.len() == 0 {
        assert(longer.drop_last() =~= Seq::empty());
        assert(digits_value(longer.drop_last(), radix) == 0);
        assert(0 * radix == 0);
    } else {
        lemma_leading_zero(s.drop_last(), radix);
        assert(longer.drop_last() =~= seq!['0'] + s.drop_last());
        assert(longer.last() == s.last());
    }
}

/// A text is no numeral where it is empty, is a `+` alone, or holds a character
/// that is no digit below the radix, but for a `+` at its start.
pub proof fn law_other_texts_are_no_numerals(s: Seq<char>, radix: int, max: int, i: int)
    requires
        s.len() == 0 || s == seq!['+'] || {
            &&& 0 <= i < s.len()
            &&& !(i == 0 && s[i] == '+')
            &&& !('0' <= s[i] && s[i] <= '9' && radix > s[i] as int - '0' as int)
            &&& !('a' <= s[i] && s[i] <= 'z' && radix > s[i] as int - 'a' as int + 10)
            &&& !('A' <= s[i] && s[i] <= 'Z' && radix > s[i] as int - 'A' as int + 10)
        },
    ensures
        unsigned_value(s, radix, max) is None,
{
    let digits = without_plus(s);
    if s.len() > 0 && s != seq!['+'] {
        assert(!is_digit(s[i], radix));
        if s[0] == '+' {
            assert(digits[i - 1] == s[i]);
        } else {
            assert(digits[i] == s[i]);
        }
    }
}

/// Capital digits count as small ones.
pub proof fn law_numerals_ignore_case(s: Seq<char>, radix: int, max: int)
    ensures
        unsigned_value(ascii_lowercase(s), radix, max) == unsigned_value(s, radix, max),
{
    let lower = ascii_lowercase(s);
    let (a, b) = (without_plus(s), without_plus(lower));
    assert(b =~= ascii_lowercase(a));
    lemma_digits_ignore_case(a, radix);
    assert forall|i: int| 0 <= i < a.len() implies is_digit(#[trigger] a[i], radix) == is_digit(
        b[i],
        radix,
    ) by {
        assert(b[i] == ascii_lower(a[i]));
    }
    if forall|i: int| 0 <= i < b.len() ==> is_digit(#[trigger] b[i], radix) {
        assert forall|i: int| 0 <= i < a.len() implies is_digit(#[trigger] a[i], radix) by {
            assert(is_digit(b[i], radix));
        }
    }
}

/// The value of digits does not depend on their case.
proof fn lemma_digits_ignore_case(s: Seq<char>, radix: int)
    ensures
        digits_value(ascii_lowercase(s), radix) == digits_value(s, radix),
    decreases s.len(),
{
    if s.len() > 0 {
        lemma_digits_ignore_case(s.drop_last(), radix);
        assert(ascii_lowercase(s).drop_last() =~= ascii_lowercase(s.drop_last()));
        assert(ascii_lowercase(s).last() == ascii_lower(s.last()));
    }
}

/// A text occurs in another exactly if the other is something, that text, and
/// something again.
pub proof fn law_substrings_are_surrounded(s: Seq<char>, needle: Seq<char>)
    ensures
        has_substring(s, needle) <==> exists|before: Seq<char>, after: Seq<char>|
            s == #[trigger] (before + needle + after),
{
    if has_substring(s, needle) {
        let i = choose|i: int| #[trigger] occurs_at(s, needle, i);
        assert(s =~= s.take(i) + needle + s.skip(i + needle.len()));
    }
    if exists|before: Seq<char>, after: Seq<char>| s == #[trigger] (before + needle + after) {
        let (before, after) = choose|before: Seq<char>, after: Seq<char>|
            s == #[trigger] (before + needle + after);
        let at = before.len() as int;
        assert(s.subrange(at, at + needle.len()) =~= needle);
        assert(occurs_at(s, needle, before.len() as int));
    }
}

/// One repetition of a prefix more changes nothing, and a text that does not
/// start with the prefix stays as it is.
pub proof fn law_prefixes_are_taken_away(s: Seq<char>, prefix: Seq<char>)
    requires
        prefix.len() > 0,
    ensures
        without_prefixes(prefix + s, prefix) == without_prefixes(s, prefix),
        !(exists|rest: Seq<char>| s == #[trigger] (prefix + rest)) ==> without_prefixes(s, prefix)
            == s,
{
    assert((prefix + s).take(prefix.len() as int) =~= prefix);
    assert((prefix + s).skip(prefix.len() as int) =~= s);
    if prefix.len() <= s.len() && s.take(prefix.len() as int) == prefix {
        assert(s =~= prefix + s.skip(prefix.len() as int));
    }
}

} // verus!
