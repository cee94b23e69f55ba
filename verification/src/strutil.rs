//! Small verified string helpers shared across the crate: decimal
//! formatting and parsing, prefix tests, character replacement and
//! whitespace trimming, plus the two std string operations that vstd gives
//! no specification.

use vstd::prelude::*;

verus! {

broadcast use vstd::string::group_string_axioms;

/// Relies on String::push: appends exactly one character at the end.
#[verifier::external_body]
pub fn string_push_char(s: &mut String, c: char)
    ensures
        final(s)@ == old(s)@.push(c),
{
    s.push(c);
}

/// Relies on String::from_utf8_lossy (and str::to_string on its result):
/// on valid UTF-8 input the result decodes the bytes exactly.  On invalid
/// input nothing is claimed beyond the call returning.
#[verifier::external_body]
pub fn bytes_to_string_lossy(data: &[u8]) -> (r: String)
    ensures
        vstd::utf8::valid_utf8(data@) ==> r@ == vstd::utf8::decode_utf8(data@),
{
    String::from_utf8_lossy(data).to_string()
}

/// Relies on String::from_utf8: returns the decoded string exactly when the
/// bytes are valid UTF-8, and nothing otherwise.
#[verifier::external_body]
pub fn utf8_to_string(data: &Vec<u8>) -> (r: Option<String>)
    ensures
        match r {
            Some(s) => vstd::utf8::valid_utf8(data@) && s@ == vstd::utf8::decode_utf8(data@),
            None => !vstd::utf8::valid_utf8(data@),
        },
{
    match String::from_utf8(data.clone()) {
        Ok(s) => Some(s),
        Err(_) => None,
    }
}

/// The character for one decimal digit.
pub open spec fn spec_digit_char(d: nat) -> char {
    if d == 0 {
        '0'
    } else if d == 1 {
        '1'
    } else if d == 2 {
        '2'
    } else if d == 3 {
        '3'
    } else if d == 4 {
        '4'
    } else if d == 5 {
        '5'
    } else if d == 6 {
        '6'
    } else if d == 7 {
        '7'
    } else if d == 8 {
        '8'
    } else {
        '9'
    }
}

/// The decimal representation of a natural number, without sign or padding.
pub open spec fn spec_decimal(n: nat) -> Seq<char>
    decreases n,
{
    if n < 10 {
        seq![spec_digit_char(n)]
    } else {
        spec_decimal(n / 10).push(spec_digit_char(n % 10))
    }
}

/// Append the decimal representation of `n` to `out`.
pub fn append_decimal(out: &mut String, n: usize)
    ensures
        final(out)@ == old(out)@ + spec_decimal(n as nat),
    decreases n,
{
    if n < 10 {
        let c: char = match n {
            0 => '0',
            1 => '1',
            2 => '2',
            3 => '3',
            4 => '4',
            5 => '5',
            6 => '6',
            7 => '7',
            8 => '8',
            _ => '9',
        };
        string_push_char(out, c);
        assert(final(out)@ =~= old(out)@ + spec_decimal(n as nat));
    } else {
        append_decimal(out, n / 10);
        let d = n % 10;
        let c: char = match d {
            0 => '0',
            1 => '1',
            2 => '2',
            3 => '3',
            4 => '4',
            5 => '5',
            6 => '6',
            7 => '7',
            8 => '8',
            _ => '9',
        };
        string_push_char(out, c);
        assert(final(out)@ =~= old(out)@ + spec_decimal(n as nat));
    }
}

/// The decimal representation of `n` as a fresh string.
pub fn usize_to_string(n: usize) -> (r: String)
    ensures
        r@ == spec_decimal(n as nat),
{
    let mut s = String::new();
    append_decimal(&mut s, n);
    assert(s@ =~= spec_decimal(n as nat));
    s
}

/// Whether a character is a decimal digit.
pub open spec fn spec_is_digit(c: char) -> bool {
    48 <= c as u32 <= 57
}

/// Whether a non-empty character sequence consists of decimal digits only.
pub open spec fn spec_all_digits(s: Seq<char>) -> bool {
    s.len() > 0 && forall|i: int| 0 <= i < s.len() ==> spec_is_digit(#[trigger] s[i])
}

/// The numeric value of a digit sequence, most significant digit first.
pub open spec fn spec_digits_value(s: Seq<char>) -> nat
    decreases s.len(),
{
    if s.len() == 0 {
        0
    } else {
        spec_digits_value(s.drop_last()) * 10 + (s.last() as u32 - 48) as nat
    }
}

/// Parse a non-empty all-digit string as a usize; `None` when the string is
/// empty, holds a non-digit, or the value does not fit.
pub fn parse_decimal_usize(s: &str) -> (r: Option<usize>)
    ensures
        match r {
            Some(v) => spec_all_digits(s@) && v as nat == spec_digits_value(s@),
            None => !spec_all_digits(s@) || spec_digits_value(s@) > usize::MAX,
        },
{
    let n = s.unicode_len();
    if n == 0 {
        return None;
    }
    let mut value: usize = 0;
    let mut i: usize = 0;
    while i < n
        invariant
            i <= n,
            n == s@.len(),
            n > 0,
            forall|j: int| 0 <= j < i ==> spec_is_digit(#[trigger] s@[j]),
            value as nat == spec_digits_value(s@.subrange(0, i as int)),
        decreases n - i,
    {
        let c = s.get_char(i);
        let cv = c as u32;
        if cv < 48 || cv > 57 {
            return None;
        }
        let d: usize = (cv - 48) as usize;
        let shifted = match value.checked_mul(10) {
            Some(v) => v,
            None => {
                proof {
                    lemma_digits_value_prefix_overflow(s@, i as int);
                }
                return None;
            },
        };
        let next = match shifted.checked_add(d) {
            Some(v) => v,
            None => {
                proof {
                    lemma_digits_value_prefix_overflow2(s@, i as int);
                }
                return None;
            },
        };
        value = next;
        i = i + 1;
        assert(s@.subrange(0, i as int).drop_last() =~= s@.subrange(0, i as int - 1));
    }
    assert(s@.subrange(0, n as int) =~= s@);
    Some(value)
}

/// A digit extends a prefix monotonically: the value of a longer prefix is
/// at least ten times the shorter one.
proof fn lemma_digits_value_prefix_overflow(s: Seq<char>, i: int)
    requires
        0 <= i < s.len(),
        spec_digits_value(s.subrange(0, i)) * 10 > usize::MAX,
    ensures
        spec_digits_value(s) > usize::MAX,
{
    lemma_digits_value_monotone(s, i);
}

/// Same as above, with the final digit addition pushing past the bound.
proof fn lemma_digits_value_prefix_overflow2(s: Seq<char>, i: int)
    requires
        0 <= i < s.len(),
        spec_digits_value(s.subrange(0, i)) * 10 + (s[i] as u32 - 48) > usize::MAX,
        spec_is_digit(s[i]),
    ensures
        spec_digits_value(s) > usize::MAX,
{
    lemma_digits_value_monotone(s, i);
}

/// The value of the whole digit string is at least the value contributed by
/// any prefix extended with its next digit.
proof fn lemma_digits_value_monotone(s: Seq<char>, i: int)
    requires
        0 <= i < s.len(),
    ensures
        spec_digits_value(s) >= spec_digits_value(s.subrange(0, i)) * 10 + (
        if spec_is_digit(s[i]) {
            (s[i] as u32 - 48) as nat
        } else {
            0
        }),
    decreases s.len() - i,
{
    if i == s.len() - 1 {
        assert(s.subrange(0, i) =~= s.drop_last());
    } else {
        lemma_digits_value_monotone(s.drop_last(), i);
        assert(s.drop_last().subrange(0, i) =~= s.subrange(0, i));
        assert(s.drop_last()[i] == s[i]);
    }
}

/// Whether `s` starts with `prefix`.
pub open spec fn spec_starts_with(s: Seq<char>, prefix: Seq<char>) -> bool {
    s.len() >= prefix.len() && s.subrange(0, prefix.len() as int) == prefix
}

/// Prefix test over characters.
pub fn str_starts_with(s: &str, prefix: &str) -> (r: bool)
    ensures
        r == spec_starts_with(s@, prefix@),
{
    let n = s.unicode_len();
    let np = prefix.unicode_len();
    if n < np {
        return false;
    }
    let mut i: usize = 0;
    while i < np
        invariant
            i <= np,
            np <= n,
            n == s@.len(),
            np == prefix@.len(),
            forall|j: int| 0 <= j < i ==> s@[j] == prefix@[j],
        decreases np - i,
    {
        if s.get_char(i) != prefix.get_char(i) {
            assert(s@.subrange(0, np as int)[i as int] != prefix@[i as int]);
            return false;
        }
        i = i + 1;
    }
    assert(s@.subrange(0, np as int) =~= prefix@);
    true
}

/// Whether `s` ends with `suffix`.
pub open spec fn spec_ends_with(s: Seq<char>, suffix: Seq<char>) -> bool {
    s.len() >= suffix.len() && s.subrange(s.len() - suffix.len(), s.len() as int) == suffix
}

/// Suffix test over characters.
pub fn str_ends_with(s: &str, suffix: &str) -> (r: bool)
    ensures
        r == spec_ends_with(s@, suffix@),
{
    let n = s.unicode_len();
    let np = suffix.unicode_len();
    if n < np {
        return false;
    }
    let mut i: usize = 0;
    while i < np
        invariant
            i <= np,
            np <= n,
            n == s@.len(),
            np == suffix@.len(),
            forall|j: int| 0 <= j < i ==> s@[n - np + j] == suffix@[j],
        decreases np - i,
    {
        if s.get_char(n - np + i) != suffix.get_char(i) {
            assert(s@.subrange(n - np, n as int)[i as int] != suffix@[i as int]);
            return false;
        }
        i = i + 1;
    }
    assert(s@.subrange(n - np, n as int) =~= suffix@);
    true
}

/// Replacement of every occurrence of one character by another.
pub open spec fn spec_replace_char(s: Seq<char>, from: char, to: char) -> Seq<char> {
    s.map(|_i: int, c: char| if c == from { to } else { c })
}

/// Replace every occurrence of `from` in `s` by `to`.
pub fn replace_char(s: &str, from: char, to: char) -> (r: String)
    ensures
        r@ == spec_replace_char(s@, from, to),
{
    let n = s.unicode_len();
    let mut out = String::new();
    let mut i: usize = 0;
    while i < n
        invariant
            i <= n,
            n == s@.len(),
            out@ == spec_replace_char(s@.subrange(0, i as int), from, to),
        decreases n - i,
    {
        let c = s.get_char(i);
        if c == from {
            string_push_char(&mut out, to);
        } else {
            string_push_char(&mut out, c);
        }
        i = i + 1;
        assert(out@ =~= spec_replace_char(s@.subrange(0, i as int), from, to));
    }
    assert(s@.subrange(0, n as int) =~= s@);
    out
}

/// The whitespace characters this crate trims: ASCII blanks and the
/// ideographic space.
pub open spec fn spec_is_space(c: char) -> bool {
    c == ' ' || c == '\t' || c == '\n' || c == '\r' || c == '\u{3000}'
}

/// `s` without its leading whitespace.
pub open spec fn spec_trim_start(s: Seq<char>) -> Seq<char>
    decreases s.len(),
{
    if s.len() > 0 && spec_is_space(s[0]) {
        spec_trim_start(s.drop_first())
    } else {
        s
    }
}

/// `s` without its trailing whitespace.
pub open spec fn spec_trim_end(s: Seq<char>) -> Seq<char>
    decreases s.len(),
{
    if s.len() > 0 && spec_is_space(s.last()) {
        spec_trim_end(s.drop_last())
    } else {
        s
    }
}

/// `s` without leading and trailing whitespace.
pub open spec fn spec_trim(s: Seq<char>) -> Seq<char> {
    spec_trim_end(spec_trim_start(s))
}

/// A string is blank when trimming leaves nothing.
pub open spec fn spec_is_blank(s: Seq<char>) -> bool {
    spec_trim(s).len() == 0
}

/// Dropping leading spaces one by one reaches `spec_trim_start`.
proof fn lemma_trim_start_skip(s: Seq<char>, i: int)
    requires
        0 <= i <= s.len(),
        forall|j: int| 0 <= j < i ==> spec_is_space(#[trigger] s[j]),
    ensures
        spec_trim_start(s) == spec_trim_start(s.skip(i)),
    decreases i,
{
    if i > 0 {
        assert(s.len() > 0 && spec_is_space(s[0]));
        assert(spec_trim_start(s) == spec_trim_start(s.drop_first()));
        lemma_trim_start_skip(s.drop_first(), i - 1);
        assert(s.drop_first().skip(i - 1) =~= s.skip(i));
    } else {
        assert(s.skip(0) =~= s);
    }
}

/// Dropping trailing spaces one by one reaches `spec_trim_end`.
proof fn lemma_trim_end_take(s: Seq<char>, i: int)
    requires
        0 <= i <= s.len(),
        forall|j: int| i <= j < s.len() ==> spec_is_space(#[trigger] s[j]),
    ensures
        spec_trim_end(s) == spec_trim_end(s.take(i)),
    decreases s.len() - i,
{
    if i < s.len() {
        assert(spec_is_space(s.last()));
        assert(spec_trim_end(s) == spec_trim_end(s.drop_last()));
        lemma_trim_end_take(s.drop_last(), i);
        assert(s.drop_last().take(i) =~= s.take(i));
    } else {
        assert(s.take(s.len() as int) =~= s);
    }
}

/// Whether a character is in the trimmed whitespace set.
pub fn is_space_char(c: char) -> (r: bool)
    ensures
        r == spec_is_space(c),
{
    c == ' ' || c == '\t' || c == '\n' || c == '\r' || c == '\u{3000}'
}

/// Trim leading and trailing whitespace from a string.
pub fn trim_str<'a>(s: &'a str) -> (r: &'a str)
    ensures
        r@ == spec_trim(s@),
{
    let n = s.unicode_len();
    let mut start: usize = 0;
    while start < n && is_space_char(s.get_char(start))
        invariant
            start <= n,
            n == s@.len(),
            forall|j: int| 0 <= j < start ==> spec_is_space(#[trigger] s@[j]),
        decreases n - start,
    {
        start = start + 1;
    }
    let mut end: usize = n;
    while end > start && is_space_char(s.get_char(end - 1))
        invariant
            start <= end <= n,
            n == s@.len(),
            start == n || !spec_is_space(s@[start as int]),
            forall|j: int| 0 <= j < start ==> spec_is_space(#[trigger] s@[j]),
            forall|j: int| end <= j < n ==> spec_is_space(#[trigger] s@[j]),
        decreases end,
    {
        end = end - 1;
    }
    let r = s.substring_char(start, end);
    proof {
        lemma_trim_start_skip(s@, start as int);
        if start == end {
            assert(forall|j: int| start <= j < n ==> spec_is_space(#[trigger] s@[j]));
            assert(spec_trim_start(s@.skip(start as int)).len() == 0) by {
                lemma_trim_start_all_spaces(s@.skip(start as int));
            }
            assert(spec_trim_end(spec_trim_start(s@)) =~= s@.subrange(
                start as int,
                end as int,
            ));
        } else {
            assert(!spec_is_space(s@[start as int]));
            assert(spec_trim_start(s@.skip(start as int)) =~= s@.skip(start as int));
            lemma_trim_end_take(s@.skip(start as int), end - start);
            assert(!spec_is_space(s@[end - 1]));
            assert(s@.skip(start as int).take(end - start) =~= s@.subrange(
                start as int,
                end as int,
            ));
            assert(spec_trim_end(s@.subrange(start as int, end as int)) =~= s@.subrange(
                start as int,
                end as int,
            ));
        }
    }
    r
}

/// Trimming an all-space string leaves nothing.
proof fn lemma_trim_start_all_spaces(s: Seq<char>)
    requires
        forall|j: int| 0 <= j < s.len() ==> spec_is_space(#[trigger] s[j]),
    ensures
        spec_trim_start(s).len() == 0,
    decreases s.len(),
{
    if s.len() > 0 {
        lemma_trim_start_all_spaces(s.drop_first());
    }
}

/// Whether trimming `s` leaves nothing, decided by one scan.
pub fn str_is_blank(s: &str) -> (r: bool)
    ensures
        r == spec_is_blank(s@),
{
    let t = trim_str(s);
    t.unicode_len() == 0
}

/// Splitting a character sequence on a separator, with the current
/// segment accumulated so far.
pub open spec fn spec_split_char_acc(s: Seq<char>, sep: char, cur: Seq<char>) -> Seq<Seq<char>>
    decreases s.len(),
{
    if s.len() == 0 {
        seq![cur]
    } else if s[0] == sep {
        seq![cur] + spec_split_char_acc(s.drop_first(), sep, Seq::empty())
    } else {
        spec_split_char_acc(s.drop_first(), sep, cur.push(s[0]))
    }
}

/// The separator-split segments of a string.
pub open spec fn spec_split_char(s: Seq<char>, sep: char) -> Seq<Seq<char>> {
    spec_split_char_acc(s, sep, Seq::empty())
}

/// Split a string on a separator character.
#[verifier::loop_isolation(false)]
pub fn split_on_char(s: &str, sep: char) -> (r: Vec<String>)
    ensures
        r@.map_values(|x: String| x@) == spec_split_char(s@, sep),
{
    let n = s.unicode_len();
    let mut out: Vec<String> = Vec::new();
    let mut seg_start: usize = 0;
    let mut i: usize = 0;
    proof {
        assert(s@.skip(0) =~= s@);
        assert(s@.subrange(0, 0) =~= Seq::<char>::empty());
        assert(out@.map_values(|x: String| x@) =~= Seq::<Seq<char>>::empty());
        assert(Seq::<Seq<char>>::empty() + spec_split_char_acc(s@, sep, Seq::empty())
            =~= spec_split_char_acc(s@, sep, Seq::empty()));
    }
    while i < n
        invariant
            seg_start <= i <= n,
            out@.map_values(|x: String| x@) + spec_split_char_acc(
                s@.skip(i as int),
                sep,
                s@.subrange(seg_start as int, i as int),
            ) == spec_split_char(s@, sep),
        decreases n - i,
    {
        let c = s.get_char(i);
        let ghost old_views = out@.map_values(|x: String| x@);
        let ghost cur = s@.subrange(seg_start as int, i as int);
        proof {
            assert(s@.skip(i as int)[0] == s@[i as int]);
            assert(s@.skip(i as int).drop_first() =~= s@.skip(i as int + 1));
        }
        if c == sep {
            let seg = s.substring_char(seg_start, i);
            out.push(String::from_str(seg));
            proof {
                assert(out@.map_values(|x: String| x@) =~= old_views.push(cur));
                assert(spec_split_char_acc(s@.skip(i as int), sep, cur) == seq![cur]
                    + spec_split_char_acc(s@.skip(i as int + 1), sep, Seq::empty()));
                assert(old_views.push(cur) + spec_split_char_acc(
                    s@.skip(i as int + 1),
                    sep,
                    Seq::empty(),
                ) =~= old_views + (seq![cur] + spec_split_char_acc(
                    s@.skip(i as int + 1),
                    sep,
                    Seq::empty(),
                )));
                assert(s@.subrange(i as int + 1, i as int + 1) =~= Seq::<char>::empty());
            }
            seg_start = i + 1;
        } else {
            proof {
                assert(cur.push(s@[i as int]) =~= s@.subrange(seg_start as int, i as int + 1));
            }
        }
        i = i + 1;
    }
    let seg = s.substring_char(seg_start, n);
    let ghost old_views = out@.map_values(|x: String| x@);
    let ghost cur = s@.subrange(seg_start as int, n as int);
    out.push(String::from_str(seg));
    proof {
        assert(s@.skip(n as int).len() == 0);
        assert(spec_split_char_acc(s@.skip(n as int), sep, cur) == seq![cur]);
        assert(out@.map_values(|x: String| x@) =~= old_views.push(cur));
        assert(old_views.push(cur) =~= old_views + seq![cur]);
    }
    out
}

/// Character-wise string equality.
pub fn str_eq(a: &str, b: &str) -> (r: bool)
    ensures
        r == (a@ == b@),
{
    let na = a.unicode_len();
    let nb = b.unicode_len();
    if na != nb {
        return false;
    }
    let mut i: usize = 0;
    while i < na
        invariant
            i <= na,
            na == a@.len(),
            na == b@.len(),
            forall|j: int| 0 <= j < i ==> a@[j] == b@[j],
        decreases na - i,
    {
        if a.get_char(i) != b.get_char(i) {
            return false;
        }
        i = i + 1;
    }
    assert(a@ =~= b@);
    true
}

/// Append `other` onto `out`.
pub fn append_str(out: &mut String, other: &str)
    ensures
        final(out)@ == old(out)@ + other@,
{
    out.append(other);
}

} // verus!
