//! Verified text utilities over character sequences: equality, decimal
//! parsing and formatting, trimming, line splitting and substring search.

use vstd::prelude::*;
use vstd::string::StrSliceExecFns;
use vstd::string::StringExecFns;

verus! {

/// Compares two string slices by their character sequences.
pub fn str_eq(a: &str, b: &str) -> (r: bool)
    ensures
        r == (a@ == b@),
{
    let oa = a.to_owned();
    let ob = b.to_owned();
    oa == ob
}

/// Whether a character is a decimal digit.
pub open spec fn is_digit(c: char) -> bool {
    48 <= c as u32 <= 57
}

/// The value of a decimal digit.
pub open spec fn digit_val(c: char) -> int {
    c as u32 - 48
}

/// Whether every character of a sequence is a decimal digit.
pub open spec fn all_digits(s: Seq<char>) -> bool {
    forall|i: int| 0 <= i < s.len() ==> is_digit(#[trigger] s[i])
}

/// The integer value of a sequence of decimal digits, most significant first.
pub open spec fn digits_value(s: Seq<char>) -> int
    decreases s.len(),
{
    if s.len() == 0 {
        0
    } else {
        digits_value(s.drop_last()) * 10 + digit_val(s.last())
    }
}

/// A digit string's value is nonnegative.
pub proof fn lemma_digits_value_nonneg(s: Seq<char>)
    requires
        all_digits(s),
    ensures
        digits_value(s) >= 0,
    decreases s.len(),
{
    if s.len() > 0 {
        assert(all_digits(s.drop_last()));
        lemma_digits_value_nonneg(s.drop_last());
    }
}

/// Appending one digit multiplies the value by ten and adds the digit.
pub proof fn lemma_digits_value_push(s: Seq<char>, c: char)
    ensures
        digits_value(s.push(c)) == digits_value(s) * 10 + digit_val(c),
{
    assert(s.push(c).drop_last() =~= s);
    assert(s.push(c).last() == c);
}

/// The value of a prefix of a digit string never exceeds the whole value.
pub proof fn lemma_digits_value_prefix(s: Seq<char>, j: int)
    requires
        all_digits(s),
        0 <= j <= s.len(),
    ensures
        digits_value(s.take(j)) <= digits_value(s),
    decreases s.len() - j,
{
    if j == s.len() {
        assert(s.take(j) =~= s);
    } else {
        assert(s.take(j + 1) =~= s.take(j).push(s[j]));
        lemma_digits_value_push(s.take(j), s[j]);
        assert(all_digits(s.take(j)));
        lemma_digits_value_nonneg(s.take(j));
        lemma_digits_value_prefix(s, j + 1);
    }
}

/// The digit part of a signed decimal string: everything after a single
/// leading sign, if one is present.
pub open spec fn spec_digits_part(s: Seq<char>) -> Seq<char> {
    if s.len() > 0 && (s[0] == '-' || s[0] == '+') {
        s.drop_first()
    } else {
        s
    }
}

/// Whether a signed decimal string is negative.
pub open spec fn spec_is_negative(s: Seq<char>) -> bool {
    s.len() > 0 && s[0] == '-'
}

/// The signed integer a decimal string denotes, before any range check.
pub open spec fn spec_signed_value(s: Seq<char>) -> int {
    if spec_is_negative(s) {
        -digits_value(spec_digits_part(s))
    } else {
        digits_value(spec_digits_part(s))
    }
}

/// The result of parsing a string as a signed 64-bit decimal integer: an
/// optional sign followed by one or more digits, whose value fits in `i64`;
/// anything else parses to nothing.
pub open spec fn spec_parse_i64(s: Seq<char>) -> Option<i64> {
    let ds = spec_digits_part(s);
    if ds.len() > 0 && all_digits(ds) && i64::MIN <= spec_signed_value(s) <= i64::MAX {
        Some(spec_signed_value(s) as i64)
    } else {
        None
    }
}

/// Parses a string as a signed 64-bit decimal integer.
pub fn parse_i64(s: &str) -> (r: Option<i64>)
    ensures
        r == spec_parse_i64(s@),
{
    let n = s.unicode_len();
    let mut start: usize = 0;
    let mut neg = false;
    if n > 0 {
        let c0 = s.get_char(0);
        if c0 == '-' {
            neg = true;
            start = 1;
        } else if c0 == '+' {
            start = 1;
        }
    }
    let ghost ds = spec_digits_part(s@);
    proof {
        assert(ds =~= s@.skip(start as int));
    }
    if start >= n {
        return None;
    }
    let mut acc: u64 = 0;
    let mut j: usize = start;
    while j < n
        invariant
            start <= j <= n,
            n == s@.len(),
            start <= 1,
            ds == spec_digits_part(s@),
            ds == s@.skip(start as int),
            ds.len() == n - start,
            forall|k: int| 0 <= k < j - start ==> is_digit(#[trigger] ds[k]),
            acc as int == digits_value(ds.take(j - start)),
            neg == spec_is_negative(s@),
        decreases n - j,
    {
        let c = s.get_char(j);
        let cv = c as u32;
        if cv < 48 || cv > 57 {
            proof {
                assert(ds[j - start] == s@[j as int]);
                assert(!is_digit(ds[j - start]));
            }
            return None;
        }
        if acc > (u64::MAX - 9) / 10 {
            proof {
                let k = j - start;
                if all_digits(ds) {
                    assert(ds.take(k + 1) =~= ds.take(k).push(ds[k]));
                    lemma_digits_value_push(ds.take(k), ds[k]);
                    assert(digit_val(ds[k]) >= 0);
                    assert(digits_value(ds.take(k + 1)) >= acc as int * 10);
                    lemma_digits_value_prefix(ds, k + 1);
                    assert(digits_value(ds) >= acc as int * 10);
                    assert(acc as int * 10 > i64::MAX);
                    assert(spec_signed_value(s@) > i64::MAX || spec_signed_value(s@) < i64::MIN);
                }
            }
            return None;
        }
        let d = (cv - 48) as u64;
        proof {
            let k = j - start;
            assert(ds[k] == s@[j as int]);
            assert(is_digit(ds[k]));
            assert(ds.take(k + 1) =~= ds.take(k).push(ds[k]));
            lemma_digits_value_push(ds.take(k), ds[k]);
        }
        acc = acc * 10 + d;
        j = j + 1;
    }
    proof {
        assert(ds.take(n - start) =~= ds);
        assert(all_digits(ds));
        lemma_digits_value_nonneg(ds);
    }
    if neg {
        if acc > 9223372036854775808u64 {
            None
        } else if acc == 9223372036854775808u64 {
            Some(i64::MIN)
        } else {
            Some(-(acc as i64))
        }
    } else {
        if acc > i64::MAX as u64 {
            None
        } else {
            Some(acc as i64)
        }
    }
}

/// Whether a character is one the library trims: ASCII whitespace.
pub open spec fn is_space(c: char) -> bool {
    c == ' ' || c == '\t' || c == '\n' || c == '\r' || c == '\u{000B}' || c == '\u{000C}'
}

/// Executable whitespace test.
pub fn is_space_char(c: char) -> (r: bool)
    ensures
        r == is_space(c),
{
    c == ' ' || c == '\t' || c == '\n' || c == '\r' || c == '\u{000B}' || c == '\u{000C}'
}

/// The sequence with leading whitespace removed.
pub open spec fn spec_trim_start(s: Seq<char>) -> Seq<char>
    decreases s.len(),
{
    if s.len() > 0 && is_space(s[0]) {
        spec_trim_start(s.drop_first())
    } else {
        s
    }
}

/// The sequence with trailing whitespace removed.
pub open spec fn spec_trim_end(s: Seq<char>) -> Seq<char>
    decreases s.len(),
{
    if s.len() > 0 && is_space(s.last()) {
        spec_trim_end(s.drop_last())
    } else {
        s
    }
}

/// The sequence with whitespace removed from both ends.
pub open spec fn spec_trim(s: Seq<char>) -> Seq<char> {
    spec_trim_end(spec_trim_start(s))
}

/// Skipping any number of leading spaces does not change the trimmed head.
pub proof fn lemma_trim_start_skip(s: Seq<char>, k: int)
    requires
        0 <= k <= s.len(),
        forall|m: int| 0 <= m < k ==> is_space(#[trigger] s[m]),
    ensures
        spec_trim_start(s) == spec_trim_start(s.skip(k)),
    decreases k,
{
    if k > 0 {
        assert(is_space(s[0]));
        assert(s.drop_first() =~= s.skip(1));
        lemma_trim_start_skip(s.skip(1), k - 1);
        assert(s.skip(1).skip(k - 1) =~= s.skip(k));
    } else {
        assert(s.skip(0) =~= s);
    }
}

/// Dropping any number of trailing spaces does not change the trimmed tail.
pub proof fn lemma_trim_end_take(s: Seq<char>, k: int)
    requires
        0 <= k <= s.len(),
        forall|m: int| k <= m < s.len() ==> is_space(#[trigger] s[m]),
    ensures
        spec_trim_end(s) == spec_trim_end(s.take(k)),
    decreases s.len() - k,
{
    if k < s.len() {
        assert(is_space(s.last()));
        assert(s.drop_last() =~= s.take(s.len() - 1));
        lemma_trim_end_take(s.take(s.len() - 1), k);
        assert(s.take(s.len() - 1).take(k) =~= s.take(k));
    } else {
        assert(s.take(s.len() as int) =~= s);
    }
}

/// Index of the first non-space character at or after `i`, or the length.
pub open spec fn first_non_space_at(s: Seq<char>, i: int) -> int
    decreases s.len() - i,
{
    if i < 0 || i >= s.len() {
        s.len() as int
    } else if !is_space(s[i]) {
        i
    } else {
        first_non_space_at(s, i + 1)
    }
}

/// Bounds and characterization of the first non-space index.
pub proof fn lemma_first_non_space_props(s: Seq<char>, i: int)
    requires
        0 <= i <= s.len(),
    ensures
        i <= first_non_space_at(s, i) <= s.len(),
        first_non_space_at(s, i) < s.len() ==> !is_space(s[first_non_space_at(s, i)]),
        forall|m: int| i <= m < first_non_space_at(s, i) ==> is_space(#[trigger] s[m]),
    decreases s.len() - i,
{
    if i < s.len() && is_space(s[i]) {
        lemma_first_non_space_props(s, i + 1);
    }
}

/// Trimming the head is dropping everything before the first non-space.
pub proof fn lemma_trim_start_eq_skip(s: Seq<char>)
    ensures
        spec_trim_start(s) == s.skip(first_non_space_at(s, 0)),
{
    lemma_first_non_space_props(s, 0);
    let k = first_non_space_at(s, 0);
    lemma_trim_start_skip(s, k);
    if k < s.len() {
        assert(s.skip(k)[0] == s[k]);
    } else {
        assert(s.skip(k).len() == 0);
    }
}

/// Surrounding a text with whitespace does not change its trimmed form.
pub proof fn lemma_trim_concat_spaces(a: Seq<char>, x: Seq<char>, b: Seq<char>)
    requires
        forall|i: int| 0 <= i < a.len() ==> is_space(#[trigger] a[i]),
        forall|i: int| 0 <= i < b.len() ==> is_space(#[trigger] b[i]),
    ensures
        spec_trim(a + x + b) == spec_trim(x),
{
    let u = a + x + b;
    assert forall|i: int| 0 <= i < a.len() implies is_space(#[trigger] u[i]) by {
        assert(u[i] == a[i]);
    }
    lemma_trim_start_skip(u, a.len() as int);
    assert(u.skip(a.len() as int) =~= x + b);
    lemma_first_non_space_props(x, 0);
    let k = first_non_space_at(x, 0);
    if k == x.len() {
        assert forall|i: int| 0 <= i < (x + b).len() implies is_space(#[trigger] (x + b)[i]) by {
            if i < x.len() {
                assert((x + b)[i] == x[i]);
            } else {
                assert((x + b)[i] == b[i - x.len()]);
            }
        }
        lemma_trim_start_skip(x + b, (x + b).len() as int);
        assert((x + b).skip((x + b).len() as int).len() == 0);
        assert(spec_trim_start(x + b).len() == 0);
        lemma_trim_start_skip(x, x.len() as int);
        assert(x.skip(x.len() as int).len() == 0);
        assert(spec_trim_start(x).len() == 0);
        assert(spec_trim(u) =~= spec_trim(x));
    } else {
        assert forall|m: int| 0 <= m < k implies is_space(#[trigger] (x + b)[m]) by {
            assert((x + b)[m] == x[m]);
        }
        lemma_trim_start_skip(x + b, k);
        assert((x + b).skip(k)[0] == x[k]);
        assert(spec_trim_start(x + b) == (x + b).skip(k));
        assert((x + b).skip(k) =~= x.skip(k) + b);
        lemma_trim_start_skip(x, k);
        assert(x.skip(k)[0] == x[k]);
        assert(spec_trim_start(x) == x.skip(k));
        let y = x.skip(k);
        assert forall|m: int| y.len() <= m < (y + b).len() implies is_space(
            #[trigger] (y + b)[m],
        ) by {
            assert((y + b)[m] == b[m - y.len()]);
        }
        lemma_trim_end_take(y + b, y.len() as int);
        assert((y + b).take(y.len() as int) =~= y);
    }
}

/// Where a match exists and nothing before it matches, the finder lands
/// exactly there.
pub proof fn lemma_find_sub_at(s: Seq<char>, p: Seq<char>, k: int)
    requires
        spec_match_at(s, p, k),
        forall|j: int| 0 <= j < k ==> !spec_match_at(s, p, j),
    ensures
        spec_find_sub(s, p) == Some(k),
{
    lemma_find_sub_props(s, p);
    match spec_find_sub(s, p) {
        Some(i) => {
            if i < k {
                assert(spec_match_at(s, p, i));
            } else if i > k {
                assert(!spec_match_at(s, p, k));
            }
        },
        None => {
            assert(0 <= k <= s.len() - p.len());
            assert(!spec_match_at(s, p, k));
        },
    }
}

/// Copies the characters in `[from, to)` into a new vector.
pub fn subvec(v: &Vec<char>, from: usize, to: usize) -> (r: Vec<char>)
    requires
        from <= to <= v@.len(),
    ensures
        r@ == v@.subrange(from as int, to as int),
{
    let mut r: Vec<char> = Vec::new();
    let mut i: usize = from;
    while i < to
        invariant
            from <= i <= to <= v@.len(),
            r@ == v@.subrange(from as int, i as int),
        decreases to - i,
    {
        r.push(v[i]);
        proof {
            assert(v@.subrange(from as int, i + 1) =~= v@.subrange(from as int, i as int).push(
                v@[i as int],
            ));
        }
        i = i + 1;
    }
    r
}

/// Trims whitespace from both ends of a character vector.
pub fn trim_chars(v: &Vec<char>) -> (r: Vec<char>)
    ensures
        r@ == spec_trim(v@),
{
    let n = v.len();
    let mut i: usize = 0;
    while i < n && is_space_char(v[i])
        invariant
            0 <= i <= n,
            n == v@.len(),
            forall|m: int| 0 <= m < i ==> is_space(#[trigger] v@[m]),
        decreases n - i,
    {
        i = i + 1;
    }
    proof {
        lemma_trim_start_skip(v@, i as int);
        if i < n {
            assert(v@.skip(i as int)[0] == v@[i as int]);
        } else {
            assert(v@.skip(i as int).len() == 0);
        }
        assert(spec_trim_start(v@) == v@.skip(i as int));
    }
    let mut j: usize = n;
    while j > i && is_space_char(v[j - 1])
        invariant
            i <= j <= n,
            n == v@.len(),
            forall|m: int| j <= m < n ==> is_space(#[trigger] v@[m]),
        decreases j,
    {
        j = j - 1;
    }
    let r = subvec(v, i, j);
    proof {
        let t1 = v@.skip(i as int);
        assert forall|m: int| j - i <= m < t1.len() implies is_space(#[trigger] t1[m]) by {
            assert(t1[m] == v@[m + i]);
        }
        lemma_trim_end_take(t1, j - i);
        if j > i {
            assert(t1.take(j - i).last() == v@[j - 1]);
            assert(!is_space(t1.take(j - i).last()));
        }
        assert(spec_trim_end(t1.take(j - i)) == t1.take(j - i));
        assert(t1.take(j - i) =~= v@.subrange(i as int, j as int));
    }
    r
}

/// Whether a sequence starts with the given prefix.
pub open spec fn spec_starts_with(s: Seq<char>, p: Seq<char>) -> bool {
    s.len() >= p.len() && s.subrange(0, p.len() as int) == p
}

/// Whether the characters at `at` match the pattern.
pub open spec fn spec_match_at(s: Seq<char>, p: Seq<char>, at: int) -> bool {
    0 <= at && at + p.len() <= s.len() && s.subrange(at, at + p.len()) == p
}

/// Whether the pattern occurs at position `at` of the vector.
pub fn match_at(v: &Vec<char>, p: &Vec<char>, at: usize) -> (r: bool)
    requires
        at + p@.len() <= v@.len(),
    ensures
        r == spec_match_at(v@, p@, at as int),
{
    let n = v.len();
    let mut k: usize = 0;
    while k < p.len()
        invariant
            0 <= k <= p@.len(),
            at + p@.len() <= v@.len(),
            n == v@.len(),
            forall|m: int| 0 <= m < k ==> v@[at + m] == p@[m],
        decreases p@.len() - k,
    {
        if v[at + k] != p[k] {
            proof {
                assert(v@.subrange(at as int, at + p@.len())[k as int] == v@[at + k]);
            }
            return false;
        }
        k = k + 1;
    }
    proof {
        assert(v@.subrange(at as int, at + p@.len()) =~= p@);
    }
    true
}

/// Tests whether the vector starts with the pattern.
pub fn starts_with(v: &Vec<char>, p: &Vec<char>) -> (r: bool)
    ensures
        r == spec_starts_with(v@, p@),
{
    if p.len() > v.len() {
        return false;
    }
    match_at(v, p, 0)
}

/// Index of the first occurrence of the pattern, if any.
pub open spec fn spec_find_sub(s: Seq<char>, p: Seq<char>) -> Option<int>
    decreases s.len(),
{
    if p.len() == 0 {
        Some(0)
    } else if s.len() < p.len() {
        None
    } else if s.subrange(0, p.len() as int) == p {
        Some(0)
    } else {
        match spec_find_sub(s.drop_first(), p) {
            Some(j) => Some(j + 1),
            None => None,
        }
    }
}

/// Whether the pattern occurs anywhere in the sequence.
pub open spec fn spec_contains(s: Seq<char>, p: Seq<char>) -> bool {
    spec_find_sub(s, p) is Some
}

/// A found index is the first match position; absence means no position
/// matches.
pub proof fn lemma_find_sub_props(s: Seq<char>, p: Seq<char>)
    ensures
        match spec_find_sub(s, p) {
            Some(i) => spec_match_at(s, p, i) && (forall|j: int|
                0 <= j < i ==> !spec_match_at(s, p, j)),
            None => forall|j: int| 0 <= j <= s.len() - p.len() ==> !spec_match_at(s, p, j),
        },
    decreases s.len(),
{
    if p.len() == 0 {
        assert(s.subrange(0, 0) =~= p);
    } else if s.len() >= p.len() && s.subrange(0, p.len() as int) != p {
        lemma_find_sub_props(s.drop_first(), p);
        let rest = s.drop_first();
        assert forall|j: int, m: int|
            1 <= j && 0 <= m < p.len() && j + p.len() <= s.len() implies #[trigger] rest.subrange(
            j - 1,
            j - 1 + p.len(),
        )[m] == s.subrange(j, j + p.len())[m] by {
            assert(rest.subrange(j - 1, j - 1 + p.len())[m] == rest[j - 1 + m]);
            assert(rest[j - 1 + m] == s[j + m]);
        }
        assert forall|j: int| 1 <= j && j + p.len() <= s.len() implies (spec_match_at(s, p, j)
            == spec_match_at(rest, p, j - 1)) by {
            assert(rest.subrange(j - 1, j - 1 + p.len()) =~= s.subrange(j, j + p.len()));
        }
        match spec_find_sub(rest, p) {
            Some(j) => {
                assert(spec_match_at(rest, p, j));
                assert(spec_match_at(s, p, j + 1));
            },
            None => {},
        }
    }
}

/// Index of the first occurrence of the pattern in the vector, if any.
pub fn find_sub(v: &Vec<char>, p: &Vec<char>) -> (r: Option<usize>)
    ensures
        match r {
            Some(i) => spec_find_sub(v@, p@) == Some(i as int),
            None => spec_find_sub(v@, p@) is None,
        },
{
    let ghost sv = v@;
    if p.len() == 0 {
        return Some(0);
    }
    if p.len() > v.len() {
        return None;
    }
    let last = v.len() - p.len();
    let mut i: usize = 0;
    proof {
        assert(sv.skip(0) =~= sv);
    }
    while i <= last
        invariant
            0 <= i <= last + 1,
            last == v@.len() - p@.len(),
            p@.len() >= 1,
            p@.len() <= v@.len(),
            v@.len() <= usize::MAX,
            sv == v@,
            spec_find_sub(sv.skip(i as int), p@) matches Some(j) ==> spec_find_sub(sv, p@) == Some(
                j + i,
            ),
            spec_find_sub(sv.skip(i as int), p@) is None ==> spec_find_sub(sv, p@) is None,
        decreases last + 1 - i,
    {
        let ghost tail = sv.skip(i as int);
        if match_at(v, p, i) {
            proof {
                assert forall|m: int| 0 <= m < p@.len() implies #[trigger] tail.subrange(
                    0,
                    p@.len() as int,
                )[m] == sv.subrange(i as int, i + p@.len())[m] by {
                    assert(tail.subrange(0, p@.len() as int)[m] == tail[m]);
                    assert(tail[m] == sv[i + m]);
                }
                assert(tail.subrange(0, p@.len() as int) =~= sv.subrange(i as int, i + p@.len()));
                assert(spec_find_sub(tail, p@) == Some(0int));
            }
            return Some(i);
        }
        proof {
            assert forall|m: int| 0 <= m < p@.len() implies #[trigger] tail.subrange(
                0,
                p@.len() as int,
            )[m] == sv.subrange(i as int, i + p@.len())[m] by {
                assert(tail.subrange(0, p@.len() as int)[m] == tail[m]);
                assert(tail[m] == sv[i + m]);
            }
            assert(tail.subrange(0, p@.len() as int) =~= sv.subrange(i as int, i + p@.len()));
            assert(tail.subrange(0, p@.len() as int) != p@);
            assert(tail.drop_first() =~= sv.skip(i as int + 1));
        }
        i = i + 1;
    }
    proof {
        assert(sv.skip(i as int).len() < p@.len());
    }
    None
}

/// Whether the pattern occurs anywhere in the vector.
pub fn contains_sub(v: &Vec<char>, p: &Vec<char>) -> (r: bool)
    ensures
        r == spec_contains(v@, p@),
{
    find_sub(v, p).is_some()
}

/// Index of the last occurrence of the character, if any.
pub open spec fn spec_rfind_char(s: Seq<char>, c: char) -> Option<int>
    decreases s.len(),
{
    if s.len() == 0 {
        None
    } else if s.last() == c {
        Some(s.len() - 1)
    } else {
        spec_rfind_char(s.drop_last(), c)
    }
}

/// A found last index is in range and hits the character.
pub proof fn lemma_rfind_char_props(s: Seq<char>, c: char)
    ensures
        spec_rfind_char(s, c) matches Some(i) ==> 0 <= i < s.len() && s[i] == c,
    decreases s.len(),
{
    if s.len() > 0 && s.last() != c {
        lemma_rfind_char_props(s.drop_last(), c);
        if spec_rfind_char(s.drop_last(), c) is Some {
            let i = spec_rfind_char(s.drop_last(), c)->0;
            assert(s.drop_last()[i] == s[i]);
        }
    }
}

/// Index of the last occurrence of the character in the vector, if any.
pub fn rfind_char(v: &Vec<char>, c: char) -> (r: Option<usize>)
    ensures
        match r {
            Some(i) => spec_rfind_char(v@, c) == Some(i as int),
            None => spec_rfind_char(v@, c) is None,
        },
{
    let ghost sv = v@;
    let mut i: usize = v.len();
    proof {
        assert(sv.take(sv.len() as int) =~= sv);
    }
    while i > 0
        invariant
            0 <= i <= v@.len(),
            sv == v@,
            spec_rfind_char(sv, c) == spec_rfind_char(sv.take(i as int), c),
        decreases i,
    {
        proof {
            assert(sv.take(i as int).last() == sv[i - 1]);
            assert(sv.take(i as int).drop_last() =~= sv.take(i - 1));
        }
        if v[i - 1] == c {
            return Some(i - 1);
        }
        i = i - 1;
    }
    None
}

/// The character folded to lower case when it is an ASCII capital letter,
/// else unchanged.
pub open spec fn lower_char(c: char) -> char {
    if 65 <= c as u32 <= 90 {
        (((c as u32) + 32) as u8) as char
    } else {
        c
    }
}

/// The sequence with every ASCII capital letter folded to lower case.
pub open spec fn spec_lower(s: Seq<char>) -> Seq<char> {
    s.map_values(|c: char| lower_char(c))
}

/// Folds ASCII capitals to lower case, leaving other characters unchanged.
pub fn to_lower(v: &Vec<char>) -> (r: Vec<char>)
    ensures
        r@ == spec_lower(v@),
{
    let mut r: Vec<char> = Vec::new();
    let mut i: usize = 0;
    proof {
        assert(r@ =~= spec_lower(v@.take(0)));
    }
    while i < v.len()
        invariant
            0 <= i <= v@.len(),
            r@ == spec_lower(v@.take(i as int)),
        decreases v@.len() - i,
    {
        let c = v[i];
        let cv = c as u32;
        let lc: char = if 65 <= cv && cv <= 90 {
            ((cv + 32) as u8) as char
        } else {
            c
        };
        r.push(lc);
        proof {
            assert(v@.take(i + 1) =~= v@.take(i as int).push(v@[i as int]));
            assert(r@ =~= spec_lower(v@.take(i + 1)));
        }
        i = i + 1;
    }
    proof {
        assert(v@.take(v@.len() as int) =~= v@);
    }
    r
}

/// Index of the first occurrence of the character at or after `i`, or the
/// length when it does not occur.
pub open spec fn first_index_of(s: Seq<char>, c: char, i: int) -> int
    decreases s.len() - i,
{
    if i < 0 || i >= s.len() {
        s.len() as int
    } else if s[i] == c {
        i
    } else {
        first_index_of(s, c, i + 1)
    }
}

/// The first index is within bounds, hits the character when in range, and
/// nothing before it matches.
pub proof fn lemma_first_index_of_props(s: Seq<char>, c: char, i: int)
    requires
        0 <= i <= s.len(),
    ensures
        i <= first_index_of(s, c, i) <= s.len(),
        first_index_of(s, c, i) < s.len() ==> s[first_index_of(s, c, i)] == c,
        forall|m: int| i <= m < first_index_of(s, c, i) ==> s[m] != c,
    decreases s.len() - i,
{
    if i < s.len() && s[i] != c {
        lemma_first_index_of_props(s, c, i + 1);
    }
}

/// A line ending's carriage return is dropped from the line.
pub open spec fn strip_cr(l: Seq<char>) -> Seq<char> {
    if l.len() > 0 && l.last() == '\r' {
        l.drop_last()
    } else {
        l
    }
}

/// The lines of a text, split at `\n` or `\r\n`, the terminator removed; a
/// final line ending produces no extra empty line.
pub open spec fn spec_lines(s: Seq<char>) -> Seq<Seq<char>>
    decreases s.len(),
{
    if s.len() == 0 {
        Seq::empty()
    } else {
        let i = first_index_of(s, '\n', 0);
        if 0 <= i && i < s.len() {
            seq![strip_cr(s.take(i))] + spec_lines(s.skip(i + 1))
        } else {
            seq![s]
        }
    }
}

/// Splits a character vector into its lines.
pub fn split_lines(v: &Vec<char>) -> (r: Vec<Vec<char>>)
    ensures
        r@.map_values(|l: Vec<char>| l@) == spec_lines(v@),
{
    let ghost sv = v@;
    let n = v.len();
    let mut r: Vec<Vec<char>> = Vec::new();
    let mut i: usize = 0;
    proof {
        assert(sv.skip(0) =~= sv);
        assert(r@.map_values(|l: Vec<char>| l@) =~= Seq::<Seq<char>>::empty());
    }
    while i < n
        invariant
            0 <= i <= n,
            sv == v@,
            n == sv.len(),
            spec_lines(sv) == r@.map_values(|l: Vec<char>| l@) + spec_lines(sv.skip(i as int)),
        decreases n - i,
    {
        let ghost prev = r@.map_values(|l: Vec<char>| l@);
        let ghost tail = sv.skip(i as int);
        let mut j: usize = i;
        while j < n && v[j] != '\n'
            invariant
                i <= j <= n,
                sv == v@,
                n == sv.len(),
                forall|m: int| i <= m < j ==> sv[m] != '\n',
            decreases n - j,
        {
            j = j + 1;
        }
        proof {
            lemma_first_index_of_props(tail, '\n', 0);
            assert forall|m: int| 0 <= m < j - i implies tail[m] != '\n' by {
                assert(tail[m] == sv[i + m]);
            }
            if j < n {
                assert(tail[j - i] == sv[j as int]);
                assert(tail[j - i] == '\n');
            }
            assert(first_index_of(tail, '\n', 0) == j - i) by {
                let f = first_index_of(tail, '\n', 0);
                if f < j - i {
                    assert(tail[f] == '\n');
                } else if f > j - i {
                    assert(j < n);
                    assert(tail[j - i] == '\n');
                }
            }
        }
        if j < n {
            let line = if j > i && v[j - 1] == '\r' {
                subvec(v, i, j - 1)
            } else {
                subvec(v, i, j)
            };
            r.push(line);
            proof {
                assert(tail.take(j - i) =~= sv.subrange(i as int, j as int));
                if j > i && sv[j - 1] == '\r' {
                    assert(strip_cr(tail.take(j - i)) =~= sv.subrange(i as int, j - 1));
                } else {
                    assert(strip_cr(tail.take(j - i)) =~= sv.subrange(i as int, j as int));
                }
                assert(tail.skip(j - i + 1) =~= sv.skip(j + 1));
                assert(spec_lines(tail) == seq![strip_cr(tail.take(j - i))] + spec_lines(
                    sv.skip(j + 1),
                ));
                assert(r@.map_values(|l: Vec<char>| l@) =~= prev.push(strip_cr(tail.take(j - i))));
                assert(prev.push(strip_cr(tail.take(j - i))) =~= prev + seq![
                    strip_cr(tail.take(j - i)),
                ]);
                assert(spec_lines(sv) == r@.map_values(|l: Vec<char>| l@) + spec_lines(
                    sv.skip(j + 1),
                )) by {
                    assert(prev + (seq![strip_cr(tail.take(j - i))] + spec_lines(sv.skip(j + 1)))
                        =~= (prev + seq![strip_cr(tail.take(j - i))]) + spec_lines(sv.skip(j + 1)));
                }
            }
            i = j + 1;
        } else {
            let line = subvec(v, i, n);
            r.push(line);
            proof {
                assert(first_index_of(tail, '\n', 0) == tail.len());
                assert(spec_lines(tail) == seq![tail]);
                assert(tail =~= sv.subrange(i as int, n as int));
                assert(r@.map_values(|l: Vec<char>| l@) =~= prev.push(tail));
                assert(prev.push(tail) =~= prev + seq![tail]);
                assert(sv.skip(n as int).len() == 0);
                assert(spec_lines(sv.skip(n as int)) =~= Seq::<Seq<char>>::empty());
                assert(prev + seq![tail] + Seq::<Seq<char>>::empty() =~= prev + seq![tail]);
            }
            i = n;
        }
    }
    proof {
        assert(sv.skip(i as int).len() == 0);
        assert(spec_lines(sv.skip(i as int)) =~= Seq::<Seq<char>>::empty());
        assert(r@.map_values(|l: Vec<char>| l@) + Seq::<Seq<char>>::empty() =~= r@.map_values(
            |l: Vec<char>| l@,
        ));
    }
    r
}

/// The pieces of a sequence split at every occurrence of the character; a
/// sequence with no occurrence is one piece, and the empty sequence is one
/// empty piece.
pub open spec fn spec_split_on(s: Seq<char>, c: char) -> Seq<Seq<char>>
    decreases s.len(),
{
    let i = first_index_of(s, c, 0);
    if 0 <= i && i < s.len() {
        seq![s.take(i)] + spec_split_on(s.skip(i + 1), c)
    } else {
        seq![s]
    }
}

/// Splits a character vector at every occurrence of the character.
pub fn split_on_char(v: &Vec<char>, c: char) -> (r: Vec<Vec<char>>)
    ensures
        r@.map_values(|l: Vec<char>| l@) == spec_split_on(v@, c),
{
    let ghost sv = v@;
    let n = v.len();
    let mut r: Vec<Vec<char>> = Vec::new();
    let mut i: usize = 0;
    let mut fin = false;
    proof {
        assert(sv.skip(0) =~= sv);
        assert(r@.map_values(|l: Vec<char>| l@) =~= Seq::<Seq<char>>::empty());
        assert(Seq::<Seq<char>>::empty() + spec_split_on(sv, c) =~= spec_split_on(sv, c));
    }
    while !fin
        invariant
            0 <= i <= n,
            sv == v@,
            n == sv.len(),
            !fin ==> spec_split_on(sv, c) == r@.map_values(|l: Vec<char>| l@) + spec_split_on(
                sv.skip(i as int),
                c,
            ),
            fin ==> spec_split_on(sv, c) == r@.map_values(|l: Vec<char>| l@),
        decreases n - i, (if fin {
            0int
        } else {
            1int
        }),
    {
        let ghost prev = r@.map_values(|l: Vec<char>| l@);
        let ghost tail = sv.skip(i as int);
        let mut j: usize = i;
        while j < n && v[j] != c
            invariant
                i <= j <= n,
                sv == v@,
                n == sv.len(),
                forall|m: int| i <= m < j ==> sv[m] != c,
            decreases n - j,
        {
            j = j + 1;
        }
        proof {
            lemma_first_index_of_props(tail, c, 0);
            assert forall|m: int| 0 <= m < j - i implies tail[m] != c by {
                assert(tail[m] == sv[i + m]);
            }
            if j < n {
                assert(tail[j - i] == sv[j as int]);
            }
            assert(first_index_of(tail, c, 0) == j - i) by {
                let f = first_index_of(tail, c, 0);
                if f < j - i {
                    assert(tail[f] == c);
                } else if f > j - i {
                    assert(j < n);
                    assert(tail[j - i] == c);
                }
            }
        }
        let piece = subvec(v, i, j);
        r.push(piece);
        if j < n {
            proof {
                assert(tail.take(j - i) =~= sv.subrange(i as int, j as int));
                assert(tail.skip(j - i + 1) =~= sv.skip(j + 1));
                assert(spec_split_on(tail, c) == seq![tail.take(j - i)] + spec_split_on(
                    sv.skip(j + 1),
                    c,
                ));
                assert(r@.map_values(|l: Vec<char>| l@) =~= prev + seq![tail.take(j - i)]);
                assert(prev + (seq![tail.take(j - i)] + spec_split_on(sv.skip(j + 1), c)) =~= (prev
                    + seq![tail.take(j - i)]) + spec_split_on(sv.skip(j + 1), c));
            }
            i = j + 1;
        } else {
            proof {
                assert(first_index_of(tail, c, 0) == tail.len());
                assert(spec_split_on(tail, c) == seq![tail]);
                assert(tail =~= sv.subrange(i as int, n as int));
                assert(r@.map_values(|l: Vec<char>| l@) =~= prev + seq![tail]);
            }
            i = n;
            fin = true;
        }
    }
    r
}

/// Whether a sequence holds no line feed.
pub open spec fn no_newline(l: Seq<char>) -> bool {
    forall|j: int| 0 <= j < l.len() ==> (#[trigger] l[j]) != '\n'
}

/// A line that survives a join-and-split round trip: it holds no line feed
/// and does not end with a bare carriage return.
pub open spec fn joinable_line(l: Seq<char>) -> bool {
    no_newline(l) && !(l.len() > 0 && l.last() == '\r')
}

/// Every line a split produces is free of line feeds.
pub proof fn lemma_lines_have_no_newline(s: Seq<char>)
    ensures
        forall|m: int|
            0 <= m < spec_lines(s).len() ==> no_newline(#[trigger] spec_lines(s)[m]),
    decreases s.len(),
{
    if s.len() > 0 {
        let i = first_index_of(s, '\n', 0);
        lemma_first_index_of_props(s, '\n', 0);
        if 0 <= i && i < s.len() {
            let line = strip_cr(s.take(i));
            assert(no_newline(line)) by {
                assert forall|j: int| 0 <= j < line.len() implies (#[trigger] line[j]) != '\n' by {
                    assert(line[j] == s.take(i)[j]);
                    assert(s.take(i)[j] == s[j]);
                }
            }
            lemma_lines_have_no_newline(s.skip(i + 1));
            assert forall|m: int|
                0 <= m < spec_lines(s).len() implies no_newline(#[trigger] spec_lines(s)[m]) by {
                if m == 0 {
                    assert(spec_lines(s)[m] == line);
                } else {
                    assert(spec_lines(s)[m] == spec_lines(s.skip(i + 1))[m - 1]);
                }
            }
        } else {
            assert(no_newline(s)) by {
                assert forall|j: int| 0 <= j < s.len() implies (#[trigger] s[j]) != '\n' by {}
            }
            assert forall|m: int|
                0 <= m < spec_lines(s).len() implies no_newline(#[trigger] spec_lines(s)[m]) by {
                assert(spec_lines(s)[m] == s);
            }
        }
    }
}

/// Splitting a join recovers the joined lines, provided each line is
/// joinable and the final line is non-empty.
pub proof fn lemma_lines_of_join(ls: Seq<Seq<char>>, k: int)
    requires
        0 <= k <= ls.len(),
        forall|i: int| k <= i < ls.len() ==> joinable_line(#[trigger] ls[i]),
        k < ls.len() ==> ls.last().len() > 0,
    ensures
        spec_lines(spec_join_from(ls, k)) == ls.skip(k),
    decreases ls.len() - k,
{
    if k >= ls.len() {
        assert(spec_join_from(ls, k) =~= Seq::<char>::empty());
        assert(spec_lines(spec_join_from(ls, k)) =~= Seq::<Seq<char>>::empty());
        assert(ls.skip(k) =~= Seq::<Seq<char>>::empty());
    } else if k == ls.len() - 1 {
        let l = ls[k];
        assert(l == ls.last());
        assert(l.len() > 0);
        assert(spec_join_from(ls, k) == l);
        lemma_first_index_of_props(l, '\n', 0);
        assert(first_index_of(l, '\n', 0) == l.len()) by {
            let f = first_index_of(l, '\n', 0);
            if f < l.len() {
                assert(l[f] == '\n');
                assert(joinable_line(l));
            }
        }
        assert(spec_lines(l) == seq![l]);
        assert(ls.skip(k) =~= seq![l]);
    } else {
        let l = ls[k];
        let rest = spec_join_from(ls, k + 1);
        let u = l + seq!['\n'] + rest;
        assert(spec_join_from(ls, k) == u);
        assert(u.len() > 0);
        assert forall|m: int| 0 <= m < l.len() implies (#[trigger] u[m]) != '\n' by {
            assert(u[m] == l[m]);
        }
        assert(u[l.len() as int] == '\n');
        lemma_first_index_of_props(u, '\n', 0);
        assert(first_index_of(u, '\n', 0) == l.len()) by {
            let f = first_index_of(u, '\n', 0);
            if f < l.len() {
                assert(u[f] == '\n');
            } else if f > l.len() {
                assert(u[l.len() as int] == '\n');
            }
        }
        assert(u.take(l.len() as int) =~= l);
        assert(strip_cr(l) == l) by {
            assert(joinable_line(l));
        }
        assert(u.skip(l.len() as int + 1) =~= rest);
        lemma_lines_of_join(ls, k + 1);
        assert(spec_lines(u) == seq![l] + ls.skip(k + 1));
        assert(seq![l] + ls.skip(k + 1) =~= ls.skip(k));
    }
}

/// The lines from index `i` on, joined with `\n` between them.
pub open spec fn spec_join_from(ls: Seq<Seq<char>>, i: int) -> Seq<char>
    decreases ls.len() - i,
{
    if i < 0 || i >= ls.len() {
        Seq::empty()
    } else if i == ls.len() - 1 {
        ls[i]
    } else {
        ls[i] + seq!['\n'] + spec_join_from(ls, i + 1)
    }
}

/// Appends all characters of `l` to `out`.
pub fn push_all(out: &mut Vec<char>, l: &Vec<char>)
    ensures
        final(out)@ == old(out)@ + l@,
{
    let mut k: usize = 0;
    proof {
        assert(old(out)@ + l@.take(0) =~= old(out)@);
    }
    while k < l.len()
        invariant
            0 <= k <= l@.len(),
            out@ == old(out)@ + l@.take(k as int),
        decreases l@.len() - k,
    {
        out.push(l[k]);
        proof {
            assert(old(out)@ + l@.take(k + 1) =~= (old(out)@ + l@.take(k as int)).push(
                l@[k as int],
            ));
        }
        k = k + 1;
    }
    proof {
        assert(l@.take(l@.len() as int) =~= l@);
    }
}

/// Joins the lines from index `from` on with `\n` between them.
pub fn join_from(lines: &Vec<Vec<char>>, from: usize) -> (r: Vec<char>)
    ensures
        r@ == spec_join_from(lines@.map_values(|l: Vec<char>| l@), from as int),
{
    let ghost ls = lines@.map_values(|l: Vec<char>| l@);
    let mut out: Vec<char> = Vec::new();
    let mut k: usize = from;
    proof {
        assert(out@ + Seq::<char>::empty() + spec_join_from(ls, from as int) =~= spec_join_from(
            ls,
            from as int,
        ));
    }
    while k < lines.len()
        invariant
            from <= k,
            ls == lines@.map_values(|l: Vec<char>| l@),
            ls.len() == lines@.len(),
            spec_join_from(ls, from as int) == out@ + (if from < k && k < lines@.len() {
                seq!['\n']
            } else {
                Seq::<char>::empty()
            }) + spec_join_from(ls, k as int),
        decreases lines@.len() - k,
    {
        let ghost prev = out@;
        let ghost sep: Seq<char> = if k > from {
            seq!['\n']
        } else {
            Seq::empty()
        };
        if k > from {
            out.push('\n');
        }
        push_all(&mut out, &lines[k]);
        proof {
            assert(ls[k as int] == lines@[k as int]@);
            assert(out@ =~= prev + sep + ls[k as int]);
            if k < ls.len() - 1 {
                assert(spec_join_from(ls, k as int) == ls[k as int] + seq!['\n'] + spec_join_from(
                    ls,
                    k + 1,
                ));
                assert(prev + sep + (ls[k as int] + seq!['\n'] + spec_join_from(ls, k + 1)) =~= (
                prev + sep + ls[k as int]) + seq!['\n'] + spec_join_from(ls, k + 1));
            } else {
                assert(spec_join_from(ls, k as int) == ls[k as int]);
                assert(spec_join_from(ls, k + 1) =~= Seq::<char>::empty());
                assert(prev + sep + ls[k as int] =~= (prev + sep + ls[k as int])
                    + Seq::<char>::empty() + Seq::<char>::empty());
            }
        }
        k = k + 1;
    }
    proof {
        assert(spec_join_from(ls, k as int) =~= Seq::<char>::empty());
        assert(out@ + (if from < k && k < lines@.len() {
            seq!['\n']
        } else {
            Seq::<char>::empty()
        }) + Seq::<char>::empty() =~= out@);
    }
    out
}


/// Relies on std's `String::push`: appends the given character to the end of
/// the string.
#[verifier::external_body]
pub(crate) fn push_char(s: &mut String, c: char)
    ensures
        final(s)@ == old(s)@.push(c),
{
    s.push(c);
}

/// Builds a string from a vector of characters.
pub fn string_of_chars(v: &Vec<char>) -> (r: String)
    ensures
        r@ == v@,
{
    let mut r = String::new();
    let mut i: usize = 0;
    while i < v.len()
        invariant
            0 <= i <= v.len(),
            r@ == v@.take(i as int),
        decreases v.len() - i,
    {
        push_char(&mut r, v[i]);
        proof {
            assert(v@.take(i + 1) =~= v@.take(i as int).push(v@[i as int]));
        }
        i = i + 1;
    }
    proof {
        assert(v@.take(v@.len() as int) =~= v@);
    }
    r
}

/// The characters of a string, as a vector.
pub fn chars_of(s: &str) -> (r: Vec<char>)
    ensures
        r@ == s@,
{
    let n = s.unicode_len();
    let mut r: Vec<char> = Vec::new();
    let mut i: usize = 0;
    while i < n
        invariant
            0 <= i <= n,
            n == s@.len(),
            r@ == s@.take(i as int),
        decreases n - i,
    {
        r.push(s.get_char(i));
        proof {
            assert(s@.take(i + 1) =~= s@.take(i as int).push(s@[i as int]));
        }
        i = i + 1;
    }
    proof {
        assert(s@.take(s@.len() as int) =~= s@);
    }
    r
}

/// The character for a decimal digit value.
pub open spec fn digit_char(d: int) -> char {
    if d == 0 {
        '0'
    } else if d == 1 {
        '1'
    } else if d == 2 {
        '2'
    } else if d == 3 {
        '3'
    } else if d == 4 {
        '4'
    } else if d == 5 {
        '5'
    } else if d == 6 {
        '6'
    } else if d == 7 {
        '7'
    } else if d == 8 {
        '8'
    } else {
        '9'
    }
}

/// The decimal digits of a nonnegative integer, most significant first.
pub open spec fn dec_digits(n: int) -> Seq<char>
    decreases n,
{
    if n < 10 {
        seq![digit_char(n)]
    } else {
        dec_digits(n / 10).push(digit_char(n % 10))
    }
}

/// The decimal rendering of a signed integer.
pub open spec fn spec_i64_dec(n: int) -> Seq<char> {
    if n < 0 {
        seq!['-'] + dec_digits(-n)
    } else {
        dec_digits(n)
    }
}

/// The character for one executable digit value.
fn digit_char_of(d: u64) -> (r: char)
    requires
        d < 10,
    ensures
        r == digit_char(d as int),
{
    if d == 0 {
        '0'
    } else if d == 1 {
        '1'
    } else if d == 2 {
        '2'
    } else if d == 3 {
        '3'
    } else if d == 4 {
        '4'
    } else if d == 5 {
        '5'
    } else if d == 6 {
        '6'
    } else if d == 7 {
        '7'
    } else if d == 8 {
        '8'
    } else {
        '9'
    }
}

/// Renders a signed 64-bit integer in decimal.
pub fn i64_to_dec(n: i64) -> (r: String)
    ensures
        r@ == spec_i64_dec(n as int),
{
    let neg = n < 0;
    let mut m: u64 = if n >= 0 {
        n as u64
    } else if n == i64::MIN {
        9223372036854775808u64
    } else {
        (-n) as u64
    };
    let ghost m0 = m as int;
    let mut v: Vec<char> = Vec::new();
    if m == 0 {
        v.push('0');
        proof {
            assert(v@ =~= dec_digits(m0));
        }
    } else {
        while m > 0
            invariant
                m >= 0,
                m > 0 ==> dec_digits(m0) == dec_digits(m as int) + v@,
                m == 0 ==> dec_digits(m0) == v@,
            decreases m,
        {
            let d = m % 10;
            let c = digit_char_of(d);
            let ghost ov = v@;
            v.insert(0, c);
            proof {
                assert(v@ =~= seq![c] + ov);
                if m >= 10 {
                    assert(dec_digits(m as int) == dec_digits(m as int / 10).push(c));
                    assert(dec_digits(m as int / 10).push(c) + ov =~= dec_digits(m as int / 10)
                        + (seq![c] + ov));
                    assert((m / 10) as int == m as int / 10);
                } else {
                    assert(dec_digits(m as int) =~= seq![c]);
                    assert(dec_digits(m as int) + ov =~= seq![c] + ov);
                }
            }
            m = m / 10;
        }
    }
    let mut out = String::new();
    if neg {
        push_char(&mut out, '-');
    }
    let mut i: usize = 0;
    while i < v.len()
        invariant
            0 <= i <= v.len(),
            out@ == (if neg {
                seq!['-']
            } else {
                Seq::<char>::empty()
            }) + v@.take(i as int),
            dec_digits(m0) == v@,
            neg ==> m0 == -(n as int),
            !neg ==> m0 == n as int,
        decreases v.len() - i,
    {
        push_char(&mut out, v[i]);
        proof {
            assert(v@.take(i + 1) =~= v@.take(i as int).push(v@[i as int]));
            assert(out@ =~= (if neg {
                seq!['-']
            } else {
                Seq::<char>::empty()
            }) + v@.take(i + 1));
        }
        i = i + 1;
    }
    proof {
        assert(v@.take(v@.len() as int) =~= v@);
        if neg {
            assert(out@ =~= seq!['-'] + dec_digits(-(n as int)));
        } else {
            assert(out@ =~= dec_digits(n as int));
        }
    }
    out
}

} // verus!
