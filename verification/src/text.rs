//! Character-level scanning used by the trace-line parsers: substring search,
//! whitespace tokens, trimming and decimal integers, each stated over the
//! character sequence of the input.
use vstd::prelude::*;
use vstd::std_specs::iter::IteratorSpec;

verus! {

/// `char::is_whitespace`: the Unicode `White_Space` property.
pub open spec fn is_ws(c: char) -> bool {
    let v = c as u32;
    ||| (9 <= v && v <= 13)
    ||| v == 32
    ||| v == 0x85
    ||| v == 0xa0
    ||| v == 0x1680
    ||| (0x2000 <= v && v <= 0x200a)
    ||| v == 0x2028
    ||| v == 0x2029
    ||| v == 0x202f
    ||| v == 0x205f
    ||| v == 0x3000
}

/// The first index at or after `i` where `pat` occurs in `s` (`str::find`
/// when `i` is zero).
pub open spec fn find_from(s: Seq<char>, pat: Seq<char>, i: nat) -> Option<nat>
    decreases s.len() + 1 - i,
{
    if i + pat.len() > s.len() {
        None
    } else if s.subrange(i as int, (i + pat.len()) as int) =~= pat {
        Some(i)
    } else {
        find_from(s, pat, i + 1)
    }
}

/// `str::find`: the first index where `pat` occurs in `s`.
pub open spec fn find(s: Seq<char>, pat: Seq<char>) -> Option<nat> {
    find_from(s, pat, 0)
}

/// The first index at or after `i` that does not hold whitespace.
pub open spec fn skip_ws(s: Seq<char>, i: nat) -> nat
    decreases s.len() - i,
{
    if i < s.len() && is_ws(s[i as int]) {
        skip_ws(s, i + 1)
    } else {
        i
    }
}

/// The first index at or after `i` that holds whitespace, or the end.
pub open spec fn token_end(s: Seq<char>, i: nat) -> nat
    decreases s.len() - i,
{
    if i < s.len() && !is_ws(s[i as int]) {
        token_end(s, i + 1)
    } else {
        i
    }
}

/// `str::split_whitespace().next()`: the first maximal run of
/// non-whitespace characters, if there is one.
pub open spec fn first_token(s: Seq<char>) -> Option<Seq<char>> {
    let a = skip_ws(s, 0);
    if a >= s.len() {
        None
    } else {
        Some(s.subrange(a as int, token_end(s, a) as int))
    }
}

/// The end of `s.take(j)` once trailing whitespace is removed.
pub open spec fn trim_end_from(s: Seq<char>, j: nat) -> nat
    decreases j,
{
    if 0 < j && j <= s.len() && is_ws(s[j - 1]) {
        trim_end_from(s, (j - 1) as nat)
    } else {
        j
    }
}

/// `str::trim`: `s` without leading and trailing whitespace.
pub open spec fn trim(s: Seq<char>) -> Seq<char> {
    let a = skip_ws(s, 0);
    if a >= s.len() {
        Seq::empty()
    } else {
        s.subrange(a as int, trim_end_from(s, s.len()) as int)
    }
}

/// An ASCII decimal digit.
pub open spec fn is_digit(c: char) -> bool {
    48 <= (c as u32) && (c as u32) <= 57
}

/// Every character of `s` is a decimal digit.
pub open spec fn all_digits(s: Seq<char>) -> bool {
    forall|i: int| 0 <= i < s.len() ==> is_digit(#[trigger] s[i])
}

/// The value of a string of decimal digits, most significant first.
pub open spec fn digits_value(s: Seq<char>) -> nat
    decreases s.len(),
{
    if s.len() == 0 {
        0
    } else {
        digits_value(s.drop_last()) * 10 + ((s.last() as u32) - 48) as nat
    }
}

/// A non-empty string of decimal digits whose value is at most `max`.
pub open spec fn bounded_digits(s: Seq<char>, max: nat) -> Option<nat> {
    if s.len() > 0 && all_digits(s) && digits_value(s) <= max {
        Some(digits_value(s))
    } else {
        None
    }
}

/// `FromStr` of an unsigned integer type whose largest value is `max`: an
/// optional `+` followed by one or more decimal digits.
pub open spec fn parse_unsigned(s: Seq<char>, max: nat) -> Option<nat> {
    if s.len() > 0 && s[0] == '+' {
        bounded_digits(s.drop_first(), max)
    } else {
        bounded_digits(s, max)
    }
}

/// `i32::from_str`: an optional `+` or `-` followed by one or more decimal
/// digits, in the range of `i32`.
pub open spec fn parse_i32(s: Seq<char>) -> Option<int> {
    if s.len() > 0 && s[0] == '-' {
        match bounded_digits(s.drop_first(), 2147483648) {
            Some(v) => Some(-v),
            None => None,
        }
    } else {
        match parse_unsigned(s, 2147483647) {
            Some(v) => Some(v as int),
            None => None,
        }
    }
}

/// Extending a string of digits never lowers its value.
pub proof fn lemma_digits_value_prefix(s: Seq<char>, k: int)
    requires
        0 <= k <= s.len(),
        all_digits(s),
    ensures
        digits_value(s.take(k)) <= digits_value(s),
    decreases s.len() - k,
{
    if k < s.len() {
        lemma_digits_value_prefix(s, k + 1);
        assert(s.take(k + 1).drop_last() =~= s.take(k));
        assert(is_digit(s[k]));
    } else {
        assert(s.take(k) =~= s);
    }
}

/// The characters of `s`, in order.
pub fn chars_of(s: &str) -> (v: Vec<char>)
    ensures
        v@ == s@,
{
    let mut v: Vec<char> = Vec::new();
    let it = s.chars();
    for c in iter: it
        invariant
            v@ == iter.seq().take(iter.index() as int),
            iter.seq() == s@,
    {
        v.push(c);
    }
    v
}

/// The characters `s[from..to]` as a new vector.
pub fn copy_range(s: &Vec<char>, from: usize, to: usize) -> (v: Vec<char>)
    requires
        from <= to <= s.len(),
    ensures
        v@ == s@.subrange(from as int, to as int),
{
    let mut v: Vec<char> = Vec::new();
    let mut k = from;
    while k < to
        invariant
            from <= k <= to <= s.len(),
            v@ == s@.subrange(from as int, k as int),
        decreases to - k,
    {
        v.push(s[k]);
        k += 1;
    }
    v
}

/// Decides `is_ws`.
pub fn is_whitespace(c: char) -> (b: bool)
    ensures
        b == is_ws(c),
{
    let v = c as u32;
    (9 <= v && v <= 13) || v == 32 || v == 0x85 || v == 0xa0 || v == 0x1680 || (0x2000 <= v
        && v <= 0x200a) || v == 0x2028 || v == 0x2029 || v == 0x202f || v == 0x205f || v == 0x3000
}

/// Whether `pat` occurs in `s` at index `i`.
fn occurs_at(s: &Vec<char>, pat: &Vec<char>, i: usize) -> (b: bool)
    requires
        i + pat.len() <= s.len(),
    ensures
        b == (s@.subrange(i as int, i + pat.len()) =~= pat@),
{
    let mut j: usize = 0;
    while j < pat.len()
        invariant
            j <= pat.len(),
            i + pat.len() <= s.len(),
            forall|t: int| 0 <= t < j ==> s@[i + t] == pat@[t],
        decreases pat.len() - j,
    {
        if s[i + j] != pat[j] {
            assert(s@.subrange(i as int, i + pat.len())[j as int] != pat@[j as int]);
            return false;
        }
        j += 1;
    }
    true
}

/// `find`: the first index where `pat` occurs in `s`.
pub fn find_chars(s: &Vec<char>, pat: &Vec<char>) -> (r: Option<usize>)
    ensures
        match r {
            Some(i) => find(s@, pat@) == Some(i as nat) && i + pat.len() <= s.len(),
            None => find(s@, pat@) is None,
        },
{
    let mut i: usize = 0;
    while i <= s.len() && pat.len() <= s.len() - i
        invariant
            find(s@, pat@) == find_from(s@, pat@, i as nat),
        decreases s.len() + 1 - i,
    {
        if occurs_at(s, pat, i) {
            return Some(i);
        }
        i += 1;
    }
    None
}

/// `skip_ws(s, i)`.
pub fn skip_whitespace(s: &Vec<char>, i: usize) -> (r: usize)
    requires
        i <= s.len(),
    ensures
        r == skip_ws(s@, i as nat),
        i <= r <= s.len(),
{
    let mut k = i;
    while k < s.len() && is_whitespace(s[k])
        invariant
            i <= k <= s.len(),
            skip_ws(s@, i as nat) == skip_ws(s@, k as nat),
        decreases s.len() - k,
    {
        k += 1;
    }
    k
}

/// `token_end(s, i)`.
pub fn token_end_at(s: &Vec<char>, i: usize) -> (r: usize)
    requires
        i <= s.len(),
    ensures
        r == token_end(s@, i as nat),
        i <= r <= s.len(),
{
    let mut k = i;
    while k < s.len() && !is_whitespace(s[k])
        invariant
            i <= k <= s.len(),
            token_end(s@, i as nat) == token_end(s@, k as nat),
        decreases s.len() - k,
    {
        k += 1;
    }
    k
}

/// The bounds of `first_token(s@.skip(from))` within `s`.
pub fn first_token_range(s: &Vec<char>, from: usize) -> (r: Option<(usize, usize)>)
    requires
        from <= s.len(),
    ensures
        match r {
            Some((a, b)) => from <= a <= b <= s.len() && first_token(s@.subrange(from as int, s.len() as int))
                == Some(s@.subrange(a as int, b as int)),
            None => first_token(s@.subrange(from as int, s.len() as int)) is None,
        },
{
    let ghost rest = s@.subrange(from as int, s.len() as int);
    let a = skip_whitespace(s, from);
    proof {
        lemma_skip_ws_shift(s@, from as nat, 0);
    }
    if a >= s.len() {
        return None;
    }
    let b = token_end_at(s, a);
    proof {
        lemma_token_end_shift(s@, from as nat, (a - from) as nat);
        assert(rest.subrange((a - from) as int, (b - from) as int) =~= s@.subrange(
            a as int,
            b as int,
        ));
    }
    Some((a, b))
}

/// Skipping whitespace in a suffix of `s` is skipping it in `s`.
proof fn lemma_skip_ws_shift(s: Seq<char>, from: nat, i: nat)
    requires
        from <= s.len(),
        from + i <= s.len(),
    ensures
        skip_ws(s.subrange(from as int, s.len() as int), i) + from == skip_ws(s, from + i),
    decreases s.len() - (from + i),
{
    let rest = s.subrange(from as int, s.len() as int);
    if from + i < s.len() {
        assert(rest[i as int] == s[(from + i) as int]);
        lemma_skip_ws_shift(s, from, i + 1);
    }
}

/// Scanning a token in a suffix of `s` is scanning it in `s`.
proof fn lemma_token_end_shift(s: Seq<char>, from: nat, i: nat)
    requires
        from <= s.len(),
        from + i <= s.len(),
    ensures
        token_end(s.subrange(from as int, s.len() as int), i) + from == token_end(s, from + i),
    decreases s.len() - (from + i),
{
    let rest = s.subrange(from as int, s.len() as int);
    if from + i < s.len() {
        assert(rest[i as int] == s[(from + i) as int]);
        lemma_token_end_shift(s, from, i + 1);
    }
}

/// `skip_ws` stops at a non-whitespace character or at the end.
proof fn lemma_skip_ws_stops(s: Seq<char>, i: nat)
    requires
        i <= s.len(),
    ensures
        i <= skip_ws(s, i) <= s.len(),
        skip_ws(s, i) < s.len() ==> !is_ws(s[skip_ws(s, i) as int]),
    decreases s.len() - i,
{
    if i < s.len() && is_ws(s[i as int]) {
        lemma_skip_ws_stops(s, i + 1);
    }
}

/// Trailing-whitespace removal never passes a non-whitespace character.
proof fn lemma_trim_end_bound(s: Seq<char>, j: nat, a: nat)
    requires
        j <= s.len(),
        a < j,
        !is_ws(s[a as int]),
    ensures
        a < trim_end_from(s, j) <= j,
    decreases j,
{
    if is_ws(s[j - 1]) {
        lemma_trim_end_bound(s, (j - 1) as nat, a);
    }
}

/// `trim_end_from(s, j)`.
fn trim_end_at(s: &Vec<char>, j: usize) -> (r: usize)
    requires
        j <= s.len(),
    ensures
        r == trim_end_from(s@, j as nat),
        r <= j,
{
    let mut k = j;
    while k > 0 && is_whitespace(s[k - 1])
        invariant
            k <= j <= s.len(),
            trim_end_from(s@, j as nat) == trim_end_from(s@, k as nat),
        decreases k,
    {
        k -= 1;
    }
    k
}

/// The bounds of `trim(s@.skip(from))` within `s`.
pub fn trim_range(s: &Vec<char>, from: usize) -> (r: (usize, usize))
    requires
        from <= s.len(),
    ensures
        from <= r.0 <= r.1 <= s.len(),
        trim(s@.subrange(from as int, s.len() as int)) == s@.subrange(r.0 as int, r.1 as int),
{
    let ghost rest = s@.subrange(from as int, s.len() as int);
    let a = skip_whitespace(s, from);
    proof {
        lemma_skip_ws_shift(s@, from as nat, 0);
        lemma_skip_ws_stops(s@, from as nat);
    }
    if a >= s.len() {
        assert(s@.subrange(a as int, a as int) =~= Seq::<char>::empty());
        return (a, a);
    }
    let b = trim_end_at(s, s.len());
    proof {
        lemma_trim_end_bound(s@, s.len() as nat, a as nat);
        lemma_trim_end_shift(s@, from as nat, rest.len());
        assert(rest.subrange((a - from) as int, (b - from) as int) =~= s@.subrange(
            a as int,
            b as int,
        ));
    }
    (a, b)
}

/// Trimming the end of a suffix of `s` is trimming the end of `s`, stopped at
/// the suffix's start.
proof fn lemma_trim_end_shift(s: Seq<char>, from: nat, j: nat)
    requires
        from <= s.len(),
        from + j <= s.len(),
    ensures
        trim_end_from(s, from + j) <= from + j,
        trim_end_from(s.subrange(from as int, s.len() as int), j) + from == if trim_end_from(
            s,
            from + j,
        ) >= from {
            trim_end_from(s, from + j)
        } else {
            from
        },
    decreases j,
{
    let rest = s.subrange(from as int, s.len() as int);
    if j > 0 {
        assert(rest[j - 1] == s[from + j - 1]);
        if is_ws(s[from + j - 1]) {
            lemma_trim_end_shift(s, from, (j - 1) as nat);
        }
    } else {
        lemma_trim_end_le(s, from);
    }
}

/// Trailing-whitespace removal only moves left.
proof fn lemma_trim_end_le(s: Seq<char>, j: nat)
    ensures
        trim_end_from(s, j) <= j,
    decreases j,
{
    if 0 < j && j <= s.len() && is_ws(s[j - 1]) {
        lemma_trim_end_le(s, (j - 1) as nat);
    }
}

/// `bounded_digits(s[from..to], max)`, computed without overflow.
pub fn parse_digits(s: &Vec<char>, from: usize, to: usize, max: u64) -> (r: Option<u64>)
    requires
        from <= to <= s.len(),
        max <= 0xffff_ffff,
    ensures
        match r {
            Some(v) => bounded_digits(s@.subrange(from as int, to as int), max as nat) == Some(
                v as nat,
            ),
            None => bounded_digits(s@.subrange(from as int, to as int), max as nat) is None,
        },
{
    let ghost t = s@.subrange(from as int, to as int);
    if from == to {
        return None;
    }
    let mut acc: u64 = 0;
    let mut k = from;
    while k < to
        invariant
            from <= k <= to <= s.len(),
            max <= 0xffff_ffff,
            t == s@.subrange(from as int, to as int),
            acc as nat == digits_value(t.take(k - from)),
            acc <= max,
            all_digits(t.take(k - from)),
        decreases to - k,
    {
        let c = s[k];
        let code = c as u32;
        if code < 48 || code > 57 {
            assert(t[k - from] == c);
            assert(!all_digits(t));
            return None;
        }
        assert(t.take(k + 1 - from).drop_last() =~= t.take(k - from));
        assert(t.take(k + 1 - from).last() == c);
        assert(all_digits(t.take(k + 1 - from))) by {
            assert forall|i: int| 0 <= i < t.take(k + 1 - from).len() implies is_digit(
                #[trigger] t.take(k + 1 - from)[i],
            ) by {
                if i < k - from {
                    assert(t.take(k + 1 - from)[i] == t.take(k - from)[i]);
                }
            }
        }
        acc = acc * 10 + (code - 48) as u64;
        k += 1;
        if acc > max {
            proof {
                if all_digits(t) {
                    lemma_digits_value_prefix(t, k - from);
                }
            }
            return None;
        }
    }
    assert(t.take(to - from) =~= t);
    Some(acc)
}

/// `parse_unsigned(s[from..to], max)`.
pub fn parse_unsigned_range(s: &Vec<char>, from: usize, to: usize, max: u64) -> (r: Option<u64>)
    requires
        from <= to <= s.len(),
        max <= 0xffff_ffff,
    ensures
        match r {
            Some(v) => parse_unsigned(s@.subrange(from as int, to as int), max as nat) == Some(
                v as nat,
            ),
            None => parse_unsigned(s@.subrange(from as int, to as int), max as nat) is None,
        },
{
    let ghost t = s@.subrange(from as int, to as int);
    if from < to && s[from] == '+' {
        assert(t.drop_first() =~= s@.subrange(from + 1, to as int));
        parse_digits(s, from + 1, to, max)
    } else {
        parse_digits(s, from, to, max)
    }
}

/// `parse_i32(s[from..to])`.
pub fn parse_i32_range(s: &Vec<char>, from: usize, to: usize) -> (r: Option<i32>)
    requires
        from <= to <= s.len(),
    ensures
        match r {
            Some(v) => parse_i32(s@.subrange(from as int, to as int)) == Some(v as int),
            None => parse_i32(s@.subrange(from as int, to as int)) is None,
        },
{
    let ghost t = s@.subrange(from as int, to as int);
    if from < to && s[from] == '-' {
        assert(t.drop_first() =~= s@.subrange(from + 1, to as int));
        match parse_digits(s, from + 1, to, 2147483648) {
            Some(v) => {
                if v == 2147483648 {
                    Some(i32::MIN)
                } else {
                    Some(-(v as i32))
                }
            },
            None => None,
        }
    } else {
        match parse_unsigned_range(s, from, to, 2147483647) {
            Some(v) => Some(v as i32),
            None => None,
        }
    }
}

/// Whether two strings hold the same characters.
pub fn str_eq(a: &str, b: &str) -> (r: bool)
    ensures
        r == (a@ == b@),
{
    let x = chars_of(a);
    let y = chars_of(b);
    if x.len() != y.len() {
        return false;
    }
    let mut i: usize = 0;
    while i < x.len()
        invariant
            i <= x.len() == y.len(),
            x@ == a@,
            y@ == b@,
            forall|t: int| 0 <= t < i ==> x@[t] == y@[t],
        decreases x.len() - i,
    {
        if x[i] != y[i] {
            assert(a@[i as int] != b@[i as int]);
            return false;
        }
        i += 1;
    }
    assert(x@ =~= y@);
    true
}

/// A copy of a list of strings.
pub fn clone_strings(v: &Vec<String>) -> (r: Vec<String>)
    ensures
        r@ == v@,
{
    let mut r: Vec<String> = Vec::new();
    let mut i: usize = 0;
    while i < v.len()
        invariant
            i <= v.len(),
            r@ == v@.take(i as int),
        decreases v.len() - i,
    {
        r.push(v[i].clone());
        assert(r@ =~= v@.take(i + 1));
        i += 1;
    }
    assert(v@.take(v.len() as int) =~= v@);
    r
}

/// Whether `pat` occurs in `s` starting at index `j`.
pub open spec fn occurs_at_index(s: Seq<char>, pat: Seq<char>, j: int) -> bool {
    0 <= j && j + pat.len() <= s.len() && s.subrange(j, j + pat.len()) == pat
}

/// Whether `pat` occurs anywhere in `s`.
pub open spec fn contains_text(s: Seq<char>, pat: Seq<char>) -> bool {
    exists|j: int| occurs_at_index(s, pat, j)
}

/// A window of `s` that differs from `pat` at one position is no occurrence.
pub proof fn lemma_mismatch(s: Seq<char>, pat: Seq<char>, j: int, k: int)
    requires
        0 <= k < pat.len(),
        0 <= j + k < s.len(),
        s[j + k] != pat[k],
    ensures
        !occurs_at_index(s, pat, j),
{
    if occurs_at_index(s, pat, j) {
        assert(s.subrange(j, j + pat.len())[k] == s[j + k]);
    }
}

proof fn lemma_find_from_first(s: Seq<char>, pat: Seq<char>, i: nat, k: nat)
    requires
        i <= k,
        occurs_at_index(s, pat, k as int),
        forall|j: int| i <= j < k ==> !occurs_at_index(s, pat, j),
    ensures
        find_from(s, pat, i) == Some(k),
    decreases k - i,
{
    if i < k {
        assert(!occurs_at_index(s, pat, i as int));
        lemma_find_from_first(s, pat, i + 1, k);
    } else {
        assert(s.subrange(i as int, (i + pat.len()) as int) =~= pat);
    }
}

/// `find` gives the first occurrence.
pub proof fn lemma_find_first(s: Seq<char>, pat: Seq<char>, k: nat)
    requires
        occurs_at_index(s, pat, k as int),
        forall|j: int| 0 <= j < k ==> !occurs_at_index(s, pat, j),
    ensures
        find(s, pat) == Some(k),
{
    lemma_find_from_first(s, pat, 0, k);
}

/// An occurrence found in `s` is still the first one in `s + t`.
pub proof fn lemma_find_from_extend(s: Seq<char>, t: Seq<char>, pat: Seq<char>, i: nat)
    requires
        find_from(s, pat, i) is Some,
    ensures
        find_from(s + t, pat, i) == find_from(s, pat, i),
    decreases s.len() + 1 - i,
{
    if i + pat.len() <= s.len() {
        assert((s + t).subrange(i as int, (i + pat.len()) as int) =~= s.subrange(
            i as int,
            (i + pat.len()) as int,
        ));
        if !(s.subrange(i as int, (i + pat.len()) as int) =~= pat) {
            lemma_find_from_extend(s, t, pat, i + 1);
        }
    }
}

proof fn lemma_token_end_run(x: Seq<char>, i: nat, n: nat)
    requires
        i <= n <= x.len(),
        forall|m: int| i <= m < n ==> !is_ws(#[trigger] x[m]),
        n < x.len() ==> is_ws(x[n as int]),
    ensures
        token_end(x, i) == n,
    decreases n - i,
{
    if i < n {
        lemma_token_end_run(x, i + 1, n);
    }
}

/// The first word of a string that starts with `n` non-whitespace characters
/// followed by whitespace or the end is those characters.
pub proof fn lemma_first_token_run(x: Seq<char>, n: nat)
    requires
        0 < n <= x.len(),
        forall|m: int| 0 <= m < n ==> !is_ws(#[trigger] x[m]),
        n < x.len() ==> is_ws(x[n as int]),
    ensures
        first_token(x) == Some(x.subrange(0, n as int)),
{
    assert(!is_ws(x[0]));
    assert(skip_ws(x, 0) == 0);
    lemma_token_end_run(x, 0, n);
}

/// The decimal digit character for `d < 10`.
pub open spec fn digit_char(d: nat) -> char {
    seq!['0', '1', '2', '3', '4', '5', '6', '7', '8', '9'][d as int]
}

/// The character code of a decimal digit character.
pub proof fn lemma_digit_char(d: nat)
    requires
        d < 10,
    ensures
        digit_char(d) as u32 == 48 + d,
{
    if d == 0 {
    } else if d == 1 {
    } else if d == 2 {
    } else if d == 3 {
    } else if d == 4 {
    } else if d == 5 {
    } else if d == 6 {
    } else if d == 7 {
    } else if d == 8 {
    } else {
    }
}

/// `n` written in decimal, as `{}` formats an unsigned integer.
pub open spec fn decimal(n: nat) -> Seq<char>
    decreases n,
{
    if n < 10 {
        seq![digit_char(n)]
    } else {
        decimal(n / 10).push(digit_char(n % 10))
    }
}

/// `v` written in decimal, with a leading `-` when negative, as `{}` formats
/// a signed integer.
pub open spec fn signed_decimal(v: int) -> Seq<char> {
    if v < 0 {
        seq!['-'] + decimal((-v) as nat)
    } else {
        decimal(v as nat)
    }
}

/// A decimal numeral is a non-empty string of digits whose value is the
/// number.
pub proof fn lemma_decimal(n: nat)
    ensures
        decimal(n).len() > 0,
        all_digits(decimal(n)),
        digits_value(decimal(n)) == n,
    decreases n,
{
    lemma_digit_char(n % 10);
    if n < 10 {
        let s = decimal(n);
        assert(s.drop_last() =~= Seq::<char>::empty());
        assert(digits_value(s.drop_last()) == 0);
        assert(s.last() as u32 == 48 + n);
    } else {
        lemma_decimal(n / 10);
        let s = decimal(n);
        assert(s.drop_last() =~= decimal(n / 10));
        assert(s.last() == digit_char(n % 10));
        assert(digits_value(s) == digits_value(decimal(n / 10)) * 10 + (n % 10));
        assert forall|i: int| 0 <= i < s.len() implies is_digit(#[trigger] s[i]) by {
            if i < s.len() - 1 {
                assert(s[i] == decimal(n / 10)[i]);
            }
        }
    }
}

/// Digits are not whitespace.
pub proof fn lemma_digit_not_ws(c: char)
    requires
        is_digit(c),
    ensures
        !is_ws(c),
        c != '+',
        c != '-',
{
}

/// Reading a decimal numeral back gives the number.
pub proof fn lemma_parse_decimal(n: nat, max: nat)
    requires
        n <= max,
    ensures
        parse_unsigned(decimal(n), max) == Some(n),
{
    lemma_decimal(n);
    lemma_digit_not_ws(decimal(n)[0]);
}

/// Reading a signed decimal numeral of an `i32` back gives the number.
pub proof fn lemma_parse_signed_decimal(v: int)
    requires
        -2147483648 <= v <= 2147483647,
    ensures
        parse_i32(signed_decimal(v)) == Some(v),
{
    if v < 0 {
        let s = signed_decimal(v);
        assert(s.drop_first() =~= decimal((-v) as nat));
        lemma_decimal((-v) as nat);
    } else {
        lemma_decimal(v as nat);
        lemma_digit_not_ws(decimal(v as nat)[0]);
    }
}

/// A signed decimal numeral holds no whitespace.
pub proof fn lemma_signed_decimal_no_ws(v: int)
    ensures
        signed_decimal(v).len() > 0,
        forall|i: int| 0 <= i < signed_decimal(v).len() ==> !is_ws(#[trigger] signed_decimal(v)[i]),
{
    let d = decimal(if v < 0 { (-v) as nat } else { v as nat });
    lemma_decimal(if v < 0 { (-v) as nat } else { v as nat });
    assert forall|i: int| 0 <= i < signed_decimal(v).len() implies !is_ws(#[trigger] signed_decimal(v)[i]) by {
        if v < 0 {
            if i > 0 {
                assert(signed_decimal(v)[i] == d[i - 1]);
                lemma_digit_not_ws(d[i - 1]);
            }
        } else {
            lemma_digit_not_ws(d[i]);
        }
    }
}

} // verus!
