//! Character-level text handling shared by the rest of the crate: turning
//! strings into character vectors and back, decimal numerals, the Unicode
//! white-space class, trimming and substring search.
use vstd::prelude::*;

verus! {

broadcast use vstd::string::group_string_axioms;

/// Appends one character to a string.
///
/// Trusted: calls `String::push`, whose documentation says it appends the
/// given `char` to the end of the string. The contract claims exactly that.
#[verifier::external_body]
pub(crate) fn push_char(s: &mut String, c: char)
    ensures
        final(s)@ == old(s)@.push(c),
{
    s.push(c);
}

/// The characters of `s`, in order.
pub fn chars_of(s: &str) -> (v: Vec<char>)
    ensures
        v@ == s@,
{
    let mut v: Vec<char> = Vec::new();
    for c in it: s.chars()
        invariant
            it.seq() == s@,
            v@ == it.seq().take(it.index() as int),
    {
        v.push(c);
    }
    v
}

/// A string made of the given characters.
pub fn string_of(v: &[char]) -> (s: String)
    ensures
        s@ == v@,
{
    let mut s = String::new();
    let mut i: usize = 0;
    while i < v.len()
        invariant
            i <= v@.len(),
            s@ == v@.take(i as int),
        decreases v@.len() - i,
    {
        push_char(&mut s, v[i]);
        i = i + 1;
        assert(s@ =~= v@.take(i as int));
    }
    assert(v@.take(v@.len() as int) =~= v@);
    s
}

/// The decimal digit character for a value below ten.
pub open spec fn digit_char(d: nat) -> char {
    if d == 0 {
        '0'
    } else if d == 1 {
        '1'
    } else if d == 2 {
        '2'
    } else if d == 3 {
        '3'
    } else if d == 4 {
        '4'
    } else if d == 5 {
        '5'
    } else if d == 6 {
        '6'
    } else if d == 7 {
        '7'
    } else if d == 8 {
        '8'
    } else {
        '9'
    }
}

/// Whether a character is one of the ASCII decimal digits.
pub open spec fn is_digit(c: char) -> bool {
    '0' <= c && c <= '9'
}

/// The value of a decimal digit character.
pub open spec fn digit_value(c: char) -> nat {
    ((c as u32) - ('0' as u32)) as nat
}

/// The decimal numeral of a natural number, without leading zeros
/// (what `Display` prints for an unsigned integer).
pub open spec fn nat_text(n: nat) -> Seq<char>
    decreases n,
{
    if n < 10 {
        seq![digit_char(n)]
    } else {
        nat_text(n / 10).push(digit_char(n % 10))
    }
}

/// The decimal numeral of an integer, with a leading `-` when negative
/// (what `Display` prints for a signed integer).
pub open spec fn int_text(i: int) -> Seq<char> {
    if i < 0 {
        seq!['-'] + nat_text((-i) as nat)
    } else {
        nat_text(i as nat)
    }
}

fn digit(d: u64) -> (c: char)
    requires
        d < 10,
    ensures
        c == digit_char(d as nat),
{
    if d == 0 {
        '0'
    } else if d == 1 {
        '1'
    } else if d == 2 {
        '2'
    } else if d == 3 {
        '3'
    } else if d == 4 {
        '4'
    } else if d == 5 {
        '5'
    } else if d == 6 {
        '6'
    } else if d == 7 {
        '7'
    } else if d == 8 {
        '8'
    } else {
        '9'
    }
}

/// Appends the decimal numeral of `n`.
pub fn push_nat(s: &mut String, n: u64)
    ensures
        final(s)@ == old(s)@ + nat_text(n as nat),
    decreases n,
{
    let ghost start = s@;
    if n >= 10 {
        push_nat(s, n / 10);
    }
    push_char(s, digit(n % 10));
    assert(s@ =~= start + nat_text(n as nat));
}

/// Appends the decimal numeral of `i`.
pub fn push_int(s: &mut String, i: i64)
    ensures
        final(s)@ == old(s)@ + int_text(i as int),
{
    let ghost start = s@;
    if i < 0 {
        push_char(s, '-');
        let magnitude: u64 = (-(i as i128)) as u64;
        push_nat(s, magnitude);
        assert(s@ =~= start + int_text(i as int));
    } else {
        push_nat(s, i as u64);
    }
}

/// The decimal numeral of `n` as a new string.
pub fn nat_string(n: u64) -> (t: String)
    ensures
        t@ == nat_text(n as nat),
{
    let mut t = String::new();
    push_nat(&mut t, n);
    assert(t@ =~= nat_text(n as nat));
    t
}

/// Whether a character has the Unicode `White_Space` property, the class
/// that `char::is_whitespace` and `str::trim` use.
pub open spec fn is_white(c: char) -> bool {
    let n = c as u32;
    (9 <= n && n <= 13) || n == 32 || n == 0x85 || n == 0xA0 || n == 0x1680 || (0x2000 <= n && n
        <= 0x200A) || n == 0x2028 || n == 0x2029 || n == 0x202F || n == 0x205F || n == 0x3000
}

/// Whether `c` is white space, as `char::is_whitespace` decides.
pub fn is_whitespace(c: char) -> (b: bool)
    ensures
        b == is_white(c),
{
    let n = c as u32;
    (9 <= n && n <= 13) || n == 32 || n == 0x85 || n == 0xA0 || n == 0x1680 || (0x2000 <= n && n
        <= 0x200A) || n == 0x2028 || n == 0x2029 || n == 0x202F || n == 0x205F || n == 0x3000
}

/// `s` without its leading white space.
pub open spec fn trim_start(s: Seq<char>) -> Seq<char>
    decreases s.len(),
{
    if s.len() > 0 && is_white(s[0]) {
        trim_start(s.drop_first())
    } else {
        s
    }
}

/// `s` without its trailing white space.
pub open spec fn trim_end(s: Seq<char>) -> Seq<char>
    decreases s.len(),
{
    if s.len() > 0 && is_white(s.last()) {
        trim_end(s.drop_last())
    } else {
        s
    }
}

/// `s` without leading and trailing white space (`str::trim`).
pub open spec fn trim(s: Seq<char>) -> Seq<char> {
    trim_end(trim_start(s))
}

pub proof fn lemma_trim_start_at(s: Seq<char>, a: int)
    requires
        0 <= a <= s.len(),
        forall|i: int| 0 <= i < a ==> is_white(#[trigger] s[i]),
        a == s.len() || !is_white(s[a]),
    ensures
        trim_start(s) == s.skip(a),
    decreases a,
{
    if a > 0 {
        let t = s.drop_first();
        assert forall|i: int| 0 <= i < a - 1 implies is_white(#[trigger] t[i]) by {
            assert(t[i] == s[i + 1]);
        }
        lemma_trim_start_at(t, a - 1);
        assert(t.skip(a - 1) =~= s.skip(a));
    } else {
        assert(s.skip(0) =~= s);
    }
}

pub proof fn lemma_trim_end_at(s: Seq<char>, b: int)
    requires
        0 <= b <= s.len(),
        forall|i: int| b <= i < s.len() ==> is_white(#[trigger] s[i]),
        b == 0 || !is_white(s[b - 1]),
    ensures
        trim_end(s) == s.take(b),
    decreases s.len() - b,
{
    if b < s.len() {
        let t = s.drop_last();
        assert forall|i: int| b <= i < t.len() implies is_white(#[trigger] t[i]) by {
            assert(t[i] == s[i]);
        }
        lemma_trim_end_at(t, b);
        assert(t.take(b) =~= s.take(b));
    } else {
        assert(s.take(b) =~= s);
    }
}

/// The bounds of `v` without its leading and trailing white space.
pub fn trim_bounds(v: &[char]) -> (r: (usize, usize))
    ensures
        r.0 <= r.1 <= v@.len(),
        v@.subrange(r.0 as int, r.1 as int) == trim(v@),
{
    let mut a: usize = 0;
    while a < v.len() && is_whitespace(v[a])
        invariant
            a <= v@.len(),
            forall|i: int| 0 <= i < a ==> is_white(#[trigger] v@[i]),
        decreases v@.len() - a,
    {
        a = a + 1;
    }
    let mut b: usize = v.len();
    while b > a && is_whitespace(v[b - 1])
        invariant
            a <= b <= v@.len(),
            forall|i: int| b <= i < v@.len() ==> is_white(#[trigger] v@[i]),
        decreases b,
    {
        b = b - 1;
    }
    proof {
        lemma_trim_start_at(v@, a as int);
        let t = v@.skip(a as int);
        assert forall|i: int| b - a <= i < t.len() implies is_white(#[trigger] t[i]) by {
            assert(t[i] == v@[i + a]);
        }
        if b > a {
            assert(t[b - a - 1] == v@[b - 1]);
        }
        lemma_trim_end_at(t, b - a);
        assert(t.take(b - a) =~= v@.subrange(a as int, b as int));
    }
    (a, b)
}

/// The characters of `v` from `start` up to `end`, as a string.
pub fn string_between(v: &[char], start: usize, end: usize) -> (s: String)
    requires
        start <= end <= v@.len(),
    ensures
        s@ == v@.subrange(start as int, end as int),
{
    let mut s = String::new();
    let mut i: usize = start;
    while i < end
        invariant
            start <= i <= end <= v@.len(),
            s@ == v@.subrange(start as int, i as int),
        decreases end - i,
    {
        push_char(&mut s, v[i]);
        i = i + 1;
        assert(s@ =~= v@.subrange(start as int, i as int));
    }
    s
}

/// `s` without leading and trailing white space (`str::trim`).
pub fn trim_str(s: &str) -> (t: String)
    ensures
        t@ == trim(s@),
{
    let v = chars_of(s);
    let (a, b) = trim_bounds(v.as_slice());
    string_between(v.as_slice(), a, b)
}

/// Whether `needle` occurs in `hay` starting at position `i`.
pub open spec fn occurs_at(hay: Seq<char>, needle: Seq<char>, i: int) -> bool {
    0 <= i && i + needle.len() <= hay.len() && hay.subrange(i, i + needle.len()) == needle
}

/// Whether `needle` occurs anywhere in `hay` (`str::contains`).
pub open spec fn contains_text(hay: Seq<char>, needle: Seq<char>) -> bool {
    exists|i: int| occurs_at(hay, needle, i)
}

/// The first position where `needle` occurs in `hay` (meaningful when it
/// occurs).
pub open spec fn first_occurrence(hay: Seq<char>, needle: Seq<char>) -> int {
    choose|i: int| occurs_at(hay, needle, i) && forall|j: int| 0 <= j < i ==> !occurs_at(hay, needle, j)
}

/// `s` with the first occurrence of `old` replaced by `new`
/// (`str::replacen(old, new, 1)`), `s` itself when `old` does not occur.
pub open spec fn replace_first(s: Seq<char>, old: Seq<char>, new: Seq<char>) -> Seq<char> {
    if contains_text(s, old) {
        let i = first_occurrence(s, old);
        s.take(i) + new + s.skip(i + old.len())
    } else {
        s
    }
}

/// Replacing the first occurrence: when `needle` occurs at `k` and nowhere
/// before, `s` with its first `needle` replaced is what precedes `k`, the
/// replacement, then what follows that occurrence.
pub proof fn lemma_replace_first_at(s: Seq<char>, needle: Seq<char>, new: Seq<char>, k: int)
    requires
        occurs_at(s, needle, k),
        forall|j: int| 0 <= j < k ==> !occurs_at(s, needle, j),
    ensures
        first_occurrence(s, needle) == k,
        replace_first(s, needle, new) == s.take(k) + new + s.skip(k + needle.len()),
{
    assert(occurs_at(s, needle, k) && forall|j: int| 0 <= j < k ==> !occurs_at(s, needle, j));
    let w = first_occurrence(s, needle);
    if w < k {
        assert(!occurs_at(s, needle, w));
    } else if w > k {
        assert(!occurs_at(s, needle, k));
    }
}

/// Whether `hay` begins with `prefix` (`str::starts_with`).
pub open spec fn starts_with(hay: Seq<char>, prefix: Seq<char>) -> bool {
    occurs_at(hay, prefix, 0)
}

/// Whether `hay` ends with `suffix` (`str::ends_with`).
pub open spec fn ends_with(hay: Seq<char>, suffix: Seq<char>) -> bool {
    occurs_at(hay, suffix, hay.len() - suffix.len())
}

/// Whether `needle` occurs in `hay` at position `i`.
pub fn matches_at(hay: &[char], needle: &[char], i: usize) -> (b: bool)
    ensures
        b == occurs_at(hay@, needle@, i as int),
{
    if i > hay.len() || needle.len() > hay.len() - i {
        return false;
    }
    let mut j: usize = 0;
    while j < needle.len()
        invariant
            i + needle@.len() <= hay@.len(),
            i + needle.len() <= hay.len(),
            j <= needle@.len(),
            forall|k: int| 0 <= k < j ==> hay@[i + k] == needle@[k],
        decreases needle@.len() - j,
    {
        if hay[i + j] != needle[j] {
            assert(hay@.subrange(i as int, i + needle@.len())[j as int] != needle@[j as int]);
            return false;
        }
        j = j + 1;
    }
    assert(hay@.subrange(i as int, i + needle@.len()) =~= needle@);
    true
}

/// The first position at which `needle` occurs in `hay`, if any.
pub fn find_text(hay: &[char], needle: &[char]) -> (r: Option<usize>)
    ensures
        match r {
            Some(i) => occurs_at(hay@, needle@, i as int) && forall|j: int|
                0 <= j < i ==> !occurs_at(hay@, needle@, j),
            None => !contains_text(hay@, needle@),
        },
{
    if needle.len() > hay.len() {
        return None;
    }
    let last = hay.len() - needle.len();
    let mut i: usize = 0;
    while i < last
        invariant
            i <= last,
            last + needle@.len() == hay@.len(),
            forall|j: int| 0 <= j < i ==> !occurs_at(hay@, needle@, j),
        decreases last - i,
    {
        if matches_at(hay, needle, i) {
            return Some(i);
        }
        i = i + 1;
    }
    if matches_at(hay, needle, last) {
        Some(last)
    } else {
        None
    }
}

/// Whether `needle` occurs in `hay` (`str::contains`).
pub fn text_contains(hay: &str, needle: &str) -> (b: bool)
    ensures
        b == contains_text(hay@, needle@),
{
    let h = chars_of(hay);
    let n = chars_of(needle);
    find_text(h.as_slice(), n.as_slice()).is_some()
}

/// Whether two strings hold the same characters (`==` on `str`).
pub fn text_eq(a: &str, b: &str) -> (r: bool)
    ensures
        r == (a@ == b@),
{
    let x = chars_of(a);
    let y = chars_of(b);
    if x.len() != y.len() {
        return false;
    }
    let r = matches_at(x.as_slice(), y.as_slice(), 0);
    proof {
        if r {
            assert(x@.subrange(0, y@.len() as int) =~= x@);
        } else {
            assert(x@.subrange(0, x@.len() as int) =~= x@);
        }
    }
    r
}

/// The first position of `c` in `s`, if any.
pub open spec fn first_index_of(s: Seq<char>, c: char) -> Option<int> {
    if exists|i: int| 0 <= i < s.len() && s[i] == c {
        Some(choose|i: int| 0 <= i < s.len() && s[i] == c && forall|j: int| 0 <= j < i ==> s[j] != c)
    } else {
        None
    }
}

/// The last position of `c` in `s`, or -1 when `c` does not occur.
pub open spec fn last_index_of(s: Seq<char>, c: char) -> int {
    if exists|i: int| 0 <= i < s.len() && s[i] == c {
        choose|i: int| 0 <= i < s.len() && s[i] == c && forall|j: int| i < j < s.len() ==> s[j] != c
    } else {
        -1
    }
}

/// The last position of `c` in `v[..end]`, or `None`.
pub fn find_last_char(v: &[char], end: usize, c: char) -> (r: Option<usize>)
    requires
        end <= v@.len(),
    ensures
        r matches Some(i) ==> i < end && last_index_of(v@.take(end as int), c) == i,
        r is None ==> last_index_of(v@.take(end as int), c) == -1,
{
    let ghost t = v@.take(end as int);
    let mut i: usize = end;
    while i > 0
        invariant
            i <= end <= v@.len(),
            t == v@.take(end as int),
            forall|j: int| i <= j < end ==> t[j] != c,
        decreases i,
    {
        if v[i - 1] == c {
            proof {
                let k = (i - 1) as int;
                assert(t[k] == c);
                let w = choose|x: int|
                    0 <= x < t.len() && t[x] == c && forall|j: int| x < j < t.len() ==> t[j] != c;
                assert(0 <= k < t.len() && t[k] == c && forall|j: int| k < j < t.len() ==> t[j] != c);
                if w < k {
                    assert(t[k] != c);
                } else if w > k {
                    assert(t[w] != c);
                }
            }
            return Some(i - 1);
        }
        i = i - 1;
    }
    None
}

/// The sequence of views of a sequence of strings.
pub open spec fn views(v: Seq<String>) -> Seq<Seq<char>> {
    v.map_values(|s: String| s@)
}

/// `s` with every `c` replaced by `r` (`str::replace` with a `char` pattern).
pub open spec fn replace_char(s: Seq<char>, c: char, r: Seq<char>) -> Seq<char>
    decreases s.len(),
{
    if s.len() == 0 {
        Seq::empty()
    } else {
        replace_char(s.drop_last(), c, r) + if s.last() == c {
            r
        } else {
            seq![s.last()]
        }
    }
}

/// Appends `s` with every `c` replaced by `r`.
pub fn push_replaced(out: &mut String, s: &str, c: char, r: &str)
    ensures
        final(out)@ == old(out)@ + replace_char(s@, c, r@),
{
    let v = chars_of(s);
    let ghost start = out@;
    let mut i: usize = 0;
    while i < v.len()
        invariant
            i <= v@.len(),
            v@ == s@,
            out@ == start + replace_char(v@.take(i as int), c, r@),
        decreases v@.len() - i,
    {
        let ghost before = out@;
        assert(v@.take(i + 1).drop_last() =~= v@.take(i as int));
        if v[i] == c {
            out.append(r);
        } else {
            push_char(out, v[i]);
        }
        i = i + 1;
        assert(out@ =~= start + replace_char(v@.take(i as int), c, r@));
    }
    assert(v@.take(v@.len() as int) =~= v@);
}

/// The path `part` appended to `base` (`Path::join`): an absolute `part`
/// replaces `base`; otherwise a `/` separates them unless `base` is empty or
/// already ends with one.
pub open spec fn join_path(base: Seq<char>, part: Seq<char>) -> Seq<char> {
    if part.len() > 0 && part[0] == '/' {
        part
    } else if base.len() == 0 || base.last() == '/' {
        base + part
    } else {
        base + seq!['/'] + part
    }
}

/// `base` joined with `part`, as `Path::join` does on Unix.
pub fn path_join(base: &str, part: &str) -> (p: String)
    ensures
        p@ == join_path(base@, part@),
{
    let b = chars_of(base);
    let q = chars_of(part);
    if q.len() > 0 && q[0] == '/' {
        return string_of(q.as_slice());
    }
    let mut p = string_of(b.as_slice());
    if !(b.len() == 0 || b[b.len() - 1] == '/') {
        push_char(&mut p, '/');
    }
    p.append(part);
    p
}

/// The value of a run of decimal digits.
pub open spec fn digits_value(s: Seq<char>) -> nat
    decreases s.len(),
{
    if s.len() == 0 {
        0
    } else {
        digits_value(s.drop_last()) * 10 + digit_value(s.last())
    }
}

/// Whether every character of `s` is a decimal digit.
pub open spec fn all_digits(s: Seq<char>) -> bool {
    forall|i: int| 0 <= i < s.len() ==> is_digit(#[trigger] s[i])
}

/// The integer that `str::parse` reads from `s`: an optional `+` (or, when
/// `signed`, `-`) followed by one or more decimal digits; `None` for any
/// other text. The range of the target type is checked by the callers.
pub open spec fn parse_int_spec(s: Seq<char>, signed: bool) -> Option<int> {
    if s.len() == 0 {
        None
    } else {
        let negative = signed && s[0] == '-';
        let body = if s[0] == '+' || negative {
            s.drop_first()
        } else {
            s
        };
        if body.len() == 0 || !all_digits(body) {
            None
        } else if negative {
            Some(-(digits_value(body) as int))
        } else {
            Some(digits_value(body) as int)
        }
    }
}

/// What `str::parse::<i32>` returns for `s`.
pub open spec fn parse_i32_spec(s: Seq<char>) -> Option<i32> {
    match parse_int_spec(s, true) {
        Some(v) => if i32::MIN <= v <= i32::MAX {
            Some(v as i32)
        } else {
            None
        },
        None => None,
    }
}

/// What `str::parse::<u32>` returns for `s`.
pub open spec fn parse_u32_spec(s: Seq<char>) -> Option<u32> {
    match parse_int_spec(s, false) {
        Some(v) => if 0 <= v <= u32::MAX {
            Some(v as u32)
        } else {
            None
        },
        None => None,
    }
}

/// Reads the digits `v[start..]`: their value when it is at most 2^33,
/// `None` when they are not all digits or their value is larger.
fn read_digits(v: &[char], start: usize) -> (r: Option<u64>)
    requires
        start <= v@.len(),
    ensures
        r matches Some(n) ==> all_digits(v@.skip(start as int)) && n == digits_value(
            v@.skip(start as int),
        ) && n <= 0x2_0000_0000,
        r is None ==> !all_digits(v@.skip(start as int)) || digits_value(v@.skip(start as int))
            > 0x2_0000_0000,
{
    let ghost body = v@.skip(start as int);
    let mut acc: u64 = 0;
    let mut over = false;
    let mut i: usize = start;
    while i < v.len()
        invariant
            start <= i <= v@.len(),
            body == v@.skip(start as int),
            all_digits(body.take(i - start)),
            !over ==> acc == digits_value(body.take(i - start)) && acc <= 0x2_0000_0000,
            over ==> digits_value(body.take(i - start)) > 0x2_0000_0000,
        decreases v@.len() - i,
    {
        let c = v[i];
        if !('0' <= c && c <= '9') {
            assert(body[i - start] == c);
            assert(!is_digit(body[i - start]));
            return None;
        }
        let ghost prefix = body.take(i - start);
        assert(body.take(i - start + 1).drop_last() =~= prefix);
        assert(body.take(i - start + 1).last() == c);
        if !over {
            let d = (c as u32 - '0' as u32) as u64;
            acc = acc * 10 + d;
            if acc > 0x2_0000_0000 {
                over = true;
            }
        }
        i = i + 1;
        assert forall|k: int| 0 <= k < i - start implies is_digit(#[trigger] body.take(i - start)[k]) by {
            if k < i - 1 - start {
                assert(body.take(i - start)[k] == prefix[k]);
            }
        }
    }
    assert(body.take(v@.len() - start) =~= body);
    if over {
        None
    } else {
        Some(acc)
    }
}

/// `s` parsed as an `i32`, as `str::parse::<i32>` reads it.
pub fn parse_i32(s: &str) -> (r: Option<i32>)
    ensures
        r == parse_i32_spec(s@),
{
    let v = chars_of(s);
    if v.len() == 0 {
        return None;
    }
    let negative = v[0] == '-';
    let start: usize = if v[0] == '+' || negative {
        1
    } else {
        0
    };
    proof {
        if start == 1 {
            assert(v@.skip(1) =~= v@.drop_first());
        } else {
            assert(v@.skip(0) =~= v@);
        }
    }
    if start == v.len() {
        return None;
    }
    match read_digits(v.as_slice(), start) {
        None => None,
        Some(n) => {
            if negative {
                if n <= 2147483648 {
                    Some((0 - (n as i64)) as i32)
                } else {
                    None
                }
            } else {
                if n <= 2147483647 {
                    Some(n as i32)
                } else {
                    None
                }
            }
        },
    }
}

/// `s` parsed as a `u32`, as `str::parse::<u32>` reads it.
pub fn parse_u32(s: &str) -> (r: Option<u32>)
    ensures
        r == parse_u32_spec(s@),
{
    let v = chars_of(s);
    if v.len() == 0 {
        return None;
    }
    let start: usize = if v[0] == '+' {
        1
    } else {
        0
    };
    proof {
        if start == 1 {
            assert(v@.skip(1) =~= v@.drop_first());
        } else {
            assert(v@.skip(0) =~= v@);
        }
    }
    if start == v.len() {
        return None;
    }
    match read_digits(v.as_slice(), start) {
        None => None,
        Some(n) => {
            if n <= 4294967295 {
                Some(n as u32)
            } else {
                None
            }
        },
    }
}

proof fn lemma_digit_char(d: nat)
    requires
        d < 10,
    ensures
        digit_value(digit_char(d)) == d,
        is_digit(digit_char(d)),
{
}

/// Every character of a numeral is a digit, and the digits read back as the
/// number.
pub proof fn lemma_nat_text_digits(n: nat)
    ensures
        all_digits(nat_text(n)),
        digits_value(nat_text(n)) == n,
        nat_text(n).len() > 0,
    decreases n,
{
    if n < 10 {
        lemma_digit_char(n);
        let t = nat_text(n);
        assert(t.drop_last() =~= Seq::<char>::empty());
        assert(digits_value(t) == digits_value(t.drop_last()) * 10 + digit_value(t.last()));
    } else {
        lemma_digit_char(n % 10);
        lemma_nat_text_digits(n / 10);
        let t = nat_text(n);
        assert(t.drop_last() =~= nat_text(n / 10));
        assert(t.last() == digit_char(n % 10));
        assert(digits_value(t) == digits_value(t.drop_last()) * 10 + digit_value(t.last()));
        assert((n / 10) * 10 + n % 10 == n);
        assert forall|i: int| 0 <= i < t.len() implies is_digit(#[trigger] t[i]) by {
            if i < t.len() - 1 {
                assert(t[i] == nat_text(n / 10)[i]);
            }
        }
    }
}

/// A signed numeral parses back to the integer it was printed from.
pub proof fn lemma_parse_int_text(i: i32)
    ensures
        parse_i32_spec(int_text(i as int)) == Some(i),
{
    if i < 0 {
        let t = int_text(i as int);
        lemma_nat_text_digits((-i) as nat);
        assert(t.drop_first() =~= nat_text((-i) as nat));
    } else {
        lemma_nat_text_digits(i as nat);
    }
}

/// An unsigned numeral parses back to the number it was printed from.
pub proof fn lemma_parse_nat_text(n: u32)
    ensures
        parse_u32_spec(nat_text(n as nat)) == Some(n),
{
    lemma_nat_text_digits(n as nat);
}

/// No character of a numeral is white space.
pub proof fn lemma_int_text_not_white(i: int)
    ensures
        forall|k: int| 0 <= k < int_text(i).len() ==> !is_white(#[trigger] int_text(i)[k]),
        int_text(i).len() > 0,
{
    if i < 0 {
        lemma_nat_text_digits((-i) as nat);
        let t = int_text(i);
        assert forall|k: int| 0 <= k < t.len() implies !is_white(#[trigger] t[k]) by {
            if k > 0 {
                assert(t[k] == nat_text((-i) as nat)[k - 1]);
                assert(is_digit(nat_text((-i) as nat)[k - 1]));
            }
        }
    } else {
        lemma_nat_text_digits(i as nat);
        let t = int_text(i);
        assert forall|k: int| 0 <= k < t.len() implies !is_white(#[trigger] t[k]) by {
            assert(is_digit(t[k]));
        }
    }
}

/// A text without white space at either end is its own trim.
pub proof fn lemma_trim_of_unpadded(s: Seq<char>)
    requires
        s.len() > 0,
        !is_white(s[0]),
        !is_white(s.last()),
    ensures
        trim(s) == s,
{
    lemma_trim_start_at(s, 0);
    assert(s.skip(0) =~= s);
    lemma_trim_end_at(s, s.len() as int);
    assert(s.take(s.len() as int) =~= s);
}

/// The position of the first `c` in `s`, or -1.
#[verifier::opaque]
pub open spec fn first_pos(s: Seq<char>, c: char) -> int {
    match first_index_of(s, c) {
        Some(k) => k,
        None => -1,
    }
}

/// The first `c` in `a`, `c`, `b` is the one after `a` when `a` holds no `c`.
pub proof fn lemma_first_pos_after(a: Seq<char>, c: char, b: Seq<char>)
    requires
        forall|k: int| 0 <= k < a.len() ==> #[trigger] a[k] != c,
    ensures
        first_pos(a + seq![c] + b, c) == a.len(),
{
    reveal(first_pos);
    let s = a + seq![c] + b;
    let n = a.len() as int;
    assert(s[n] == c);
    assert(0 <= n < s.len() && s[n] == c && forall|j: int| 0 <= j < n ==> s[j] != c) by {
        assert forall|j: int| 0 <= j < n implies s[j] != c by {
            assert(s[j] == a[j]);
        }
    }
    let w = choose|i: int| 0 <= i < s.len() && s[i] == c && forall|j: int| 0 <= j < i ==> s[j] != c;
    if w < n {
        assert(s[w] == a[w]);
    } else if w > n {
        assert(s[n] != c);
    }
}

/// A text without `c` has no first `c`.
pub proof fn lemma_first_pos_absent(s: Seq<char>, c: char)
    requires
        forall|k: int| 0 <= k < s.len() ==> #[trigger] s[k] != c,
    ensures
        first_pos(s, c) == -1,
{
    reveal(first_pos);
}

/// The first position at or after `from` where `c` stands in `v`, if any.
pub fn find_char_from(v: &[char], from: usize, c: char) -> (r: Option<usize>)
    requires
        from <= v@.len(),
    ensures
        r matches Some(i) ==> from <= i < v@.len() && first_pos(v@.skip(from as int), c) == i - from,
        r is None ==> first_pos(v@.skip(from as int), c) == -1,
{
    let ghost t = v@.skip(from as int);
    let mut i: usize = from;
    while i < v.len()
        invariant
            from <= i <= v@.len(),
            t == v@.skip(from as int),
            forall|j: int| 0 <= j < i - from ==> t[j] != c,
        decreases v@.len() - i,
    {
        if v[i] == c {
            proof {
                let k = i - from;
                assert(t[k] == c);
                let w = choose|x: int| 0 <= x < t.len() && t[x] == c && forall|j: int| 0 <= j < x ==> t[j] != c;
                assert(0 <= k < t.len() && t[k] == c && forall|j: int| 0 <= j < k ==> t[j] != c);
                if w < k {
                    assert(t[w] != c);
                } else if w > k {
                    assert(t[k] != c);
                }
                reveal(first_pos);
                assert(first_pos(t, c) == k);
            }
            return Some(i);
        }
        i = i + 1;
    }
    proof {
        reveal(first_pos);
        assert(!(exists|j: int| 0 <= j < t.len() && t[j] == c));
    }
    None
}

/// The text of `s` before its first `c`, or all of `s` (`s.split(c).next()`).
pub open spec fn prefix_before(s: Seq<char>, c: char) -> Seq<char> {
    if first_pos(s, c) >= 0 {
        s.take(first_pos(s, c))
    } else {
        s
    }
}

/// The text of `s` before its first `c`, or all of `s`.
pub fn text_before(s: &str, c: char) -> (t: String)
    ensures
        t@ == prefix_before(s@, c),
{
    let v = chars_of(s);
    assert(v@.skip(0) =~= v@);
    match find_char_from(v.as_slice(), 0, c) {
        Some(k) => string_between(v.as_slice(), 0, k),
        None => string_between(v.as_slice(), 0, v.len()),
    }
}

/// `s` split at its first `c` into the text before and after it
/// (`str::split_once`), `None` when `c` does not occur.
pub open spec fn split_once_spec(s: Seq<char>, c: char) -> Option<(Seq<char>, Seq<char>)> {
    if first_pos(s, c) >= 0 {
        Some((s.take(first_pos(s, c)), s.skip(first_pos(s, c) + 1)))
    } else {
        None
    }
}

/// `s` split at its first `c`, if `c` occurs.
pub fn split_once(s: &str, c: char) -> (r: Option<(String, String)>)
    ensures
        match split_once_spec(s@, c) {
            Some((a, b)) => r matches Some(p) && p.0@ == a && p.1@ == b,
            None => r is None,
        },
{
    let v = chars_of(s);
    assert(v@.skip(0) =~= v@);
    match find_char_from(v.as_slice(), 0, c) {
        Some(k) => {
            assert(k < v.len());
            let a = string_between(v.as_slice(), 0, k);
            let b = string_between(v.as_slice(), k + 1, v.len());
            assert(v@.subrange(k + 1, v@.len() as int) =~= v@.skip(k + 1));
            Some((a, b))
        },
        None => None,
    }
}

/// A line without the `\r` of a `\r\n` ending.
pub open spec fn strip_cr(line: Seq<char>) -> Seq<char> {
    if line.len() > 0 && line.last() == '\r' {
        line.drop_last()
    } else {
        line
    }
}

/// The lines of `s` as `str::lines` yields them: split at each `\n`, each
/// line ended by `\n` losing a `\r` before it, no line after a final `\n`.
pub open spec fn lines_spec(s: Seq<char>) -> Seq<Seq<char>>
    decreases s.len(),
{
    if s.len() == 0 {
        Seq::empty()
    } else {
        let k = first_pos(s, '\n');
        if 0 <= k < s.len() {
            seq![strip_cr(s.take(k))] + lines_spec(s.skip(k + 1))
        } else {
            seq![s]
        }
    }
}

/// The lines of `s`, as `str::lines` yields them.
pub fn text_lines(s: &str) -> (r: Vec<String>)
    ensures
        views(r@) == lines_spec(s@),
{
    let v = chars_of(s);
    let mut r: Vec<String> = Vec::new();
    let mut pos: usize = 0;
    assert(v@.skip(0) =~= v@);
    while pos < v.len()
        invariant
            pos <= v@.len(),
            v@ == s@,
            views(r@) + lines_spec(v@.skip(pos as int)) == lines_spec(s@),
        decreases v@.len() - pos,
    {
        let ghost rest = v@.skip(pos as int);
        let ghost before = views(r@);
        match find_char_from(v.as_slice(), pos, '\n') {
            Some(k) => {
                let mut end = k;
                if end > pos && v[end - 1] == '\r' {
                    end = end - 1;
                }
                let line = string_between(v.as_slice(), pos, end);
                r.push(line);
                proof {
                    let kk = k - pos;
                    assert(rest.take(kk) =~= v@.subrange(pos as int, k as int));
                    if k > pos && v@[k - 1] == '\r' {
                        assert(strip_cr(rest.take(kk)) =~= v@.subrange(pos as int, end as int));
                    } else {
                        assert(strip_cr(rest.take(kk)) =~= v@.subrange(pos as int, end as int));
                    }
                    assert(rest.skip(kk + 1) =~= v@.skip(k + 1));
                    assert(views(r@) =~= before.push(strip_cr(rest.take(kk))));
                    assert(views(r@) + lines_spec(v@.skip(k + 1)) =~= before + lines_spec(rest));
                }
                pos = k + 1;
            },
            None => {
                let line = string_between(v.as_slice(), pos, v.len());
                r.push(line);
                proof {
                    assert(rest =~= v@.subrange(pos as int, v@.len() as int));
                    assert(v@.skip(v@.len() as int) =~= Seq::<char>::empty());
                    assert(views(r@) =~= before.push(rest));
                    assert(views(r@) + lines_spec(v@.skip(v@.len() as int)) =~= before + lines_spec(rest));
                }
                pos = v.len();
            },
        }
    }
    assert(views(r@) + Seq::<Seq<char>>::empty() =~= views(r@));
    r
}

} // verus!
