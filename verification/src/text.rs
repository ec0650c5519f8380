//! Character-level string helpers with exact specifications.
//!
//! Every function here works on the `Seq<char>` view of a string, so the
//! contracts of the rest of the library can speak about names, keys and
//! identifiers as plain sequences of characters.
use vstd::prelude::*;

verus! {

// ---------------------------------------------------------------------------
// Specification vocabulary
// ---------------------------------------------------------------------------

/// `s` starts with `p`.
pub open spec fn has_prefix(s: Seq<char>, p: Seq<char>) -> bool {
    p.len() <= s.len() && s.subrange(0, p.len() as int) == p
}

/// `s` ends with `p`.
pub open spec fn has_suffix(s: Seq<char>, p: Seq<char>) -> bool {
    p.len() <= s.len() && s.subrange(s.len() - p.len(), s.len() as int) == p
}

/// `p` occurs in `s` starting at position `i`.
pub open spec fn occurs_at(s: Seq<char>, p: Seq<char>, i: int) -> bool {
    0 <= i && i + p.len() <= s.len() && s.subrange(i, i + p.len()) == p
}

/// `p` occurs somewhere in `s`.
pub open spec fn has_substring(s: Seq<char>, p: Seq<char>) -> bool {
    exists|i: int| occurs_at(s, p, i)
}

/// The index of the first occurrence of `c` in `s` at or after `i`, if any.
pub open spec fn index_of_from(s: Seq<char>, c: char, i: int) -> Option<int>
    decreases s.len() - i,
{
    if i < 0 || i >= s.len() {
        None
    } else if s[i] == c {
        Some(i)
    } else {
        index_of_from(s, c, i + 1)
    }
}

/// The index of the first occurrence of `c` in `s`, if any.
pub open spec fn first_index_of(s: Seq<char>, c: char) -> Option<int> {
    index_of_from(s, c, 0)
}

/// The part of `s` before the first `c` (all of `s` when `c` does not occur),
/// which is what `s.split(c).next()` yields.
pub open spec fn before_first(s: Seq<char>, c: char) -> Seq<char> {
    match first_index_of(s, c) {
        Some(i) => s.subrange(0, i),
        None => s,
    }
}

/// `s` with every `from` replaced by `to`.
pub open spec fn replace_all(s: Seq<char>, from: char, to: char) -> Seq<char> {
    Seq::new(s.len(), |i: int| if s[i] == from { to } else { s[i] })
}

/// The characters that Unicode gives the `White_Space` property, which is
/// what `char::is_whitespace` and `str::trim` test.
pub open spec fn is_white_space(c: char) -> bool {
    ||| c == '\t'
    ||| c == '\n'
    ||| c == '\u{0B}'
    ||| c == '\u{0C}'
    ||| c == '\r'
    ||| c == ' '
    ||| c == '\u{85}'
    ||| c == '\u{A0}'
    ||| c == '\u{1680}'
    ||| ('\u{2000}' <= c && c <= '\u{200A}')
    ||| c == '\u{2028}'
    ||| c == '\u{2029}'
    ||| c == '\u{202F}'
    ||| c == '\u{205F}'
    ||| c == '\u{3000}'
}

/// `s` without leading and trailing white space (`str::trim`).
pub open spec fn trimmed(s: Seq<char>) -> Seq<char> {
    let lo = leading_space(s, 0);
    let hi = trailing_end(s, s.len() as int);
    if lo >= hi { Seq::empty() } else { s.subrange(lo, hi) }
}

/// First index at or after `i` that holds no white space (or `s.len()`).
pub open spec fn leading_space(s: Seq<char>, i: int) -> int
    decreases s.len() - i,
{
    if i < 0 || i >= s.len() {
        s.len() as int
    } else if is_white_space(s[i]) {
        leading_space(s, i + 1)
    } else {
        i
    }
}

/// One past the last index before `j` that holds no white space (or 0).
pub open spec fn trailing_end(s: Seq<char>, j: int) -> int
    decreases j,
{
    if j <= 0 || j > s.len() {
        0
    } else if is_white_space(s[j - 1]) {
        trailing_end(s, j - 1)
    } else {
        j
    }
}

/// The ASCII digit that stands for `d` (for `d < 10`).
pub open spec fn digit_char(d: nat) -> char {
    (48 + d) as char
}

/// `c` is an ASCII decimal digit.
pub open spec fn is_digit(c: char) -> bool {
    '0' <= c && c <= '9'
}

/// The value of the ASCII digit `c`.
pub open spec fn digit_value(c: char) -> nat {
    (c as int - 48) as nat
}

/// Decimal notation of `n`, without leading zeros (what `{}` prints for an
/// unsigned integer).
pub open spec fn decimal(n: nat) -> Seq<char>
    decreases n,
{
    if n < 10 {
        seq![digit_char(n)]
    } else {
        decimal(n / 10).push(digit_char(n % 10))
    }
}

/// Every character of `s` is a decimal digit.
pub open spec fn all_digits(s: Seq<char>) -> bool {
    forall|i: int| 0 <= i < s.len() ==> is_digit(#[trigger] s[i])
}

/// The number written by the digits `s` (most significant first).
pub open spec fn digits_value(s: Seq<char>) -> nat
    decreases s.len(),
{
    if s.len() == 0 {
        0
    } else {
        digits_value(s.drop_last()) * 10 + digit_value(s.last())
    }
}

/// What `str::parse` accepts for an unsigned integer, before the range
/// check: an optional `+` followed by one or more decimal digits.
pub open spec fn parse_unsigned(s: Seq<char>) -> Option<nat> {
    let d = if s.len() > 0 && s[0] == '+' { s.drop_first() } else { s };
    if d.len() > 0 && all_digits(d) {
        Some(digits_value(d))
    } else {
        None
    }
}

/// What `str::parse` accepts for a signed integer, before the range check:
/// an optional `+` or `-` followed by one or more decimal digits.
pub open spec fn parse_signed(s: Seq<char>) -> Option<int> {
    let neg = s.len() > 0 && s[0] == '-';
    let d = if s.len() > 0 && (s[0] == '+' || s[0] == '-') { s.drop_first() } else { s };
    if d.len() > 0 && all_digits(d) {
        Some(if neg { -(digits_value(d) as int) } else { digits_value(d) as int })
    } else {
        None
    }
}

/// `usize::from_str`.
pub open spec fn parse_usize_spec(s: Seq<char>) -> Option<usize> {
    match parse_unsigned(s) {
        Some(n) => if n <= usize::MAX { Some(n as usize) } else { None },
        None => None,
    }
}

/// `i64::from_str`.
pub open spec fn parse_i64_spec(s: Seq<char>) -> Option<i64> {
    match parse_signed(s) {
        Some(n) => if i64::MIN <= n <= i64::MAX { Some(n as i64) } else { None },
        None => None,
    }
}

/// `i32::from_str`.
pub open spec fn parse_i32_spec(s: Seq<char>) -> Option<i32> {
    match parse_signed(s) {
        Some(n) => if i32::MIN <= n <= i32::MAX { Some(n as i32) } else { None },
        None => None,
    }
}

/// The lower-case hexadecimal digit that stands for `d` (for `d < 16`).
pub open spec fn hex_char(d: nat) -> char {
    if d < 10 { (48 + d) as char } else { (87 + d) as char }
}

/// The last `width` lower-case hexadecimal digits of `v`, zero-padded.
pub open spec fn hex_fixed(v: nat, width: nat) -> Seq<char>
    decreases width,
{
    if width == 0 {
        Seq::empty()
    } else {
        hex_fixed(v / 16, (width - 1) as nat).push(hex_char(v % 16))
    }
}

// ---------------------------------------------------------------------------
// Lemmas
// ---------------------------------------------------------------------------

/// Decimal notation is never empty and consists of digits only.
pub proof fn lemma_decimal_digits(n: nat)
    ensures
        decimal(n).len() > 0,
        all_digits(decimal(n)),
        digits_value(decimal(n)) == n,
    decreases n,
{
    let c = digit_char(n % 10);
    assert(c as int == 48 + n % 10);
    assert(digit_value(c) == n % 10);
    if n < 10 {
        assert(decimal(n).drop_last() =~= Seq::<char>::empty());
        assert(decimal(n).last() == c);
        assert(digits_value(decimal(n)) == digits_value(Seq::<char>::empty()) * 10 + digit_value(c));
    } else {
        lemma_decimal_digits(n / 10);
        let d = decimal(n);
        assert(d.drop_last() == decimal(n / 10));
        assert(d.last() == c);
        assert(digits_value(d) == digits_value(decimal(n / 10)) * 10 + digit_value(c));
        assert((n / 10) * 10 + n % 10 == n);
        assert forall|i: int| 0 <= i < d.len() implies is_digit(#[trigger] d[i]) by {
            if i < d.len() - 1 {
                assert(d[i] == decimal(n / 10)[i]);
            }
        }
    }
}

/// What `index_of_from` finds is the first `c` at or after `i`.
pub proof fn lemma_index_of_from(s: Seq<char>, c: char, i: int)
    requires
        0 <= i,
    ensures
        match index_of_from(s, c, i) {
            Some(k) => i <= k < s.len() && s[k] == c && forall|j: int| i <= j < k ==> s[j] != c,
            None => forall|j: int| i <= j < s.len() ==> s[j] != c,
        },
    decreases s.len() - i,
{
    if i < s.len() && s[i] != c {
        lemma_index_of_from(s, c, i + 1);
    }
}

/// Reading back the decimal notation of `n` gives `n` (the round trip of
/// `{}` and `str::parse`).
pub proof fn lemma_parse_decimal(n: nat)
    ensures
        parse_unsigned(decimal(n)) == Some(n),
{
    lemma_decimal_digits(n);
    assert(decimal(n)[0] != '+');
}

/// The value of a digit prefix never exceeds the value of the whole.
pub proof fn lemma_digits_value_prefix(s: Seq<char>, i: int)
    requires
        0 <= i <= s.len(),
        all_digits(s),
    ensures
        digits_value(s.subrange(0, i)) <= digits_value(s),
    decreases s.len() - i,
{
    if i < s.len() {
        lemma_digits_value_prefix(s, i + 1);
        let t = s.subrange(0, i + 1);
        assert(t.drop_last() == s.subrange(0, i));
    } else {
        assert(s.subrange(0, i) == s);
    }
}

/// Appending one digit multiplies the value by ten and adds the digit.
pub proof fn lemma_digits_value_step(s: Seq<char>, i: int)
    requires
        0 <= i < s.len(),
    ensures
        digits_value(s.subrange(0, i + 1)) == digits_value(s.subrange(0, i)) * 10 + digit_value(
            s[i],
        ),
{
    let t = s.subrange(0, i + 1);
    assert(t.drop_last() == s.subrange(0, i));
}

// ---------------------------------------------------------------------------
// Executable helpers
// ---------------------------------------------------------------------------

/// Appends one character to a string (`String::push`).
#[verifier::external_body]
fn push_char(s: &mut String, c: char)
    ensures
        final(s)@ == old(s)@.push(c),
{
    s.push(c);
}

/// The characters of `s`, one by one.
pub fn chars_of(s: &str) -> (v: Vec<char>)
    ensures
        v@ == s@,
{
    let n = s.unicode_len();
    let mut v: Vec<char> = Vec::new();
    let mut i: usize = 0;
    while i < n
        invariant
            n == s@.len(),
            i <= n,
            v@ == s@.subrange(0, i as int),
        decreases n - i,
    {
        let c = s.get_char(i);
        v.push(c);
        i = i + 1;
        assert(v@ == s@.subrange(0, i as int));
    }
    assert(s@.subrange(0, n as int) == s@);
    v
}

/// A string made of the characters `v[lo..hi]`.
pub fn string_from_range(v: &Vec<char>, lo: usize, hi: usize) -> (s: String)
    requires
        lo <= hi <= v.len(),
    ensures
        s@ == v@.subrange(lo as int, hi as int),
{
    let mut s = String::new();
    let mut i: usize = lo;
    while i < hi
        invariant
            lo <= i <= hi <= v.len(),
            s@ == v@.subrange(lo as int, i as int),
        decreases hi - i,
    {
        push_char(&mut s, v[i]);
        i = i + 1;
        assert(s@ == v@.subrange(lo as int, i as int));
    }
    s
}

/// Appends the characters of `t` to `s`.
pub fn push_str(s: &mut String, t: &str)
    ensures
        final(s)@ == old(s)@ + t@,
{
    let v = chars_of(t);
    let mut i: usize = 0;
    let ghost s0 = s@;
    while i < v.len()
        invariant
            i <= v.len(),
            v@ == t@,
            s@ == s0 + t@.subrange(0, i as int),
        decreases v.len() - i,
    {
        push_char(s, v[i]);
        i = i + 1;
        assert(s@ == s0 + t@.subrange(0, i as int));
    }
    assert(t@.subrange(0, v.len() as int) == t@);
}

/// A new string holding the characters of `t`.
pub fn string_of(t: &str) -> (s: String)
    ensures
        s@ == t@,
{
    let mut s = String::new();
    push_str(&mut s, t);
    s
}

/// Whether two strings hold the same characters.
pub fn str_eq(a: &str, b: &str) -> (r: bool)
    ensures
        r == (a@ == b@),
{
    let va = chars_of(a);
    let vb = chars_of(b);
    if va.len() != vb.len() {
        return false;
    }
    let mut i: usize = 0;
    while i < va.len()
        invariant
            va@ == a@,
            vb@ == b@,
            va.len() == vb.len(),
            i <= va.len(),
            forall|j: int| 0 <= j < i ==> va@[j] == vb@[j],
        decreases va.len() - i,
    {
        if va[i] != vb[i] {
            return false;
        }
        i = i + 1;
    }
    assert(a@ =~= b@);
    true
}

/// Whether `v[at..]` starts with the characters of `p`.
fn chars_match_at(v: &Vec<char>, at: usize, p: &Vec<char>) -> (r: bool)
    requires
        at <= v.len(),
    ensures
        r == occurs_at(v@, p@, at as int),
{
    if p.len() > v.len() - at {
        return false;
    }
    let mut i: usize = 0;
    while i < p.len()
        invariant
            at + p.len() <= v.len(),
            i <= p.len(),
            forall|j: int| 0 <= j < i ==> v@[at + j] == p@[j],
        decreases p.len() - i,
    {
        if v[at + i] != p[i] {
            assert(v@.subrange(at as int, at + p.len())[i as int] != p@[i as int]);
            return false;
        }
        i = i + 1;
    }
    assert(v@.subrange(at as int, at + p.len()) =~= p@);
    true
}

/// Whether `s` starts with `p` (`str::starts_with`).
pub fn starts_with(s: &str, p: &str) -> (r: bool)
    ensures
        r == has_prefix(s@, p@),
{
    let vs = chars_of(s);
    let vp = chars_of(p);
    chars_match_at(&vs, 0, &vp)
}

/// `s` without the prefix `p`, if it has it (`str::strip_prefix`).
pub fn strip_prefix(s: &str, p: &str) -> (r: Option<String>)
    ensures
        has_prefix(s@, p@) ==> r is Some && r->0@ == s@.subrange(p@.len() as int, s@.len() as int),
        !has_prefix(s@, p@) ==> r is None,
{
    let vs = chars_of(s);
    let vp = chars_of(p);
    if chars_match_at(&vs, 0, &vp) {
        Some(string_from_range(&vs, vp.len(), vs.len()))
    } else {
        None
    }
}

/// `s` without the suffix `p`, if it has it (`str::strip_suffix`).
pub fn strip_suffix(s: &str, p: &str) -> (r: Option<String>)
    ensures
        has_suffix(s@, p@) ==> r is Some && r->0@ == s@.subrange(0, s@.len() - p@.len()),
        !has_suffix(s@, p@) ==> r is None,
{
    let vs = chars_of(s);
    let vp = chars_of(p);
    if vp.len() > vs.len() {
        return None;
    }
    let at = vs.len() - vp.len();
    if chars_match_at(&vs, at, &vp) {
        Some(string_from_range(&vs, 0, at))
    } else {
        None
    }
}

/// Whether `p` occurs in `s` (`str::contains`).
pub fn contains_str(s: &str, p: &str) -> (r: bool)
    ensures
        r == has_substring(s@, p@),
{
    let vs = chars_of(s);
    let vp = chars_of(p);
    if vp.len() > vs.len() {
        assert forall|i: int| !occurs_at(s@, p@, i) by {}
        return false;
    }
    if vp.len() == 0 {
        assert(s@.subrange(0, 0) =~= p@);
        assert(occurs_at(s@, p@, 0));
        return true;
    }
    let count = vs.len() - vp.len() + 1;
    let mut i: usize = 0;
    while i < count
        invariant
            vs@ == s@,
            vp@ == p@,
            count == vs.len() - vp.len() + 1,
            i <= count,
            forall|j: int| 0 <= j < i ==> !occurs_at(s@, p@, j),
        decreases count - i,
    {
        if chars_match_at(&vs, i, &vp) {
            return true;
        }
        i = i + 1;
    }
    assert forall|j: int| !occurs_at(s@, p@, j) by {
        if 0 <= j && j + p@.len() <= s@.len() {
            assert(j < i);
        }
    }
    false
}

/// The index of the first `c` in `v`, if any.
pub fn find_char(v: &Vec<char>, c: char) -> (r: Option<usize>)
    ensures
        match first_index_of(v@, c) {
            Some(i) => r == Some(i as usize),
            None => r is None,
        },
        r matches Some(i) ==> i < v.len(),
        first_index_of(v@, c) matches Some(k) ==> 0 <= k < v@.len() && v@[k] == c,
{
    proof {
        lemma_index_of_from(v@, c, 0);
    }
    let mut i: usize = 0;
    while i < v.len()
        invariant
            i <= v.len(),
            index_of_from(v@, c, 0) == index_of_from(v@, c, i as int),
        decreases v.len() - i,
    {
        if v[i] == c {
            return Some(i);
        }
        i = i + 1;
    }
    None
}

/// The part of `s` before the first `c` (`s.split(c).next()`).
pub fn prefix_before(s: &str, c: char) -> (r: String)
    ensures
        r@ == before_first(s@, c),
{
    let v = chars_of(s);
    match find_char(&v, c) {
        Some(i) => string_from_range(&v, 0, i),
        None => {
            assert(v@.subrange(0, v.len() as int) == v@);
            string_from_range(&v, 0, v.len())
        },
    }
}

/// `s` with every `from` replaced by `to` (`str::replace` with a character
/// pattern).
pub fn replace_char(s: &str, from: char, to: char) -> (r: String)
    ensures
        r@ == replace_all(s@, from, to),
{
    let v = chars_of(s);
    let mut r = String::new();
    let mut i: usize = 0;
    while i < v.len()
        invariant
            v@ == s@,
            i <= v.len(),
            r@ == replace_all(s@, from, to).subrange(0, i as int),
        decreases v.len() - i,
    {
        if v[i] == from {
            push_char(&mut r, to);
        } else {
            push_char(&mut r, v[i]);
        }
        i = i + 1;
        assert(r@ =~= replace_all(s@, from, to).subrange(0, i as int));
    }
    assert(replace_all(s@, from, to).subrange(0, v.len() as int) =~= replace_all(s@, from, to));
    r
}

/// Whether `c` is white space (`char::is_whitespace`).
pub fn is_white_space_char(c: char) -> (r: bool)
    ensures
        r == is_white_space(c),
{
    c == '\t' || c == '\n' || c == '\u{0B}' || c == '\u{0C}' || c == '\r' || c == ' ' || c
        == '\u{85}' || c == '\u{A0}' || c == '\u{1680}' || ('\u{2000}' <= c && c <= '\u{200A}')
        || c == '\u{2028}' || c == '\u{2029}' || c == '\u{202F}' || c == '\u{205F}' || c
        == '\u{3000}'
}

/// `s` without leading and trailing white space (`str::trim`).
pub fn trim(s: &str) -> (r: String)
    ensures
        r@ == trimmed(s@),
{
    let v = chars_of(s);
    let mut lo: usize = 0;
    while lo < v.len() && is_white_space_char(v[lo])
        invariant
            v@ == s@,
            lo <= v.len(),
            leading_space(s@, 0) == leading_space(s@, lo as int),
        decreases v.len() - lo,
    {
        lo = lo + 1;
    }
    let mut hi: usize = v.len();
    while hi > 0 && is_white_space_char(v[hi - 1])
        invariant
            v@ == s@,
            hi <= v.len(),
            trailing_end(s@, s@.len() as int) == trailing_end(s@, hi as int),
        decreases hi,
    {
        hi = hi - 1;
    }
    if lo >= hi {
        String::new()
    } else {
        string_from_range(&v, lo, hi)
    }
}

/// The decimal digit character for `d`.
fn digit_to_char(d: u64) -> (c: char)
    requires
        d < 10,
    ensures
        c == digit_char(d as nat),
{
    match d {
        0 => '0',
        1 => '1',
        2 => '2',
        3 => '3',
        4 => '4',
        5 => '5',
        6 => '6',
        7 => '7',
        8 => '8',
        _ => '9',
    }
}

/// Appends the decimal notation of `n` (`write!(s, "{}", n)`).
pub fn push_decimal(s: &mut String, n: u64)
    ensures
        final(s)@ == old(s)@ + decimal(n as nat),
    decreases n,
{
    if n >= 10 {
        push_decimal(s, n / 10);
    }
    push_char(s, digit_to_char(n % 10));
    proof {
        if n >= 10 {
            assert(decimal(n as nat) == decimal((n / 10) as nat).push(digit_char((n % 10) as nat)));
        }
    }
}

/// Appends the decimal notation of a `usize`.
pub fn push_usize(s: &mut String, n: usize)
    ensures
        final(s)@ == old(s)@ + decimal(n as nat),
{
    push_decimal(s, n as u64);
}

/// The lower-case hexadecimal digit character for `d`.
fn hex_to_char(d: u64) -> (c: char)
    requires
        d < 16,
    ensures
        c == hex_char(d as nat),
{
    match d {
        0 => '0',
        1 => '1',
        2 => '2',
        3 => '3',
        4 => '4',
        5 => '5',
        6 => '6',
        7 => '7',
        8 => '8',
        9 => '9',
        10 => 'a',
        11 => 'b',
        12 => 'c',
        13 => 'd',
        14 => 'e',
        _ => 'f',
    }
}

/// Appends the last `width` hexadecimal digits of `v`, zero-padded.
pub fn push_hex_fixed(s: &mut String, v: u64, width: u64)
    ensures
        final(s)@ == old(s)@ + hex_fixed(v as nat, width as nat),
    decreases width,
{
    if width > 0 {
        push_hex_fixed(s, v / 16, width - 1);
        push_char(s, hex_to_char(v % 16));
    }
}

/// The value of an ASCII digit character.
fn char_digit(c: char) -> (d: u64)
    requires
        is_digit(c),
    ensures
        d as nat == digit_value(c),
        d < 10,
{
    (c as u32 - 48) as u64
}

/// Reads the digits `v[from..to]` as a number; `None` when a character is
/// not a digit, when there is no digit, or when the value exceeds `limit`.
fn read_digits(v: &Vec<char>, from: usize, to: usize, limit: u64) -> (r: Option<u64>)
    requires
        from <= to <= v.len(),
    ensures
        ({
            let d = v@.subrange(from as int, to as int);
            match r {
                Some(x) => d.len() > 0 && all_digits(d) && x as nat == digits_value(d) && x
                    <= limit,
                None => !(d.len() > 0 && all_digits(d) && digits_value(d) <= limit),
            }
        }),
{
    let ghost d = v@.subrange(from as int, to as int);
    if from == to {
        return None;
    }
    let mut acc: u64 = 0;
    let mut i: usize = from;
    while i < to
        invariant
            from <= i <= to <= v.len(),
            d == v@.subrange(from as int, to as int),
            all_digits(d.subrange(0, i - from)),
            acc as nat == digits_value(d.subrange(0, i - from)),
            acc <= limit,
        decreases to - i,
    {
        let c = v[i];
        if !('0' <= c && c <= '9') {
            assert(d[i - from] == c);
            return None;
        }
        proof {
            lemma_digits_value_step(d, i - from);
        }
        let dv = char_digit(c);
        if dv > limit || acc > (limit - dv) / 10 {
            proof {
                assert(acc * 10 + dv > limit) by (nonlinear_arith)
                    requires
                        dv > limit || acc > (limit - dv) / 10,
                        dv < 10,
                ;
                if all_digits(d) {
                    lemma_digits_value_prefix(d, i - from + 1);
                }
            }
            return None;
        }
        proof {
            assert(acc * 10 + dv <= limit) by (nonlinear_arith)
                requires
                    acc <= (limit - dv) / 10,
                    dv <= limit,
            ;
        }
        acc = acc * 10 + dv;
        i = i + 1;
        assert(all_digits(d.subrange(0, i - from))) by {
            assert forall|j: int| 0 <= j < i - from implies is_digit(#[trigger] d.subrange(0, i - from)[j]) by {
                if j < i - from - 1 {
                    assert(d.subrange(0, i - from)[j] == d.subrange(0, i - from - 1)[j]);
                }
            }
        }
    }
    assert(d.subrange(0, to - from) == d);
    Some(acc)
}

/// `usize::from_str` applied to the characters `v[lo..hi]`.
pub fn parse_usize_range(v: &Vec<char>, lo: usize, hi: usize) -> (r: Option<usize>)
    requires
        lo <= hi <= v.len(),
    ensures
        r == parse_usize_spec(v@.subrange(lo as int, hi as int)),
{
    let ghost t = v@.subrange(lo as int, hi as int);
    let from: usize = if lo < hi && v[lo] == '+' { lo + 1 } else { lo };
    proof {
        if from == lo + 1 {
            assert(v@.subrange(from as int, hi as int) == t.drop_first());
        }
    }
    match read_digits(v, from, hi, usize::MAX as u64) {
        Some(x) => Some(x as usize),
        None => None,
    }
}

/// `usize::from_str` (`s.parse::<usize>().ok()`).
pub fn parse_usize(s: &str) -> (r: Option<usize>)
    ensures
        r == parse_usize_spec(s@),
{
    let v = chars_of(s);
    assert(v@.subrange(0, v@.len() as int) == v@);
    parse_usize_range(&v, 0, v.len())
}

/// Reads an optionally signed decimal number whose value lies in
/// `[-lo_mag, hi]`.
fn parse_signed_bounded(s: &str, lo_mag: u64, hi: u64) -> (r: Option<i64>)
    requires
        lo_mag <= 9223372036854775808u64,
        hi <= 9223372036854775807u64,
    ensures
        match parse_signed(s@) {
            Some(n) => if -(lo_mag as int) <= n <= hi { r == Some(n as i64) } else { r is None },
            None => r is None,
        },
{
    let v = chars_of(s);
    let neg = v.len() > 0 && v[0] == '-';
    let from: usize = if v.len() > 0 && (v[0] == '+' || v[0] == '-') { 1 } else { 0 };
    proof {
        if from == 1 {
            assert(v@.subrange(1, v@.len() as int) == v@.drop_first());
        } else {
            assert(v@.subrange(0, v@.len() as int) == v@);
        }
    }
    let limit = if neg { lo_mag } else { hi };
    match read_digits(&v, from, v.len(), limit) {
        Some(x) => {
            if neg {
                if x == 9223372036854775808u64 {
                    Some(i64::MIN)
                } else {
                    Some(-(x as i64))
                }
            } else {
                Some(x as i64)
            }
        },
        None => None,
    }
}

/// `i64::from_str` (`s.parse::<i64>().ok()`).
pub fn parse_i64(s: &str) -> (r: Option<i64>)
    ensures
        r == parse_i64_spec(s@),
{
    parse_signed_bounded(s, 9223372036854775808u64, 9223372036854775807u64)
}

/// `i32::from_str` (`s.parse::<i32>().ok()`).
pub fn parse_i32(s: &str) -> (r: Option<i32>)
    ensures
        r == parse_i32_spec(s@),
{
    match parse_signed_bounded(s, 2147483648u64, 2147483647u64) {
        Some(x) => Some(x as i32),
        None => None,
    }
}

/// `prefix` followed by the decimal notation of `n` (`format!("{prefix}{n}")`).
pub fn with_index(prefix: &str, n: usize) -> (r: String)
    ensures
        r@ == prefix@ + decimal(n as nat),
{
    let mut r = string_of(prefix);
    push_usize(&mut r, n);
    r
}

/// `prefix`, the decimal notation of `n`, then `suffix`
/// (`format!("{prefix}{n}{suffix}")`).
pub fn indexed(prefix: &str, n: usize, suffix: &str) -> (r: String)
    ensures
        r@ == prefix@ + decimal(n as nat) + suffix@,
{
    let mut r = string_of(prefix);
    push_usize(&mut r, n);
    push_str(&mut r, suffix);
    r
}

/// `prefix{m}middle{n}` (`format!("{prefix}{m}{middle}{n}")`).
pub fn double_indexed(prefix: &str, m: usize, middle: &str, n: usize) -> (r: String)
    ensures
        r@ == prefix@ + decimal(m as nat) + middle@ + decimal(n as nat),
{
    let mut r = string_of(prefix);
    push_usize(&mut r, m);
    push_str(&mut r, middle);
    push_usize(&mut r, n);
    r
}

/// `a` followed by `b` (`format!("{a}{b}")`).
pub fn concat2(a: &str, b: &str) -> (r: String)
    ensures
        r@ == a@ + b@,
{
    let mut r = string_of(a);
    push_str(&mut r, b);
    r
}

/// `a`, then `b`, then `c` (`format!("{a}{b}{c}")`).
pub fn concat3(a: &str, b: &str, c: &str) -> (r: String)
    ensures
        r@ == a@ + b@ + c@,
{
    let mut r = string_of(a);
    push_str(&mut r, b);
    push_str(&mut r, c);
    r
}

/// `{instance}{suffix}`.
pub fn element_name(instance_id: &str, suffix: &str) -> (r: String)
    ensures
        r@ == instance_id@ + suffix@,
{
    concat2(instance_id, suffix)
}

/// `{instance}{suffix}{track}`.
pub fn track_element_name(instance_id: &str, suffix: &str, track: usize) -> (r: String)
    ensures
        r@ == instance_id@ + suffix@ + decimal(track as nat),
{
    let base = concat2(instance_id, suffix);
    with_index(base.as_str(), track)
}

} // verus!
