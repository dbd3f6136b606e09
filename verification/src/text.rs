//! Character-level text helpers shared by every module: trimming, prefix
//! handling, decimal numbers and the Unicode predicates they rest on.

use vstd::prelude::*;
use vstd::string::StrSliceExecFns;

verus! {

/// Whether `c` carries the Unicode `White_Space` property, which
/// `char::is_whitespace` tests: the controls U+0009 to U+000D, the space, U+0085,
/// the no-break space U+00A0, U+1680, the spaces U+2000 to U+200A, the line and
/// paragraph separators U+2028 and U+2029, U+202F, U+205F and U+3000.
pub open spec fn is_unicode_whitespace(c: char) -> bool {
    let u = c as u32;
    ||| 0x9 <= u <= 0xd
    ||| u == 0x20
    ||| u == 0x85
    ||| u == 0xa0
    ||| u == 0x1680
    ||| 0x2000 <= u <= 0x200a
    ||| u == 0x2028
    ||| u == 0x2029
    ||| u == 0x202f
    ||| u == 0x205f
    ||| u == 0x3000
}

/// Whether `c` is whitespace (see `is_unicode_whitespace`), as
/// `char::is_whitespace` decides it.
pub(crate) fn char_is_whitespace(c: char) -> (r: bool)
    ensures
        r == is_unicode_whitespace(c),
{
    let u = c as u32;
    (0x9 <= u && u <= 0xd) || u == 0x20 || u == 0x85 || u == 0xa0 || u == 0x1680 || (0x2000 <= u && u <= 0x200a)
        || u == 0x2028 || u == 0x2029 || u == 0x202f || u == 0x205f || u == 0x3000
}

/// The characters a trim removes: whitespace, and with `noise` also the byte
/// order mark and the zero-width space that some calendar clients prepend.
pub open spec fn is_trimmed_char(c: char, noise: bool) -> bool {
    is_unicode_whitespace(c) || (noise && (c == '\u{feff}' || c == '\u{200b}'))
}

/// `s` without its leading trimmed characters.
pub open spec fn trim_start_spec(s: Seq<char>, noise: bool) -> Seq<char>
    decreases s.len(),
{
    if s.len() > 0 && is_trimmed_char(s[0], noise) {
        trim_start_spec(s.drop_first(), noise)
    } else {
        s
    }
}

/// `s` without its trailing trimmed characters.
pub open spec fn trim_end_spec(s: Seq<char>, noise: bool) -> Seq<char>
    decreases s.len(),
{
    if s.len() > 0 && is_trimmed_char(s.last(), noise) {
        trim_end_spec(s.drop_last(), noise)
    } else {
        s
    }
}

/// `s` without leading and trailing trimmed characters (`str::trim` for `noise == false`).
pub open spec fn trim_spec(s: Seq<char>, noise: bool) -> Seq<char> {
    trim_end_spec(trim_start_spec(s, noise), noise)
}

/// Whitespace trim, as `str::trim` does it.
pub open spec fn trimmed(s: Seq<char>) -> Seq<char> {
    trim_spec(s, false)
}

proof fn lemma_trim_start(s: Seq<char>, a: int, noise: bool)
    requires
        0 <= a <= s.len(),
        forall|k: int| 0 <= k < a ==> is_trimmed_char(#[trigger] s[k], noise),
        a == s.len() || !is_trimmed_char(s[a], noise),
    ensures
        trim_start_spec(s, noise) == s.subrange(a, s.len() as int),
    decreases a,
{
    if a == 0 {
        assert(s.subrange(0, s.len() as int) =~= s);
    } else {
        let t = s.drop_first();
        assert forall|k: int| 0 <= k < a - 1 implies is_trimmed_char(#[trigger] t[k], noise) by {
            assert(t[k] == s[k + 1]);
        }
        if a < s.len() {
            assert(t[a - 1] == s[a]);
        }
        lemma_trim_start(t, a - 1, noise);
        assert(t.subrange(a - 1, t.len() as int) =~= s.subrange(a, s.len() as int));
    }
}

proof fn lemma_trim_end(t: Seq<char>, b: int, noise: bool)
    requires
        0 <= b <= t.len(),
        forall|k: int| b <= k < t.len() ==> is_trimmed_char(#[trigger] t[k], noise),
        b == 0 || !is_trimmed_char(t[b - 1], noise),
    ensures
        trim_end_spec(t, noise) == t.subrange(0, b),
    decreases t.len() - b,
{
    if b == t.len() {
        assert(t.subrange(0, b) =~= t);
    } else {
        let u = t.drop_last();
        assert forall|k: int| b <= k < u.len() implies is_trimmed_char(#[trigger] u[k], noise) by {
            assert(u[k] == t[k]);
        }
        if b > 0 {
            assert(u[b - 1] == t[b - 1]);
        }
        assert(is_trimmed_char(t[t.len() - 1], noise));
        lemma_trim_end(u, b, noise);
        assert(u.subrange(0, b) =~= t.subrange(0, b));
    }
}

fn is_trimmed_char_exec(c: char, noise: bool) -> (r: bool)
    ensures
        r == is_trimmed_char(c, noise),
{
    char_is_whitespace(c) || (noise && (c == '\u{feff}' || c == '\u{200b}'))
}

/// Removes leading and trailing whitespace (and with `noise` also byte order
/// marks and zero-width spaces).
pub fn trim_chars(s: &str, noise: bool) -> (r: String)
    ensures
        r@ == trim_spec(s@, noise),
{
    let n = s.unicode_len();
    let mut a: usize = 0;
    while a < n && is_trimmed_char_exec(s.get_char(a), noise)
        invariant
            n == s@.len(),
            a <= n,
            forall|k: int| 0 <= k < a ==> is_trimmed_char(#[trigger] s@[k], noise),
        decreases n - a,
    {
        a = a + 1;
    }
    proof {
        lemma_trim_start(s@, a as int, noise);
    }
    let ghost t = s@.subrange(a as int, n as int);
    let mut b: usize = n;
    while b > a && is_trimmed_char_exec(s.get_char(b - 1), noise)
        invariant
            n == s@.len(),
            a <= b <= n,
            t == s@.subrange(a as int, n as int),
            forall|k: int| b <= k < n ==> is_trimmed_char(#[trigger] s@[k], noise),
        decreases b - a,
    {
        b = b - 1;
    }
    proof {
        assert forall|k: int| b - a <= k < t.len() implies is_trimmed_char(#[trigger] t[k], noise) by {
            assert(t[k] == s@[k + a]);
        }
        if b > a {
            assert(t[b - a - 1] == s@[b - 1]);
        }
        lemma_trim_end(t, (b - a) as int, noise);
        assert(t.subrange(0, (b - a) as int) =~= s@.subrange(a as int, b as int));
    }
    s.substring_char(a, b).to_owned()
}

/// `str::trim` as an owned string.
pub fn trim(s: &str) -> (r: String)
    ensures
        r@ == trimmed(s@),
{
    trim_chars(s, false)
}


/// `String::push`: appends one character.
#[verifier::external_body]
pub(crate) fn push_char(s: &mut String, c: char)
    ensures
        final(s)@ == old(s)@.push(c),
{
    s.push(c);
}

/// Appends `t` to `s`.
pub fn push_str(s: &mut String, t: &str)
    ensures
        final(s)@ == old(s)@ + t@,
{
    let n = t.unicode_len();
    let ghost start = s@;
    let mut i: usize = 0;
    while i < n
        invariant
            n == t@.len(),
            i <= n,
            s@ == start + t@.subrange(0, i as int),
        decreases n - i,
    {
        let c = t.get_char(i);
        push_char(s, c);
        i = i + 1;
        assert(s@ =~= start + t@.subrange(0, i as int));
    }
    assert(t@.subrange(0, n as int) =~= t@);
}

/// `a` followed by `b`.
pub fn concat(a: &str, b: &str) -> (r: String)
    ensures
        r@ == a@ + b@,
{
    let mut r = a.to_owned();
    push_str(&mut r, b);
    r
}

/// Whether the two texts hold the same characters.
pub fn text_eq(a: &str, b: &str) -> (r: bool)
    ensures
        r == (a@ == b@),
{
    let n = a.unicode_len();
    let m = b.unicode_len();
    if n != m {
        return false;
    }
    let mut i: usize = 0;
    while i < n
        invariant
            n == a@.len(),
            m == b@.len(),
            n == m,
            i <= n,
            forall|k: int| 0 <= k < i ==> a@[k] == b@[k],
        decreases n - i,
    {
        if a.get_char(i) != b.get_char(i) {
            return false;
        }
        i = i + 1;
    }
    assert(a@ =~= b@);
    true
}

/// Whether `prefix` is a prefix of `s`.
pub fn starts_with(s: &str, prefix: &str) -> (r: bool)
    ensures
        r == prefix@.is_prefix_of(s@),
{
    let n = s.unicode_len();
    let m = prefix.unicode_len();
    if m > n {
        return false;
    }
    let mut i: usize = 0;
    while i < m
        invariant
            n == s@.len(),
            m == prefix@.len(),
            m <= n,
            i <= m,
            forall|k: int| 0 <= k < i ==> prefix@[k] == s@[k],
        decreases m - i,
    {
        if s.get_char(i) != prefix.get_char(i) {
            return false;
        }
        i = i + 1;
    }
    true
}

/// `s` with `prefix` removed, when `s` starts with it (`str::strip_prefix`).
pub open spec fn strip_prefix_spec(s: Seq<char>, prefix: Seq<char>) -> Option<Seq<char>> {
    if prefix.is_prefix_of(s) {
        Some(s.subrange(prefix.len() as int, s.len() as int))
    } else {
        None
    }
}

/// `str::strip_prefix` as an owned string.
pub fn strip_prefix(s: &str, prefix: &str) -> (r: Option<String>)
    ensures
        r matches Some(t) ==> strip_prefix_spec(s@, prefix@) == Some(t@),
        r is None ==> strip_prefix_spec(s@, prefix@) is None,
{
    if starts_with(s, prefix) {
        Some(s.substring_char(prefix.unicode_len(), s.unicode_len()).to_owned())
    } else {
        None
    }
}

/// Whether `c` occurs in `s`.
pub fn contains_char(s: &str, c: char) -> (r: bool)
    ensures
        r == s@.contains(c),
{
    let n = s.unicode_len();
    let mut i: usize = 0;
    while i < n
        invariant
            n == s@.len(),
            i <= n,
            forall|k: int| 0 <= k < i ==> s@[k] != c,
        decreases n - i,
    {
        if s.get_char(i) == c {
            assert(s@[i as int] == c);
            return true;
        }
        i = i + 1;
    }
    false
}

/// The text of a Unicode lowercase mapping of `s` (`str::to_lowercase`).
pub uninterp spec fn lowercase(s: Seq<char>) -> Seq<char>;

/// Whether every character of `s` is ASCII.
pub open spec fn is_ascii_text(s: Seq<char>) -> bool {
    forall|i: int| 0 <= i < s.len() ==> (#[trigger] s[i] as u32) < 128
}

/// A character with an ASCII capital turned into its small letter.
pub open spec fn ascii_lower_char(c: char) -> char {
    if 'A' <= c && c <= 'Z' {
        ((c as u32) + 32) as char
    } else {
        c
    }
}

/// `s` with its ASCII capitals turned into small letters.
pub open spec fn ascii_lowered(s: Seq<char>) -> Seq<char> {
    s.map_values(|c: char| ascii_lower_char(c))
}

/// Text made of small ASCII letters and underscores, like Daylite's status
/// names.
pub open spec fn is_snake_name(s: Seq<char>) -> bool {
    forall|i: int| 0 <= i < s.len() ==> ('a' <= #[trigger] s[i] <= 'z' || s[i] == '_')
}

/// A non-empty snake name is left as it is by trimming and by lowercasing.
pub proof fn lemma_snake_name_is_normal(s: Seq<char>)
    requires
        s.len() > 0,
        is_snake_name(s),
    ensures
        trimmed(s) == s,
        lowercased(s) == s,
{
    assert(!is_trimmed_char(s[0], false));
    assert(trim_start_spec(s, false) == s);
    assert(!is_trimmed_char(s[s.len() - 1], false));
    assert(trim_end_spec(s, false) == s);
    assert(is_ascii_text(s));
    assert(ascii_lowered(s) =~= s);
}

/// The lowercase of `s` as `str::to_lowercase` gives it: for ASCII text the
/// ASCII capitals become small letters and nothing else changes; otherwise
/// the Unicode mapping named `lowercase`.
pub open spec fn lowercased(s: Seq<char>) -> Seq<char> {
    if is_ascii_text(s) {
        ascii_lowered(s)
    } else {
        lowercase(s)
    }
}

/// `str::to_lowercase`: the full Unicode lowercase mapping, named `lowercase`.
/// Of ASCII text it states what the Unicode mapping gives there: the 26 capitals
/// become their small letters and every other ASCII character stays.
#[verifier::external_body]
pub(crate) fn to_lowercase(s: &str) -> (r: String)
    ensures
        r@ == lowercase(s@),
        is_ascii_text(s@) ==> r@ == ascii_lowered(s@),
{
    s.to_lowercase()
}

/// Whether `c` is alphabetic or numeric in the Unicode sense (`char::is_alphanumeric`).
pub uninterp spec fn is_unicode_alphanumeric(c: char) -> bool;

/// `char::is_alphanumeric`, named `is_unicode_alphanumeric`.
#[verifier::external_body]
pub(crate) fn char_is_alphanumeric(c: char) -> (r: bool)
    ensures
        r == is_unicode_alphanumeric(c),
{
    c.is_alphanumeric()
}

/// The decimal digit character for `d < 10`.
pub open spec fn digit_char(d: nat) -> char {
    (48 + d) as char
}

/// Decimal notation of `n`, without sign or leading zeros (`u64::to_string`).
pub open spec fn decimal(n: nat) -> Seq<char>
    decreases n,
{
    if n < 10 {
        seq![digit_char(n)]
    } else {
        decimal(n / 10).push(digit_char(n % 10))
    }
}

fn digit(d: u64) -> (c: char)
    requires
        d < 10,
    ensures
        c == digit_char(d as nat),
{
    let b: u8 = 48u8 + (d as u8);
    b as char
}

/// Decimal notation of `n` (`u64::to_string`).
pub fn u64_to_text(n: u64) -> (r: String)
    ensures
        r@ == decimal(n as nat),
    decreases n,
{
    if n < 10 {
        let mut r = String::new();
        push_char(&mut r, digit(n));
        assert(r@ =~= seq![digit_char(n as nat)]);
        r
    } else {
        let mut r = u64_to_text(n / 10);
        push_char(&mut r, digit(n % 10));
        r
    }
}

/// Whether `c` is one of `0`..`9`.
pub open spec fn is_ascii_digit(c: char) -> bool {
    '0' <= c && c <= '9'
}

/// Numeric value of a digit string.
pub open spec fn digits_value(s: Seq<char>) -> nat
    decreases s.len(),
{
    if s.len() == 0 {
        0
    } else {
        digits_value(s.drop_last()) * 10 + ((s.last() as nat) - 48) as nat
    }
}

/// `u64::from_str`: an optional `+`, then one or more decimal digits whose value fits in a `u64`.
pub open spec fn parse_u64_spec(s: Seq<char>) -> Option<u64> {
    if all_digits(unsigned_digits(s)) && digits_value(unsigned_digits(s)) <= u64::MAX {
        Some(digits_value(unsigned_digits(s)) as u64)
    } else {
        None
    }
}

/// The digit part of an unsigned number: `s` without one leading `+`.
pub open spec fn unsigned_digits(s: Seq<char>) -> Seq<char> {
    if s.len() > 1 && s[0] == '+' { s.drop_first() } else { s }
}

/// A non-empty run of decimal digits.
pub open spec fn all_digits(s: Seq<char>) -> bool {
    s.len() > 0 && forall|k: int| 0 <= k < s.len() ==> is_ascii_digit(#[trigger] s[k])
}

proof fn lemma_digits_value_push(s: Seq<char>, c: char)
    ensures
        digits_value(s.push(c)) == digits_value(s) * 10 + ((c as nat) - 48) as nat,
{
    assert(s.push(c).drop_last() =~= s);
}

/// Parses an unsigned decimal number the way `str::parse::<u64>` does.
pub fn parse_u64(s: &str) -> (r: Option<u64>)
    ensures
        r == parse_u64_spec(s@),
{
    let n = s.unicode_len();
    let start: usize = if n > 1 && s.get_char(0) == '+' { 1 } else { 0 };
    let ghost digits = unsigned_digits(s@);
    assert(digits =~= s@.subrange(start as int, n as int));
    if start == n {
        return None;
    }
    let mut value: u64 = 0;
    let mut i: usize = start;
    while i < n
        invariant
            n == s@.len(),
            start <= i <= n,
            start < n,
            digits == s@.subrange(start as int, n as int),
            digits == unsigned_digits(s@),
            forall|k: int| start <= k < i ==> is_ascii_digit(#[trigger] s@[k]),
            value as nat == digits_value(s@.subrange(start as int, i as int)),
        decreases n - i,
    {
        let c = s.get_char(i);
        if !('0' <= c && c <= '9') {
            assert(digits[i - start] == c);
            assert(!is_ascii_digit(digits[i - start]));
            return None;
        }
        let d: u64 = (c as u32 - 48) as u64;
        proof {
            lemma_digits_value_push(s@.subrange(start as int, i as int), c);
            assert(s@.subrange(start as int, i as int).push(c) =~= s@.subrange(start as int, i + 1));
        }
        if value > (u64::MAX - d) / 10 {
            proof {
                if forall|j: int| 0 <= j < digits.len() ==> is_ascii_digit(#[trigger] digits[j]) {
                    lemma_digits_prefix_bound(digits, (i + 1 - start) as int);
                    assert(digits.subrange(0, (i + 1 - start) as int) =~= s@.subrange(start as int, i + 1));
                }
                assert(value * 10 + d > u64::MAX) by (nonlinear_arith)
                    requires value > (u64::MAX - d) / 10, d < 10;
            }
            return None;
        }
        assert(value * 10 + d <= u64::MAX) by (nonlinear_arith)
            requires value <= (u64::MAX - d) / 10, d < 10;
        value = value * 10 + d;
        i = i + 1;
    }
    assert(s@.subrange(start as int, n as int) =~= digits);
    Some(value)
}

/// The value of a digit string is at least that of each of its prefixes.
proof fn lemma_digits_prefix_bound(s: Seq<char>, k: int)
    requires
        0 <= k <= s.len(),
        forall|j: int| 0 <= j < s.len() ==> is_ascii_digit(#[trigger] s[j]),
    ensures
        digits_value(s.subrange(0, k)) <= digits_value(s),
    decreases s.len() - k,
{
    if k == s.len() {
        assert(s.subrange(0, k) =~= s);
    } else {
        let t = s.drop_last();
        assert forall|j: int| 0 <= j < t.len() implies is_ascii_digit(#[trigger] t[j]) by {
            assert(t[j] == s[j]);
        }
        lemma_digits_prefix_bound(t, k);
        assert(t.subrange(0, k) =~= s.subrange(0, k));
        assert(digits_value(s) == digits_value(t) * 10 + ((s.last() as nat) - 48) as nat);
    }
}


/// The view of an optional text.
pub open spec fn opt_view(o: Option<String>) -> Option<Seq<char>> {
    match o {
        Some(t) => Some(t@),
        None => None,
    }
}

/// The first line of `s` as `str::lines` yields it: everything before the
/// first `\n`, without the `\r` of a `\r\n` ending (empty text for empty `s`).
pub open spec fn first_line_spec(s: Seq<char>) -> Seq<char> {
    if exists|i: int| 0 <= i < s.len() && s[i] == '\n' {
        let i = choose|i: int| 0 <= i < s.len() && s[i] == '\n' && forall|j: int| 0 <= j < i ==> s[j] != '\n';
        if i > 0 && s[i - 1] == '\r' {
            s.subrange(0, i - 1)
        } else {
            s.subrange(0, i)
        }
    } else {
        s
    }
}

/// The first line of `s` (`s.lines().next().unwrap_or("")`).
pub fn first_line(s: &str) -> (r: String)
    ensures
        r@ == first_line_spec(s@),
{
    let n = s.unicode_len();
    let mut i: usize = 0;
    while i < n && s.get_char(i) != '\n'
        invariant
            n == s@.len(),
            i <= n,
            forall|j: int| 0 <= j < i ==> s@[j] != '\n',
        decreases n - i,
    {
        i = i + 1;
    }
    if i == n {
        assert(s@.subrange(0, n as int) =~= s@);
        return s.to_owned();
    }
    proof {
        let w = choose|k: int| 0 <= k < s@.len() && s@[k] == '\n' && forall|j: int| 0 <= j < k ==> s@[j] != '\n';
        assert(0 <= i < s@.len() && s@[i as int] == '\n' && forall|j: int| 0 <= j < i ==> s@[j] != '\n');
        if w < i {
        } else if w > i {
            assert(s@[i as int] != '\n');
        }
        assert(w == i);
    }
    if i > 0 && s.get_char(i - 1) == '\r' {
        s.substring_char(0, i - 1).to_owned()
    } else {
        s.substring_char(0, i).to_owned()
    }
}


/// Index of the first `\n` at or after `from`, or the length when there is none.
pub open spec fn line_end(s: Seq<char>, from: int) -> int
    decreases s.len() - from,
{
    if from >= s.len() {
        s.len() as int
    } else if s[from] == '\n' {
        from
    } else {
        line_end(s, from + 1)
    }
}

pub proof fn lemma_line_end_bounds(s: Seq<char>, from: int)
    requires
        0 <= from,
    ensures
        from < s.len() ==> from <= line_end(s, from) <= s.len(),
        from >= s.len() ==> line_end(s, from) == s.len(),
        line_end(s, from) < s.len() ==> s[line_end(s, from)] == '\n',
    decreases s.len() - from,
{
    if from < s.len() && s[from] != '\n' {
        lemma_line_end_bounds(s, from + 1);
    }
}

proof fn lemma_line_end_at(s: Seq<char>, from: int, e: int)
    requires
        0 <= from <= e <= s.len(),
        forall|k: int| from <= k < e ==> s[k] != '\n',
        e == s.len() || s[e] == '\n',
    ensures
        line_end(s, from) == e,
    decreases e - from,
{
    if from < e {
        lemma_line_end_at(s, from + 1, e);
    }
}

/// The line that starts at `from`: up to the next `\n`, without the `\r` of a `\r\n`.
pub open spec fn line_at(s: Seq<char>, from: int) -> Seq<char> {
    let e = line_end(s, from);
    let raw = s.subrange(from, e);
    if e < s.len() && raw.len() > 0 && raw.last() == '\r' {
        raw.drop_last()
    } else {
        raw
    }
}

/// The lines of `s` from index `from` on, as `str::lines` yields them.
pub open spec fn lines_from(s: Seq<char>, from: int) -> Seq<Seq<char>>
    decreases s.len() - from,
{
    if from < 0 || from >= s.len() {
        Seq::empty()
    } else {
        proof {
            lemma_line_end_bounds(s, from);
        }
        if line_end(s, from) >= s.len() {
            seq![line_at(s, from)]
        } else {
            seq![line_at(s, from)] + lines_from(s, line_end(s, from) + 1)
        }
    }
}

/// The lines of `s` (`str::lines`): split at `\n` and `\r\n`, with no empty
/// line after a final line ending.
pub open spec fn lines_spec(s: Seq<char>) -> Seq<Seq<char>> {
    lines_from(s, 0)
}

/// The line starting at `from` and the index just past its line ending.
pub fn next_line(s: &str, from: usize) -> (r: (String, usize))
    requires
        from < s@.len(),
    ensures
        r.0@ == line_at(s@, from as int),
        r.1 == (if line_end(s@, from as int) < s@.len() { line_end(s@, from as int) + 1 } else { s@.len() as int }),
        from < r.1 <= s@.len(),
        lines_from(s@, from as int) == seq![r.0@] + lines_from(s@, r.1 as int),
{
    let n = s.unicode_len();
    let mut e: usize = from;
    while e < n && s.get_char(e) != '\n'
        invariant
            n == s@.len(),
            from <= e <= n,
            forall|k: int| from <= k < e ==> s@[k] != '\n',
        decreases n - e,
    {
        e = e + 1;
    }
    proof {
        lemma_line_end_at(s@, from as int, e as int);
    }
    let line = if e < n && e > from && s.get_char(e - 1) == '\r' {
        assert(s@.subrange(from as int, e as int).drop_last() =~= s@.subrange(from as int, e - 1));
        s.substring_char(from, e - 1).to_owned()
    } else {
        s.substring_char(from, e).to_owned()
    };
    if e < n {
        (line, e + 1)
    } else {
        assert(seq![line@] + lines_from(s@, n as int) =~= seq![line@]);
        (line, n)
    }
}

/// Whether the line carries the property `name`: the name followed by `;` or `:`.
pub open spec fn is_property_spec(line: Seq<char>, name: Seq<char>) -> bool {
    name.is_prefix_of(line) && line.len() > name.len() && (line[name.len() as int] == ':' || line[name.len() as int] == ';')
}

/// Whether the line carries the iCal property `name`.
pub fn is_property(line: &str, name: &str) -> (r: bool)
    ensures
        r == is_property_spec(line@, name@),
{
    if !starts_with(line, name) {
        return false;
    }
    let k = name.unicode_len();
    if line.unicode_len() <= k {
        return false;
    }
    let c = line.get_char(k);
    c == ':' || c == ';'
}


proof fn lemma_trim_start_first(s: Seq<char>, noise: bool)
    ensures
        trim_start_spec(s, noise).len() == 0 || !is_trimmed_char(trim_start_spec(s, noise)[0], noise),
    decreases s.len(),
{
    if s.len() > 0 && is_trimmed_char(s[0], noise) {
        lemma_trim_start_first(s.drop_first(), noise);
    }
}

proof fn lemma_trim_end_prefix(s: Seq<char>, noise: bool)
    ensures
        trim_end_spec(s, noise).len() <= s.len(),
        trim_end_spec(s, noise) == s.subrange(0, trim_end_spec(s, noise).len() as int),
        trim_end_spec(s, noise).len() == 0 || !is_trimmed_char(trim_end_spec(s, noise).last(), noise),
    decreases s.len(),
{
    if s.len() > 0 && is_trimmed_char(s.last(), noise) {
        lemma_trim_end_prefix(s.drop_last(), noise);
        let t = trim_end_spec(s.drop_last(), noise);
        assert(s.drop_last().subrange(0, t.len() as int) =~= s.subrange(0, t.len() as int));
    } else {
        assert(s.subrange(0, s.len() as int) =~= s);
    }
}

/// Trimming twice trims no more than trimming once.
pub proof fn lemma_trim_idempotent(s: Seq<char>, noise: bool)
    ensures
        trim_spec(trim_spec(s, noise), noise) == trim_spec(s, noise),
{
    let u = trim_start_spec(s, noise);
    let t = trim_end_spec(u, noise);
    lemma_trim_start_first(s, noise);
    lemma_trim_end_prefix(u, noise);
    if t.len() > 0 {
        assert(t[0] == u[0]);
        assert(trim_start_spec(t, noise) == t);
        assert(trim_end_spec(t, noise) == t);
    } else {
        assert(trim_start_spec(t, noise) == t);
    }
}

/// Whitespace trimming is idempotent.
pub proof fn lemma_trimmed_idempotent(s: Seq<char>)
    ensures
        trimmed(trimmed(s)) == trimmed(s),
{
    lemma_trim_idempotent(s, false);
}


/// The `Display` text of the error `str::parse::<u64>` gives for `s` (the
/// empty text when `s` parses).
pub uninterp spec fn u64_parse_error_text(s: Seq<char>) -> Seq<char>;

/// The `Display` text of `str::parse::<u64>`'s error for `s`; named `u64_parse_error_text`.
#[verifier::external_body]
pub(crate) fn u64_parse_error(s: &str) -> (r: String)
    ensures
        r@ == u64_parse_error_text(s@),
{
    match s.parse::<u64>() {
        Ok(_) => String::new(),
        Err(e) => e.to_string(),
    }
}


/// Whether `needle` occurs in `hay` (`str::contains`).
pub open spec fn contains_text_spec(hay: Seq<char>, needle: Seq<char>) -> bool {
    exists|i: int| 0 <= i && i + needle.len() <= hay.len() && #[trigger] hay.subrange(i, i + needle.len()) == needle
}

/// Whether `needle` occurs in `hay`.
pub fn contains_text(hay: &str, needle: &str) -> (r: bool)
    ensures
        r == contains_text_spec(hay@, needle@),
{
    let n = hay.unicode_len();
    let m = needle.unicode_len();
    if m > n {
        proof {
            if contains_text_spec(hay@, needle@) {
                let i = choose|i: int| 0 <= i && i + needle@.len() <= hay@.len() && #[trigger] hay@.subrange(i, i + needle@.len()) == needle@;
            }
        }
        return false;
    }
    if m == 0 {
        assert(hay@.subrange(0int, 0int + needle@.len()) =~= needle@);
        return true;
    }
    let mut i: usize = 0;
    let last = n - m;
    while i <= last
        invariant
            n == hay@.len(),
            m == needle@.len(),
            m <= n,
            m > 0,
            last == n - m,
            i <= last + 1,
            forall|k: int| 0 <= k < i ==> #[trigger] hay@.subrange(k, k + m) != needle@,
        decreases last + 1 - i,
    {
        let part = hay.substring_char(i, i + m);
        if text_eq(part, needle) {
            return true;
        }
        i = i + 1;
    }
    proof {
        if contains_text_spec(hay@, needle@) {
            let k = choose|k: int| 0 <= k && k + needle@.len() <= hay@.len() && #[trigger] hay@.subrange(k, k + needle@.len()) == needle@;
            assert(k < i);
        }
    }
    false
}

} // verus!
