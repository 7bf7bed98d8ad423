//! Character-level text helpers with exact specifications.
//!
//! Strings are specified through their views (`Seq<char>`); every helper here
//! states its result over those sequences.

use vstd::prelude::*;

verus! {

// ── Specifications ──────────────────────────────────────────

/// `p` is a prefix of `s`.
pub open spec fn has_prefix(s: Seq<char>, p: Seq<char>) -> bool {
    p.len() <= s.len() && s.subrange(0, p.len() as int) == p
}

/// `p` is a suffix of `s`.
pub open spec fn has_suffix(s: Seq<char>, p: Seq<char>) -> bool {
    p.len() <= s.len() && s.subrange(s.len() - p.len(), s.len() as int) == p
}

/// `n` occurs in `h` at position `i`.
pub open spec fn occurs_at(h: Seq<char>, n: Seq<char>, i: int) -> bool {
    0 <= i && i + n.len() <= h.len() && h.subrange(i, i + n.len()) == n
}

/// `n` occurs somewhere in `h` (the empty sequence occurs everywhere).
pub open spec fn has_infix(h: Seq<char>, n: Seq<char>) -> bool {
    exists|i: int| occurs_at(h, n, i)
}

/// `i` is the first position of `c` in `s`.
pub open spec fn is_first_index(s: Seq<char>, c: char, i: int) -> bool {
    0 <= i < s.len() && s[i] == c && forall|j: int| 0 <= j < i ==> s[j] != c
}

/// The first position of `c` in `s`, if any.
pub open spec fn first_index(s: Seq<char>, c: char) -> Option<int> {
    if s.contains(c) {
        Some(choose|i: int| is_first_index(s, c, i))
    } else {
        None
    }
}

/// `s` split at the first `c` (the separator itself is dropped), as `str::split_once`.
pub open spec fn split_once_spec(s: Seq<char>, c: char) -> Option<(Seq<char>, Seq<char>)> {
    match first_index(s, c) {
        Some(i) => Some((s.take(i), s.skip(i + 1))),
        None => None,
    }
}

/// The pieces of `s` between occurrences of `c`, as `str::split` with a `char` pattern.
pub open spec fn split_spec(s: Seq<char>, c: char) -> Seq<Seq<char>>
    decreases s.len(),
{
    if s.len() == 0 {
        seq![Seq::<char>::empty()]
    } else {
        let p = split_spec(s.drop_last(), c);
        if s.last() == c {
            p.push(Seq::<char>::empty())
        } else {
            p.update(p.len() - 1, p.last().push(s.last()))
        }
    }
}

/// The views of a sequence of strings.
pub open spec fn views(v: Seq<String>) -> Seq<Seq<char>> {
    v.map_values(|s: String| s@)
}

/// Unicode `White_Space`, the set that `char::is_whitespace` and `str::trim` use.
pub open spec fn is_ws(c: char) -> bool {
    let u = c as u32;
    (0x09 <= u <= 0x0d) || u == 0x20 || u == 0x85 || u == 0xa0 || u == 0x1680 || (0x2000 <= u
        <= 0x200a) || u == 0x2028 || u == 0x2029 || u == 0x202f || u == 0x205f || u == 0x3000
}

/// Character sets that the text is trimmed by.
#[derive(PartialEq, Eq, Structural, Clone, Copy)]
pub enum CharSet {
    /// Unicode white space.
    Whitespace,
    /// `(`, `)`, `[`, `]`, `"` and `'`.
    BracketOrQuote,
    /// `-`.
    Dash,
    /// `/`.
    Slash,
    /// Characters that are neither alphanumeric nor `_` nor `-`.
    NotTagChar,
    /// Characters that are not alphanumeric.
    NotAlphanumeric,
    /// White space, `|` and `+`: what ends a link in a log line.
    LinkEnd,
}

pub open spec fn in_set(set: CharSet, c: char) -> bool {
    match set {
        CharSet::Whitespace => is_ws(c),
        CharSet::BracketOrQuote => c == '(' || c == ')' || c == '[' || c == ']' || c == '"' || c
            == '\'',
        CharSet::Dash => c == '-',
        CharSet::Slash => c == '/',
        CharSet::NotTagChar => !is_alnum(c) && c != '_' && c != '-',
        CharSet::NotAlphanumeric => !is_alnum(c),
        CharSet::LinkEnd => is_ws(c) || c == '|' || c == '+',
    }
}

/// What `char::is_alphanumeric` says of `c` (Unicode `Alphabetic` or `Numeric`).
pub uninterp spec fn is_alnum(c: char) -> bool;

/// Whether `c` is alphanumeric (`char::is_alphanumeric`); among ASCII
/// characters exactly the letters and digits are.
#[verifier::external_body]
pub(crate) fn char_is_alphanumeric(c: char) -> (b: bool)
    ensures
        b == is_alnum(c),
        (c as u32) < 128 ==> (b == (('a' <= c <= 'z') || ('A' <= c <= 'Z') || ('0' <= c <= '9'))),
{
    c.is_alphanumeric()
}

/// `s` without its leading characters from `set`.
pub open spec fn trim_start_set(s: Seq<char>, set: CharSet) -> Seq<char>
    decreases s.len(),
{
    if s.len() > 0 && in_set(set, s[0]) {
        trim_start_set(s.drop_first(), set)
    } else {
        s
    }
}

/// `s` without its trailing characters from `set`.
pub open spec fn trim_end_set(s: Seq<char>, set: CharSet) -> Seq<char>
    decreases s.len(),
{
    if s.len() > 0 && in_set(set, s.last()) {
        trim_end_set(s.drop_last(), set)
    } else {
        s
    }
}

/// `s` without leading and trailing characters from `set`, as `str::trim_matches`.
pub open spec fn trim_set(s: Seq<char>, set: CharSet) -> Seq<char> {
    trim_end_set(trim_start_set(s, set), set)
}

/// `s` without leading and trailing whitespace, as `str::trim`.
pub open spec fn trim_spec(s: Seq<char>) -> Seq<char> {
    trim_set(s, CharSet::Whitespace)
}

/// ASCII lower-casing of one character, as `char::to_ascii_lowercase`.
pub open spec fn lower_ascii(c: char) -> char {
    if 'A' <= c <= 'Z' {
        ((c as u32) + 32) as char
    } else {
        c
    }
}

/// ASCII lower-casing of a sequence.
pub open spec fn lower_ascii_seq(s: Seq<char>) -> Seq<char> {
    s.map_values(|c: char| lower_ascii(c))
}

/// The ten decimal digits.
pub open spec fn digit_chars() -> Seq<char> {
    seq!['0', '1', '2', '3', '4', '5', '6', '7', '8', '9']
}

/// The sixteen lower-case hexadecimal digits.
pub open spec fn hex_chars() -> Seq<char> {
    seq!['0', '1', '2', '3', '4', '5', '6', '7', '8', '9', 'a', 'b', 'c', 'd', 'e', 'f']
}

/// Decimal notation of `n` without leading zeros, as `Display` for unsigned integers.
pub open spec fn dec(n: nat) -> Seq<char>
    decreases n,
{
    if n < 10 {
        seq![digit_chars()[n as int]]
    } else {
        dec(n / 10).push(digit_chars()[(n % 10) as int])
    }
}

/// Lower-case hexadecimal notation of `n` without leading zeros, as `{:x}`.
pub open spec fn hex(n: nat) -> Seq<char>
    decreases n,
{
    if n < 16 {
        seq![hex_chars()[n as int]]
    } else {
        hex(n / 16).push(hex_chars()[(n % 16) as int])
    }
}

/// `s` padded on the left with `'0'` up to `width` characters, as `{:0width}`.
pub open spec fn zero_pad(s: Seq<char>, width: nat) -> Seq<char> {
    if s.len() < width {
        Seq::new((width - s.len()) as nat, |i: int| '0') + s
    } else {
        s
    }
}

/// Two lower-case hexadecimal digits for one byte, as `{:02x}`.
pub open spec fn hex_byte(b: u8) -> Seq<char> {
    seq![hex_chars()[(b / 16) as int], hex_chars()[(b % 16) as int]]
}

/// Lower-case hexadecimal notation of a byte string, two digits per byte.
pub open spec fn hex_bytes(s: Seq<u8>) -> Seq<char>
    decreases s.len(),
{
    if s.len() == 0 {
        Seq::empty()
    } else {
        hex_bytes(s.drop_last()) + hex_byte(s.last())
    }
}

/// The value of a digit character.
pub open spec fn digit_value(c: char) -> nat {
    ((c as u32) - ('0' as u32)) as nat
}

/// All characters of `s` are ASCII digits.
pub open spec fn all_digits(s: Seq<char>) -> bool {
    forall|i: int| 0 <= i < s.len() ==> '0' <= #[trigger] s[i] <= '9'
}

/// The number that a string of digits denotes.
pub open spec fn digits_value(s: Seq<char>) -> nat
    decreases s.len(),
{
    if s.len() == 0 {
        0
    } else {
        digits_value(s.drop_last()) * 10 + digit_value(s.last())
    }
}

/// What `str::parse::<u64>` gives: an optional `+`, then at least one digit,
/// denoting a number that fits in a `u64`.
pub open spec fn parse_u64_spec(s: Seq<char>) -> Option<u64> {
    let d = if s.len() > 0 && s[0] == '+' {
        s.drop_first()
    } else {
        s
    };
    if d.len() > 0 && all_digits(d) && digits_value(d) <= u64::MAX {
        Some(digits_value(d) as u64)
    } else {
        None
    }
}

/// `s` with every non-overlapping occurrence of `pat`, scanned left to right,
/// replaced by `rep`, as `str::replace` with a non-empty pattern.
pub open spec fn replace_spec(s: Seq<char>, pat: Seq<char>, rep: Seq<char>) -> Seq<char>
    decreases s.len(),
{
    if pat.len() == 0 || s.len() < pat.len() {
        s
    } else if s.subrange(0, pat.len() as int) == pat {
        rep + replace_spec(s.skip(pat.len() as int), pat, rep)
    } else {
        seq![s[0]] + replace_spec(s.drop_first(), pat, rep)
    }
}

/// The first line of `s`, as `s.lines().next().unwrap_or("")`: up to the first
/// `\n`, without a trailing `\r`.
pub open spec fn first_line_spec(s: Seq<char>) -> Seq<char> {
    let line = match first_index(s, '\n') {
        Some(i) => s.take(i),
        None => s,
    };
    if line.len() > 0 && line.last() == '\r' {
        line.drop_last()
    } else {
        line
    }
}

/// The first `n` characters of `s` (all of it when shorter), as `chars().take(n)`.
pub open spec fn take_chars(s: Seq<char>, n: nat) -> Seq<char> {
    if s.len() <= n {
        s
    } else {
        s.take(n as int)
    }
}

/// The words of `s` folded from the front: the finished words and the word in progress.
pub open spec fn words_acc(s: Seq<char>) -> (Seq<Seq<char>>, Seq<char>)
    decreases s.len(),
{
    if s.len() == 0 {
        (Seq::empty(), Seq::empty())
    } else {
        let (done, cur) = words_acc(s.drop_last());
        if is_ws(s.last()) {
            if cur.len() > 0 {
                (done.push(cur), Seq::empty())
            } else {
                (done, cur)
            }
        } else {
            (done, cur.push(s.last()))
        }
    }
}

/// The maximal runs of non-white-space characters, as `str::split_whitespace`.
pub open spec fn words_spec(s: Seq<char>) -> Seq<Seq<char>> {
    let (done, cur) = words_acc(s);
    if cur.len() > 0 {
        done.push(cur)
    } else {
        done
    }
}

/// What `str::to_lowercase` gives for `s` (full Unicode case mapping).
pub uninterp spec fn unicode_lowercase(s: Seq<char>) -> Seq<char>;

// ── Lemmas ──────────────────────────────────────────────────

/// The first position of a character is unique.
pub proof fn lemma_first_index_unique(s: Seq<char>, c: char, i: int)
    requires
        is_first_index(s, c, i),
    ensures
        first_index(s, c) == Some(i),
{
    assert(s.contains(c));
    let k = choose|k: int| is_first_index(s, c, k);
    assert(is_first_index(s, c, k));
    if k < i {
        assert(s[k] != c);
    }
    if i < k {
        assert(s[i] != c);
    }
}

/// The digit characters and their values.
pub proof fn lemma_digit_chars()
    ensures
        forall|k: int| 0 <= k < 10 ==> '0' <= #[trigger] digit_chars()[k] <= '9' && digit_value(
            digit_chars()[k],
        ) == k,
{
    assert forall|k: int| 0 <= k < 10 implies '0' <= #[trigger] digit_chars()[k] <= '9'
        && digit_value(digit_chars()[k]) == k by {
        if k == 0 {
        } else if k == 1 {
        } else if k == 2 {
        } else if k == 3 {
        } else if k == 4 {
        } else if k == 5 {
        } else if k == 6 {
        } else if k == 7 {
        } else if k == 8 {
        } else {
        }
    }
}

/// Every decimal notation is a non-empty string of digits denoting its number.
pub proof fn lemma_dec_digits(n: nat)
    ensures
        dec(n).len() > 0,
        all_digits(dec(n)),
        digits_value(dec(n)) == n,
    decreases n,
{
    lemma_digit_chars();
    if n >= 10 {
        lemma_dec_digits(n / 10);
        let d = dec(n / 10);
        assert(dec(n).drop_last() =~= d);
        assert(dec(n).last() == digit_chars()[(n % 10) as int]);
        assert(digits_value(dec(n)) == digits_value(d) * 10 + digit_value(dec(n).last()));
        assert(digit_value(digit_chars()[(n % 10) as int]) == n % 10);
        assert(n == (n / 10) * 10 + n % 10);
    } else {
        assert(digit_value(digit_chars()[n as int]) == n);
        assert(dec(n).drop_last() =~= Seq::<char>::empty());
        assert(digits_value(Seq::<char>::empty()) == 0);
        assert(digits_value(dec(n)) == digits_value(dec(n).drop_last()) * 10 + digit_value(
            dec(n).last(),
        ));
    }
}

/// Replacing a pattern by a string free of `c` leaves no `c` behind, provided
/// that the only `c` the input may hold is the pattern itself.
pub proof fn lemma_replace_removes(s: Seq<char>, pat: Seq<char>, rep: Seq<char>, c: char)
    requires
        pat.len() > 0,
        !s.contains(c) || pat == seq![c],
        !rep.contains(c),
    ensures
        !replace_spec(s, pat, rep).contains(c),
    decreases s.len(),
{
    if s.len() < pat.len() {
        if pat == seq![c] {
            assert(s.len() == 0);
        }
    } else if s.subrange(0, pat.len() as int) == pat {
        let t = s.skip(pat.len() as int);
        assert(!t.contains(c) || pat == seq![c]) by {
            if s.contains(c) == false {
                assert forall|j: int| 0 <= j < t.len() implies t[j] != c by {
                    assert(t[j] == s[j + pat.len()]);
                }
            }
        }
        lemma_replace_removes(t, pat, rep, c);
        let r = replace_spec(t, pat, rep);
        assert forall|j: int| 0 <= j < rep.len() + r.len() implies (rep + r)[j] != c by {
            if j < rep.len() {
                assert((rep + r)[j] == rep[j]);
            } else {
                assert((rep + r)[j] == r[j - rep.len()]);
            }
        }
    } else {
        let t = s.drop_first();
        if pat == seq![c] {
            assert(s.subrange(0, 1) =~= seq![s[0]]);
            assert(s[0] != c);
        } else {
            assert(s[0] != c);
        }
        assert(!t.contains(c) || pat == seq![c]) by {
            if !s.contains(c) {
                assert forall|j: int| 0 <= j < t.len() implies t[j] != c by {
                    assert(t[j] == s[j + 1]);
                }
            }
        }
        lemma_replace_removes(t, pat, rep, c);
        let r = replace_spec(t, pat, rep);
        assert forall|j: int| 0 <= j < 1 + r.len() implies (seq![s[0]] + r)[j] != c by {
            if j > 0 {
                assert((seq![s[0]] + r)[j] == r[j - 1]);
            }
        }
    }
}

// ── Executable helpers ──────────────────────────────────────

/// The characters of `s`, in order.
pub fn chars_of(s: &str) -> (v: Vec<char>)
    ensures
        v@ == s@,
{
    let mut v: Vec<char> = Vec::new();
    for c in it: s.chars()
        invariant
            v@ == it.seq().take(it.index() as int),
            it.seq() == s@,
    {
        v.push(c);
    }
    v
}

/// Append one character to a `String` (std's `String::push`).
#[verifier::external_body]
pub(crate) fn push_char(s: &mut String, c: char)
    ensures
        final(s)@ == old(s)@.push(c),
{
    s.push(c);
}

/// Append a string slice to a `String`.
pub fn push_str(s: &mut String, t: &str)
    ensures
        final(s)@ == old(s)@ + t@,
{
    s.append(t);
}

/// A `String` holding the given characters.
pub fn string_from(v: &[char]) -> (s: String)
    ensures
        s@ == v@,
{
    let mut s = String::new();
    let mut i: usize = 0;
    while i < v.len()
        invariant
            i <= v.len(),
            s@ == v@.take(i as int),
        decreases v.len() - i,
    {
        push_char(&mut s, v[i]);
        i = i + 1;
        assert(s@ =~= v@.take(i as int));
    }
    assert(v@.take(v.len() as int) =~= v@);
    s
}

/// A `String` holding the characters `v[from..to]`.
pub fn string_from_range(v: &[char], from: usize, to: usize) -> (s: String)
    requires
        from <= to <= v.len(),
    ensures
        s@ == v@.subrange(from as int, to as int),
{
    let mut s = String::new();
    let mut i: usize = from;
    while i < to
        invariant
            from <= i <= to <= v.len(),
            s@ == v@.subrange(from as int, i as int),
        decreases to - i,
    {
        push_char(&mut s, v[i]);
        i = i + 1;
        assert(s@ =~= v@.subrange(from as int, i as int));
    }
    s
}

/// A `String` equal to `t`.
pub fn owned(t: &str) -> (s: String)
    ensures
        s@ == t@,
{
    let mut s = String::new();
    push_str(&mut s, t);
    assert(s@ =~= t@);
    s
}

/// `s` equals `t`, character by character.
pub fn seq_eq(s: &[char], t: &[char]) -> (b: bool)
    ensures
        b == (s@ == t@),
{
    if s.len() != t.len() {
        return false;
    }
    let mut i: usize = 0;
    while i < s.len()
        invariant
            s.len() == t.len(),
            i <= s.len(),
            forall|j: int| 0 <= j < i ==> s@[j] == t@[j],
        decreases s.len() - i,
    {
        if s[i] != t[i] {
            return false;
        }
        i = i + 1;
    }
    assert(s@ =~= t@);
    true
}

/// The two strings are equal.
pub fn str_eq(s: &str, t: &str) -> (b: bool)
    ensures
        b == (s@ == t@),
{
    let a = chars_of(s);
    let b = chars_of(t);
    seq_eq(a.as_slice(), b.as_slice())
}

/// `n` occurs in `h` at position `i`.
pub fn matches_at(h: &[char], n: &[char], i: usize) -> (b: bool)
    ensures
        b == occurs_at(h@, n@, i as int),
{
    if i > h.len() || n.len() > h.len() - i {
        return false;
    }
    let mut k: usize = 0;
    while k < n.len()
        invariant
            i + n.len() <= h.len(),
            k <= n.len(),
            forall|j: int| 0 <= j < k ==> h@[i + j] == n@[j],
        decreases n.len() - k,
    {
        if h[i + k] != n[k] {
            assert(h@.subrange(i as int, i + n.len())[k as int] != n@[k as int]);
            return false;
        }
        k = k + 1;
    }
    assert(h@.subrange(i as int, i + n.len()) =~= n@);
    true
}

/// `p` is a prefix of `s`.
pub fn starts_with(s: &[char], p: &[char]) -> (b: bool)
    ensures
        b == has_prefix(s@, p@),
{
    let r = matches_at(s, p, 0);
    r
}

/// `p` is a suffix of `s`.
pub fn ends_with(s: &[char], p: &[char]) -> (b: bool)
    ensures
        b == has_suffix(s@, p@),
{
    if p.len() > s.len() {
        return false;
    }
    matches_at(s, p, s.len() - p.len())
}

/// The first position at which `n` occurs in `h`, if any.
pub fn find_seq(h: &[char], n: &[char]) -> (r: Option<usize>)
    ensures
        match r {
            Some(i) => occurs_at(h@, n@, i as int) && forall|j: int|
                0 <= j < i ==> !occurs_at(h@, n@, j),
            None => !has_infix(h@, n@),
        },
{
    if n.len() > h.len() {
        assert forall|j: int| !occurs_at(h@, n@, j) by {}
        return None;
    }
    let last = h.len() - n.len();
    let mut i: usize = 0;
    loop
        invariant
            n.len() <= h.len(),
            last == h.len() - n.len(),
            i <= last,
            forall|j: int| 0 <= j < i ==> !occurs_at(h@, n@, j),
        ensures
            forall|j: int| 0 <= j <= last ==> !occurs_at(h@, n@, j),
        decreases last - i,
    {
        if matches_at(h, n, i) {
            return Some(i);
        }
        if i == last {
            assert forall|j: int| 0 <= j <= last implies !occurs_at(h@, n@, j) by {
                if j < i {
                }
            }
            break;
        }
        i = i + 1;
    }
    assert forall|j: int| !occurs_at(h@, n@, j) by {
        if 0 <= j && j + n.len() <= h.len() {
            assert(j <= last);
        }
    }
    None
}

/// `n` occurs in `h`.
pub fn contains_seq(h: &[char], n: &[char]) -> (b: bool)
    ensures
        b == has_infix(h@, n@),
{
    match find_seq(h, n) {
        Some(_) => true,
        None => false,
    }
}

/// `needle` occurs in `hay`, as `str::contains` with a string pattern.
pub fn str_contains(hay: &str, needle: &str) -> (b: bool)
    ensures
        b == has_infix(hay@, needle@),
{
    let h = chars_of(hay);
    let n = chars_of(needle);
    contains_seq(h.as_slice(), n.as_slice())
}

/// `p` is a prefix of `s`, as `str::starts_with`.
pub fn str_starts_with(s: &str, p: &str) -> (b: bool)
    ensures
        b == has_prefix(s@, p@),
{
    let a = chars_of(s);
    let b = chars_of(p);
    starts_with(a.as_slice(), b.as_slice())
}

/// `p` is a suffix of `s`, as `str::ends_with`.
pub fn str_ends_with(s: &str, p: &str) -> (b: bool)
    ensures
        b == has_suffix(s@, p@),
{
    let a = chars_of(s);
    let b = chars_of(p);
    ends_with(a.as_slice(), b.as_slice())
}

/// The first position of `c` in `s`, if any.
pub fn find_char(s: &[char], c: char) -> (r: Option<usize>)
    ensures
        match r {
            Some(i) => is_first_index(s@, c, i as int) && first_index(s@, c) == Some(i as int),
            None => !s@.contains(c) && first_index(s@, c) is None,
        },
{
    let mut i: usize = 0;
    while i < s.len()
        invariant
            i <= s.len(),
            forall|j: int| 0 <= j < i ==> s@[j] != c,
        decreases s.len() - i,
    {
        if s[i] == c {
            proof {
                lemma_first_index_unique(s@, c, i as int);
            }
            return Some(i);
        }
        i = i + 1;
    }
    None
}

/// `s` split at the first `c`, as `str::split_once`.
pub fn split_once(s: &str, c: char) -> (r: Option<(String, String)>)
    ensures
        match r {
            Some((a, b)) => split_once_spec(s@, c) == Some((a@, b@)),
            None => split_once_spec(s@, c) is None,
        },
{
    let v = chars_of(s);
    let vs = v.as_slice();
    match find_char(vs, c) {
        Some(i) => {
            assert(i < vs@.len());
            let n = vs.len();
            let a = string_from_range(vs, 0, i);
            let b = string_from_range(vs, i + 1, n);
            assert(a@ =~= s@.take(i as int));
            assert(b@ =~= s@.skip(i + 1));
            Some((a, b))
        },
        None => None,
    }
}

/// The pieces of `s` between occurrences of `c`, as `str::split(c)`.
pub fn split(s: &str, c: char) -> (r: Vec<String>)
    ensures
        views(r@) == split_spec(s@, c),
{
    let v = chars_of(s);
    let mut pieces: Vec<String> = Vec::new();
    let mut cur: Vec<char> = Vec::new();
    let mut i: usize = 0;
    while i < v.len()
        invariant
            i <= v.len(),
            v@ == s@,
            split_spec(v@.take(i as int), c) == views(pieces@).push(cur@),
        decreases v.len() - i,
    {
        let ghost prev = v@.take(i as int);
        assert(v@.take(i + 1).drop_last() =~= prev);
        if v[i] == c {
            let p = string_from(cur.as_slice());
            pieces.push(p);
            cur = Vec::new();
            assert(views(pieces@) =~= views(pieces@.drop_last()).push(p@));
        } else {
            cur.push(v[i]);
        }
        i = i + 1;
        assert(split_spec(v@.take(i as int), c) =~= views(pieces@).push(cur@));
    }
    let last = string_from(cur.as_slice());
    pieces.push(last);
    assert(v@.take(v.len() as int) =~= s@);
    assert(views(pieces@) =~= views(pieces@.drop_last()).push(last@));
    pieces
}

/// `c` is Unicode white space, as `char::is_whitespace`.
pub fn is_whitespace(c: char) -> (b: bool)
    ensures
        b == is_ws(c),
{
    let u = c as u32;
    (0x09 <= u && u <= 0x0d) || u == 0x20 || u == 0x85 || u == 0xa0 || u == 0x1680 || (0x2000 <= u
        && u <= 0x200a) || u == 0x2028 || u == 0x2029 || u == 0x202f || u == 0x205f || u == 0x3000
}

/// The bounds of the trimmed part inside `s`.
proof fn lemma_trim_bounds(s: Seq<char>, set: CharSet, a: int, b: int)
    requires
        0 <= a <= b <= s.len(),
        forall|j: int| 0 <= j < a ==> in_set(set, #[trigger] s[j]),
        forall|j: int| b <= j < s.len() ==> in_set(set, #[trigger] s[j]),
        a == s.len() || !in_set(set, s[a]),
        b == a || !in_set(set, s[b - 1]),
    ensures
        trim_set(s, set) == s.subrange(a, b),
        trim_start_set(s, set) == s.subrange(a, s.len() as int),
{
    lemma_trim_start(s, set, a);
    let t = s.subrange(a, s.len() as int);
    assert forall|j: int| b - a <= j < t.len() implies in_set(set, #[trigger] t[j]) by {
        assert(t[j] == s[a + j]);
    }
    lemma_trim_end(t, set, b - a);
    assert(t.subrange(0, b - a) =~= s.subrange(a, b));
}

proof fn lemma_trim_start(s: Seq<char>, set: CharSet, a: int)
    requires
        0 <= a <= s.len(),
        forall|j: int| 0 <= j < a ==> in_set(set, #[trigger] s[j]),
        a == s.len() || !in_set(set, s[a]),
    ensures
        trim_start_set(s, set) == s.subrange(a, s.len() as int),
    decreases a,
{
    if a == 0 {
        assert(s.subrange(0, s.len() as int) =~= s);
    } else {
        assert(in_set(set, s[0]));
        let t = s.drop_first();
        assert forall|j: int| 0 <= j < a - 1 implies in_set(set, #[trigger] t[j]) by {
            assert(t[j] == s[j + 1]);
        }
        lemma_trim_start(t, set, a - 1);
        assert(t.subrange(a - 1, t.len() as int) =~= s.subrange(a, s.len() as int));
    }
}

proof fn lemma_trim_end(s: Seq<char>, set: CharSet, b: int)
    requires
        0 <= b <= s.len(),
        forall|j: int| b <= j < s.len() ==> in_set(set, #[trigger] s[j]),
        b == 0 || !in_set(set, s[b - 1]),
    ensures
        trim_end_set(s, set) == s.subrange(0, b),
    decreases s.len(),
{
    if s.len() > b {
        lemma_trim_end(s.drop_last(), set, b);
        assert(s.drop_last().subrange(0, b) =~= s.subrange(0, b));
    } else {
        assert(s.subrange(0, b) =~= s);
    }
}

/// `c` belongs to `set`.
pub fn in_set_exec(set: CharSet, c: char) -> (b: bool)
    ensures
        b == in_set(set, c),
{
    match set {
        CharSet::Whitespace => is_whitespace(c),
        CharSet::BracketOrQuote => c == '(' || c == ')' || c == '[' || c == ']' || c == '"' || c
            == '\'',
        CharSet::Dash => c == '-',
        CharSet::Slash => c == '/',
        CharSet::NotTagChar => !char_is_alphanumeric(c) && c != '_' && c != '-',
        CharSet::NotAlphanumeric => !char_is_alphanumeric(c),
        CharSet::LinkEnd => is_whitespace(c) || c == '|' || c == '+',
    }
}

/// `s` without leading and trailing characters from `set`, as `str::trim_matches`.
pub fn trim_matching(s: &str, set: CharSet) -> (r: String)
    ensures
        r@ == trim_set(s@, set),
{
    let v = chars_of(s);
    let mut a: usize = 0;
    while a < v.len() && in_set_exec(set, v[a])
        invariant
            a <= v.len(),
            forall|j: int| 0 <= j < a ==> in_set(set, #[trigger] v@[j]),
        decreases v.len() - a,
    {
        a = a + 1;
    }
    let mut b: usize = v.len();
    while b > a && in_set_exec(set, v[b - 1])
        invariant
            a <= b <= v.len(),
            forall|j: int| b <= j < v.len() ==> in_set(set, #[trigger] v@[j]),
        decreases b,
    {
        b = b - 1;
    }
    proof {
        lemma_trim_bounds(v@, set, a as int, b as int);
    }
    string_from_range(v.as_slice(), a, b)
}

/// `s` without leading characters from `set`, as `str::trim_start_matches`.
pub fn trim_start_matching(s: &str, set: CharSet) -> (r: String)
    ensures
        r@ == trim_start_set(s@, set),
{
    let v = chars_of(s);
    let mut a: usize = 0;
    while a < v.len() && in_set_exec(set, v[a])
        invariant
            a <= v.len(),
            forall|j: int| 0 <= j < a ==> in_set(set, #[trigger] v@[j]),
        decreases v.len() - a,
    {
        a = a + 1;
    }
    proof {
        lemma_trim_start(v@, set, a as int);
    }
    let n = v.len();
    string_from_range(v.as_slice(), a, n)
}

/// `s` without leading and trailing white space, as `str::trim`.
pub fn trim(s: &str) -> (r: String)
    ensures
        r@ == trim_spec(s@),
{
    trim_matching(s, CharSet::Whitespace)
}

/// ASCII lower-casing of one character, as `char::to_ascii_lowercase`.
pub fn to_ascii_lower(c: char) -> (r: char)
    ensures
        r == lower_ascii(c),
{
    if 'A' <= c && c <= 'Z' {
        let b = (c as u8) + 32;
        b as char
    } else {
        c
    }
}

/// The two strings are equal up to ASCII case, as `str::eq_ignore_ascii_case`.
pub fn eq_ignore_ascii_case(s: &[char], t: &[char]) -> (b: bool)
    ensures
        b == (lower_ascii_seq(s@) == lower_ascii_seq(t@)),
{
    if s.len() != t.len() {
        proof {
            assert(lower_ascii_seq(s@).len() != lower_ascii_seq(t@).len());
        }
        return false;
    }
    let mut i: usize = 0;
    while i < s.len()
        invariant
            s.len() == t.len(),
            i <= s.len(),
            forall|j: int| 0 <= j < i ==> lower_ascii(s@[j]) == lower_ascii(t@[j]),
        decreases s.len() - i,
    {
        if to_ascii_lower(s[i]) != to_ascii_lower(t[i]) {
            assert(lower_ascii_seq(s@)[i as int] != lower_ascii_seq(t@)[i as int]);
            return false;
        }
        i = i + 1;
    }
    assert(lower_ascii_seq(s@) =~= lower_ascii_seq(t@));
    true
}

/// The decimal digit for `d`.
pub fn digit_char(d: u64) -> (c: char)
    requires
        d < 10,
    ensures
        c == digit_chars()[d as int],
{
    match d {
        0 => '0',
        1 => '1',
        2 => '2',
        3 => '3',
        4 => '4',
        5 => '5',
        6 => '6',
        7 => '7',
        8 => '8',
        _ => '9',
    }
}

/// The lower-case hexadecimal digit for `d`.
pub fn hex_char(d: u64) -> (c: char)
    requires
        d < 16,
    ensures
        c == hex_chars()[d as int],
{
    match d {
        0 => '0',
        1 => '1',
        2 => '2',
        3 => '3',
        4 => '4',
        5 => '5',
        6 => '6',
        7 => '7',
        8 => '8',
        9 => '9',
        10 => 'a',
        11 => 'b',
        12 => 'c',
        13 => 'd',
        14 => 'e',
        _ => 'f',
    }
}

/// Append the decimal notation of `n`.
pub fn push_dec(out: &mut String, n: u64)
    ensures
        final(out)@ == old(out)@ + dec(n as nat),
    decreases n,
{
    if n >= 10 {
        push_dec(out, n / 10);
    }
    let ghost before = out@;
    push_char(out, digit_char(n % 10));
    proof {
        if n >= 10 {
            assert(dec(n as nat) == dec((n / 10) as nat).push(digit_chars()[(n % 10) as int]));
        }
        assert(out@ =~= old(out)@ + dec(n as nat));
    }
}

/// Append the lower-case hexadecimal notation of `n`.
pub fn push_hex(out: &mut String, n: u64)
    ensures
        final(out)@ == old(out)@ + hex(n as nat),
    decreases n,
{
    if n >= 16 {
        push_hex(out, n / 16);
    }
    push_char(out, hex_char(n % 16));
    proof {
        if n >= 16 {
            assert(hex(n as nat) == hex((n / 16) as nat).push(hex_chars()[(n % 16) as int]));
        }
        assert(out@ =~= old(out)@ + hex(n as nat));
    }
}

/// Decimal notation of `n`, as `n.to_string()`.
pub fn fmt_dec(n: u64) -> (s: String)
    ensures
        s@ == dec(n as nat),
{
    let mut s = String::new();
    push_dec(&mut s, n);
    assert(s@ =~= dec(n as nat));
    s
}

/// Append `s` padded on the left with zeros up to `width` characters.
pub fn push_zero_padded(out: &mut String, s: &str, width: usize)
    ensures
        final(out)@ == old(out)@ + zero_pad(s@, width as nat),
{
    let v = chars_of(s);
    let ghost start = out@;
    if v.len() < width {
        let mut k: usize = v.len();
        while k < width
            invariant
                v.len() <= k <= width,
                out@ == start + Seq::new((k - v.len()) as nat, |i: int| '0'),
            decreases width - k,
        {
            push_char(out, '0');
            k = k + 1;
            assert(out@ =~= start + Seq::new((k - v.len()) as nat, |i: int| '0'));
        }
    }
    let ghost mid = out@;
    push_str(out, s);
    assert(out@ =~= start + zero_pad(s@, width as nat));
}

/// Append two lower-case hexadecimal digits per byte, as `{:02x}` for each byte.
pub fn push_hex_bytes(out: &mut String, b: &[u8])
    ensures
        final(out)@ == old(out)@ + hex_bytes(b@),
{
    let ghost start = out@;
    let mut i: usize = 0;
    while i < b.len()
        invariant
            i <= b.len(),
            out@ == start + hex_bytes(b@.take(i as int)),
        decreases b.len() - i,
    {
        let x = b[i];
        push_char(out, hex_char((x / 16) as u64));
        push_char(out, hex_char((x % 16) as u64));
        assert(b@.take(i + 1).drop_last() =~= b@.take(i as int));
        i = i + 1;
        assert(out@ =~= start + hex_bytes(b@.take(i as int)));
    }
    assert(b@.take(b.len() as int) =~= b@);
}

/// The number a string denotes, as `str::parse::<u64>`.
pub fn parse_u64(s: &str) -> (r: Option<u64>)
    ensures
        r == parse_u64_spec(s@),
{
    let v = chars_of(s);
    let mut i: usize = 0;
    if v.len() > 0 && v[0] == '+' {
        i = 1;
    }
    let ghost d = if s@.len() > 0 && s@[0] == '+' {
        s@.drop_first()
    } else {
        s@
    };
    assert(d =~= v@.skip(i as int));
    if i >= v.len() {
        return None;
    }
    let mut acc: u64 = 0;
    let mut k: usize = i;
    while k < v.len()
        invariant
            i <= k <= v.len(),
            v@ == s@,
            d == v@.skip(i as int),
            d == (if s@.len() > 0 && s@[0] == '+' {
                s@.drop_first()
            } else {
                s@
            }),
            all_digits(v@.subrange(i as int, k as int)),
            acc as nat == digits_value(v@.subrange(i as int, k as int)),
        decreases v.len() - k,
    {
        let c = v[k];
        let ghost pre = v@.subrange(i as int, k as int);
        let ghost next = v@.subrange(i as int, k + 1);
        assert(next.drop_last() =~= pre);
        if c < '0' || c > '9' {
            assert(d[k - i] == c);
            assert(!all_digits(d));
            return None;
        }
        let dv = (c as u32 - '0' as u32) as u64;
        assert(digit_value(c) == dv);
        assert(next.last() == c);
        assert(digits_value(next) == digits_value(pre) * 10 + digit_value(c));
        if acc > (u64::MAX - dv) / 10 {
            proof {
                if all_digits(d) {
                    lemma_digits_value_prefix_monotone(d, (k + 1 - i) as int);
                    assert(d.take((k + 1 - i) as int) =~= next);
                }
            }
            return None;
        }
        acc = acc * 10 + dv;
        assert(all_digits(next));
        k = k + 1;
    }
    assert(v@.subrange(i as int, v.len() as int) =~= d);
    Some(acc)
}

/// The value of a digit string is at least the value of any of its prefixes.
proof fn lemma_digits_value_prefix_monotone(s: Seq<char>, n: int)
    requires
        0 <= n <= s.len(),
        all_digits(s),
    ensures
        digits_value(s.take(n)) <= digits_value(s),
    decreases s.len(),
{
    if n < s.len() {
        lemma_digits_value_prefix_monotone(s.drop_last(), n);
        assert(s.drop_last().take(n) =~= s.take(n));
        assert(digits_value(s) == digits_value(s.drop_last()) * 10 + digit_value(s.last()));
    } else {
        assert(s.take(n) =~= s);
    }
}

/// `s` with every occurrence of `pat` replaced by `rep`, as `str::replace`.
pub fn replace_str(s: &str, pat: &str, rep: &str) -> (r: String)
    requires
        pat@.len() > 0,
    ensures
        r@ == replace_spec(s@, pat@, rep@),
{
    let v = chars_of(s);
    let p = chars_of(pat);
    let mut out = String::new();
    let mut i: usize = 0;
    assert(v@.skip(0) =~= v@);
    while i < v.len()
        invariant
            i <= v.len(),
            v@ == s@,
            p@ == pat@,
            p@.len() > 0,
            replace_spec(s@, pat@, rep@) == out@ + replace_spec(v@.skip(i as int), pat@, rep@),
        decreases v.len() - i,
    {
        let ghost rest = v@.skip(i as int);
        if matches_at(v.as_slice(), p.as_slice(), i) {
            assert(rest.subrange(0, p@.len() as int) =~= v@.subrange(i as int, i + p@.len()));
            assert(rest.skip(p@.len() as int) =~= v@.skip(i + p@.len()));
            push_str(&mut out, rep);
            i = i + p.len();
        } else {
            proof {
                if rest.len() >= p@.len() {
                    assert(rest.subrange(0, p@.len() as int) =~= v@.subrange(i as int, i + p@.len()));
                }
            }
            assert(rest.drop_first() =~= v@.skip(i + 1));
            push_char(&mut out, v[i]);
            i = i + 1;
        }
        assert(replace_spec(s@, pat@, rep@) =~= out@ + replace_spec(v@.skip(i as int), pat@, rep@));
    }
    assert(v@.skip(v.len() as int) =~= Seq::<char>::empty());
    assert(out@ + Seq::<char>::empty() =~= out@);
    out
}

/// The first line of `s` (see `first_line_spec`).
pub fn first_line(s: &str) -> (r: String)
    ensures
        r@ == first_line_spec(s@),
{
    let v = chars_of(s);
    let end = match find_char(v.as_slice(), '\n') {
        Some(i) => i,
        None => v.len(),
    };
    let mut stop = end;
    if end > 0 && v[end - 1] == '\r' {
        stop = end - 1;
    }
    let r = string_from_range(v.as_slice(), 0, stop);
    proof {
        let line = match first_index(s@, '\n') {
            Some(i) => s@.take(i),
            None => s@,
        };
        assert(line =~= v@.subrange(0, end as int));
    }
    assert(r@ =~= first_line_spec(s@));
    r
}

/// The first `n` characters of `s`, as `s.chars().take(n).collect()`.
pub fn take_first_chars(s: &str, n: usize) -> (r: String)
    ensures
        r@ == take_chars(s@, n as nat),
{
    let v = chars_of(s);
    let stop = if v.len() <= n {
        v.len()
    } else {
        n
    };
    let r = string_from_range(v.as_slice(), 0, stop);
    assert(r@ =~= take_chars(s@, n as nat));
    r
}

/// The white-space separated words of `s`, as `str::split_whitespace`.
pub fn split_whitespace(s: &str) -> (r: Vec<String>)
    ensures
        views(r@) == words_spec(s@),
{
    let v = chars_of(s);
    let mut done: Vec<String> = Vec::new();
    let mut cur: Vec<char> = Vec::new();
    let mut i: usize = 0;
    while i < v.len()
        invariant
            i <= v.len(),
            v@ == s@,
            words_acc(v@.take(i as int)) == (views(done@), cur@),
        decreases v.len() - i,
    {
        assert(v@.take(i + 1).drop_last() =~= v@.take(i as int));
        if is_whitespace(v[i]) {
            if cur.len() > 0 {
                let w = string_from(cur.as_slice());
                done.push(w);
                cur = Vec::new();
                assert(views(done@) =~= views(done@.drop_last()).push(w@));
            }
        } else {
            cur.push(v[i]);
        }
        i = i + 1;
    }
    assert(v@.take(v.len() as int) =~= s@);
    if cur.len() > 0 {
        let w = string_from(cur.as_slice());
        done.push(w);
        assert(views(done@) =~= views(done@.drop_last()).push(w@));
    }
    done
}

/// `s` lower-cased by full Unicode case mapping, as `str::to_lowercase`; an
/// all-ASCII text is lower-cased letter by letter, `A`..`Z` to `a`..`z`.
#[verifier::external_body]
pub(crate) fn to_lowercase(s: &str) -> (r: String)
    ensures
        r@ == unicode_lowercase(s@),
        (forall|i: int| 0 <= i < s@.len() ==> (#[trigger] s@[i] as u32) < 128) ==> r@ == lower_ascii_seq(s@),
{
    s.to_lowercase()
}

/// The element `x` occurs in `v`.
pub fn slice_contains_u64(v: &[u64], x: u64) -> (b: bool)
    ensures
        b == v@.contains(x),
{
    let mut i: usize = 0;
    while i < v.len()
        invariant
            i <= v.len(),
            forall|j: int| 0 <= j < i ==> v@[j] != x,
        decreases v.len() - i,
    {
        if v[i] == x {
            return true;
        }
        i = i + 1;
    }
    false
}


/// `s` padded on the left with `fill` up to `width` characters, as `{:>width}`.
pub open spec fn pad_left(s: Seq<char>, width: nat, fill: char) -> Seq<char> {
    if s.len() < width {
        Seq::new((width - s.len()) as nat, |i: int| fill) + s
    } else {
        s
    }
}

/// Append `s` padded on the left with `fill` up to `width` characters.
pub fn push_padded(out: &mut String, s: &str, width: usize, fill: char)
    ensures
        final(out)@ == old(out)@ + pad_left(s@, width as nat, fill),
{
    let v = chars_of(s);
    let ghost start = out@;
    if v.len() < width {
        let mut k: usize = v.len();
        while k < width
            invariant
                v.len() <= k <= width,
                out@ == start + Seq::new((k - v.len()) as nat, |i: int| fill),
            decreases width - k,
        {
            push_char(out, fill);
            k = k + 1;
            assert(out@ =~= start + Seq::new((k - v.len()) as nat, |i: int| fill));
        }
    }
    push_str(out, s);
    assert(out@ =~= start + pad_left(s@, width as nat, fill));
}

/// The parts joined with `sep` between each two, as `[..].join(sep)`.
pub open spec fn join_spec(parts: Seq<Seq<char>>, sep: Seq<char>) -> Seq<char>
    decreases parts.len(),
{
    if parts.len() == 0 {
        Seq::empty()
    } else if parts.len() == 1 {
        parts[0]
    } else {
        join_spec(parts.drop_last(), sep) + sep + parts.last()
    }
}

/// The strings joined with `sep` between each two.
pub fn join(parts: &Vec<String>, sep: &str) -> (r: String)
    ensures
        r@ == join_spec(views(parts@), sep@),
{
    let mut out = String::new();
    let mut i: usize = 0;
    while i < parts.len()
        invariant
            i <= parts.len(),
            out@ == join_spec(views(parts@).take(i as int), sep@),
        decreases parts.len() - i,
    {
        let ghost prev = views(parts@).take(i as int);
        if i > 0 {
            push_str(&mut out, sep);
        }
        push_str(&mut out, parts[i].as_str());
        proof {
            let cur = views(parts@).take(i + 1);
            assert(cur.drop_last() =~= prev);
            if i == 0 {
                assert(out@ =~= cur[0]);
            } else {
                assert(out@ =~= join_spec(prev, sep@) + sep@ + cur.last());
            }
        }
        i = i + 1;
    }
    assert(views(parts@).take(parts.len() as int) =~= views(parts@));
    out
}

} // verus!
