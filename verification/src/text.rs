//! Character-level string helpers shared by the parsers of this crate.
//!
//! Strings are reasoned about as sequences of `char` (their view). Trimming
//! and word splitting follow `char::is_whitespace` (the Unicode `White_Space`
//! property); ordering is the lexicographic order on characters, which is the
//! order of `str`'s `Ord` (UTF-8 byte order equals code point order).

use vstd::prelude::*;

verus! {

/// Appends one character (`String::push`).
#[verifier::external_body]
pub(crate) fn push_char(s: &mut String, c: char)
    ensures
        final(s)@ == old(s)@.push(c),
{
    s.push(c);
}

/// The characters of `s`, in order.
pub fn chars_of(s: &str) -> (v: Vec<char>)
    ensures
        v@ == s@,
{
    let mut v: Vec<char> = Vec::new();
    for c in it: s.chars()
        invariant
            v@ == it.seq().take(it.index() as int),
            it.seq() == s@,
    {
        v.push(c);
    }
    v
}

/// A string made of `v[a..b]`.
pub fn string_of(v: &Vec<char>, a: usize, b: usize) -> (s: String)
    requires
        a <= b <= v.len(),
    ensures
        s@ == v@.subrange(a as int, b as int),
{
    let mut s = String::new();
    let mut i = a;
    while i < b
        invariant
            a <= i <= b <= v.len(),
            s@ == v@.subrange(a as int, i as int),
        decreases b - i,
    {
        push_char(&mut s, v[i]);
        proof {
            assert(v@.subrange(a as int, i + 1) =~= v@.subrange(a as int, i as int).push(v@[i as int]));
        }
        i += 1;
    }
    s
}

/// A string made of all of `v`.
pub fn string_of_all(v: &Vec<char>) -> (s: String)
    ensures
        s@ == v@,
{
    let s = string_of(v, 0, v.len());
    proof {
        assert(v@.subrange(0, v@.len() as int) =~= v@);
    }
    s
}

/// Inserts `c` before the character at position `at` (at the end when
/// `at` is past it).
pub fn insert_at(s: &mut String, at: usize, c: char)
    ensures
        final(s)@ == old(s)@.insert(if at <= old(s)@.len() { at as int } else { old(s)@.len() as int }, c),
{
    let mut v = chars_of(s.as_str());
    let k = if at <= v.len() {
        at
    } else {
        v.len()
    };
    v.insert(k, c);
    *s = string_of_all(&v);
}

/// Removes the character at position `at` (nothing when there is none).
pub fn remove_at(s: &mut String, at: usize)
    ensures
        at < old(s)@.len() ==> final(s)@ == old(s)@.remove(at as int),
        at >= old(s)@.len() ==> final(s)@ == old(s)@,
{
    let mut v = chars_of(s.as_str());
    if at < v.len() {
        let _ = v.remove(at);
        *s = string_of_all(&v);
    }
}

/// A fresh copy of a string.
pub fn copy_str(s: &str) -> (r: String)
    ensures
        r@ == s@,
{
    s.to_owned()
}

// ------------------------------------------------------------ whitespace

/// Unicode `White_Space` (what `char::is_whitespace` tests).
pub open spec fn is_ws(c: char) -> bool {
    ('\u{9}' <= c && c <= '\u{d}') || c == ' ' || c == '\u{85}' || c == '\u{a0}' || c
        == '\u{1680}' || ('\u{2000}' <= c && c <= '\u{200a}') || c == '\u{2028}' || c
        == '\u{2029}' || c == '\u{202f}' || c == '\u{205f}' || c == '\u{3000}'
}

/// `char::is_whitespace`.
pub fn is_whitespace(c: char) -> (r: bool)
    ensures
        r == is_ws(c),
{
    ('\u{9}' <= c && c <= '\u{d}') || c == ' ' || c == '\u{85}' || c == '\u{a0}' || c
        == '\u{1680}' || ('\u{2000}' <= c && c <= '\u{200a}') || c == '\u{2028}' || c
        == '\u{2029}' || c == '\u{202f}' || c == '\u{205f}' || c == '\u{3000}'
}

/// Leading whitespace removed.
pub open spec fn trim_start(s: Seq<char>) -> Seq<char>
    decreases s.len(),
{
    if s.len() > 0 && is_ws(s[0]) {
        trim_start(s.drop_first())
    } else {
        s
    }
}

/// Trailing whitespace removed.
pub open spec fn trim_end(s: Seq<char>) -> Seq<char>
    decreases s.len(),
{
    if s.len() > 0 && is_ws(s.last()) {
        trim_end(s.drop_last())
    } else {
        s
    }
}

/// `str::trim`.
pub open spec fn trim(s: Seq<char>) -> Seq<char> {
    trim_end(trim_start(s))
}

pub proof fn lemma_trim_start_first(s: Seq<char>)
    ensures
        trim_start(s).len() > 0 ==> !is_ws(trim_start(s)[0]),
        trim_start(s).len() <= s.len(),
    decreases s.len(),
{
    if s.len() > 0 && is_ws(s[0]) {
        lemma_trim_start_first(s.drop_first());
    }
}

pub proof fn lemma_trim_end_prefix(s: Seq<char>)
    ensures
        trim_end(s).len() <= s.len(),
        trim_end(s) == s.take(trim_end(s).len() as int),
        trim_end(s).len() > 0 ==> !is_ws(trim_end(s).last()),
    decreases s.len(),
{
    if s.len() > 0 && is_ws(s.last()) {
        lemma_trim_end_prefix(s.drop_last());
        assert(s.drop_last().take(trim_end(s).len() as int) =~= s.take(trim_end(s).len() as int));
    } else {
        assert(s.take(s.len() as int) =~= s);
    }
}

/// A non-empty trimmed string starts and ends with non-whitespace.
pub proof fn lemma_trim_edges(s: Seq<char>)
    ensures
        trim(s).len() > 0 ==> !is_ws(trim(s)[0]) && !is_ws(trim(s).last()),
        trim(s).len() <= s.len(),
{
    lemma_trim_start_first(s);
    lemma_trim_end_prefix(trim_start(s));
    if trim(s).len() > 0 {
        assert(trim(s)[0] == trim_start(s)[0]);
    }
}

/// Bounds `(a, b)` with `v[a..b] == trim(v)`.
pub fn trim_bounds(v: &Vec<char>) -> (r: (usize, usize))
    ensures
        r.0 <= r.1 <= v.len(),
        v@.subrange(r.0 as int, r.1 as int) == trim(v@),
{
    let n = v.len();
    let mut i: usize = 0;
    proof {
        assert(v@.subrange(0, n as int) =~= v@);
    }
    while i < n && is_whitespace(v[i])
        invariant
            i <= n == v.len(),
            trim_start(v@) == trim_start(v@.subrange(i as int, n as int)),
        decreases n - i,
    {
        proof {
            assert(v@.subrange(i as int, n as int).drop_first() =~= v@.subrange(i + 1, n as int));
        }
        i += 1;
    }
    let mut j: usize = n;
    proof {
        assert(v@.subrange(i as int, n as int)[0] == v@[i as int] || i == n);
    }
    while j > i && is_whitespace(v[j - 1])
        invariant
            i <= j <= n == v.len(),
            trim_start(v@) == v@.subrange(i as int, n as int) || trim_start(v@) == trim_start(
                v@.subrange(i as int, n as int),
            ),
            trim_end(trim_start(v@)) == trim_end(v@.subrange(i as int, j as int)),
        decreases j - i,
    {
        proof {
            assert(v@.subrange(i as int, j as int).drop_last() =~= v@.subrange(
                i as int,
                j - 1,
            ));
        }
        j -= 1;
    }
    (i, j)
}

/// Length of the leading run of non-whitespace characters.
pub open spec fn token_len(s: Seq<char>) -> nat
    decreases s.len(),
{
    if s.len() == 0 || is_ws(s[0]) {
        0
    } else {
        1 + token_len(s.drop_first())
    }
}

pub proof fn lemma_token_len_bound(s: Seq<char>)
    ensures
        token_len(s) <= s.len(),
    decreases s.len(),
{
    if s.len() > 0 && !is_ws(s[0]) {
        lemma_token_len_bound(s.drop_first());
    }
}

/// End of the non-whitespace run that starts at `a` (exclusive bound `b`).
pub fn token_end(v: &Vec<char>, a: usize, b: usize) -> (e: usize)
    requires
        a <= b <= v.len(),
    ensures
        a <= e <= b,
        e - a == token_len(v@.subrange(a as int, b as int)),
{
    let mut e = a;
    while e < b && !is_whitespace(v[e])
        invariant
            a <= e <= b <= v.len(),
            token_len(v@.subrange(a as int, b as int)) == (e - a) + token_len(
                v@.subrange(e as int, b as int),
            ),
        decreases b - e,
    {
        proof {
            assert(v@.subrange(e as int, b as int).drop_first() =~= v@.subrange(e + 1, b as int));
        }
        e += 1;
    }
    e
}

// ------------------------------------------------------------ ASCII case

/// `char::to_ascii_lowercase`.
pub open spec fn ascii_lower(c: char) -> char {
    if 'A' <= c && c <= 'Z' {
        ((c as u32) + 32) as char
    } else {
        c
    }
}

pub open spec fn lower_seq(s: Seq<char>) -> Seq<char> {
    s.map_values(|c: char| ascii_lower(c))
}

pub fn to_ascii_lower(c: char) -> (r: char)
    ensures
        r == ascii_lower(c),
{
    if 'A' <= c && c <= 'Z' {
        let u: u32 = c as u32 + 32;
        // 'a'..='z'
        char_from_ascii(u)
    } else {
        c
    }
}

/// The character with an ASCII code point.
fn char_from_ascii(u: u32) -> (c: char)
    requires
        u < 128,
    ensures
        c == u as char,
{
    (u as u8) as char
}

/// `s` starts with `p`.
pub open spec fn has_prefix(s: Seq<char>, p: Seq<char>) -> bool {
    p.len() <= s.len() && s.take(p.len() as int) == p
}

/// Element-wise equality of two character vectors.
pub fn chars_eq(a: &Vec<char>, b: &Vec<char>) -> (r: bool)
    ensures
        r == (a@ == b@),
{
    if a.len() != b.len() {
        return false;
    }
    let n = a.len();
    for i in 0..n
        invariant
            n == a.len() == b.len(),
            a@.take(i as int) == b@.take(i as int),
    {
        if a[i] != b[i] {
            return false;
        }
        proof {
            assert(a@.take(i + 1) =~= a@.take(i as int).push(a@[i as int]));
            assert(b@.take(i + 1) =~= b@.take(i as int).push(b@[i as int]));
        }
    }
    proof {
        assert(a@.take(n as int) =~= a@);
        assert(b@.take(n as int) =~= b@);
    }
    true
}

/// String equality.
pub fn str_eq(a: &str, b: &str) -> (r: bool)
    ensures
        r == (a@ == b@),
{
    let va = chars_of(a);
    let vb = chars_of(b);
    chars_eq(&va, &vb)
}

/// Whether `v[a..]` starts with `p`, comparing ASCII case-insensitively when
/// `fold` is set.
pub fn starts_with_at(v: &Vec<char>, a: usize, p: &Vec<char>, fold: bool) -> (r: bool)
    requires
        a <= v.len(),
    ensures
        !fold ==> r == has_prefix(v@.skip(a as int), p@),
        fold ==> r == has_prefix(lower_seq(v@.skip(a as int)), lower_seq(p@)),
{
    let n = p.len();
    if v.len() - a < n {
        return false;
    }
    for i in 0..n
        invariant
            n == p.len(),
            a + n <= v.len(),
            !fold ==> v@.skip(a as int).take(i as int) == p@.take(i as int),
            fold ==> lower_seq(v@.skip(a as int)).take(i as int) == lower_seq(p@).take(i as int),
    {
        let x = v[a + i];
        let y = p[i];
        let same = if fold {
            to_ascii_lower(x) == to_ascii_lower(y)
        } else {
            x == y
        };
        if !same {
            proof {
                if !fold {
                    assert(v@.skip(a as int).take(n as int)[i as int] == x);
                } else {
                    assert(lower_seq(v@.skip(a as int)).take(n as int)[i as int] == ascii_lower(x));
                    assert(lower_seq(p@)[i as int] == ascii_lower(y));
                }
            }
            return false;
        }
        proof {
            assert(v@.skip(a as int).take(i + 1) =~= v@.skip(a as int).take(i as int).push(x));
            assert(p@.take(i + 1) =~= p@.take(i as int).push(y));
            assert(lower_seq(v@.skip(a as int)).take(i + 1) =~= lower_seq(v@.skip(a as int)).take(
                i as int,
            ).push(ascii_lower(x)));
            assert(lower_seq(p@).take(i + 1) =~= lower_seq(p@).take(i as int).push(
                ascii_lower(y),
            ));
        }
    }
    proof {
        assert(p@.take(n as int) =~= p@);
        assert(lower_seq(p@).take(n as int) =~= lower_seq(p@));
        assert(lower_seq(v@.skip(a as int)).len() == v@.skip(a as int).len());
    }
    true
}

// ------------------------------------------------------------ lists

/// The views of a sequence of strings.
pub open spec fn views_of(v: Seq<String>) -> Seq<Seq<char>> {
    v.map_values(|t: String| t@)
}

/// Some element of `list` equals `s`.
pub open spec fn has_item(list: Seq<String>, s: Seq<char>) -> bool {
    exists|i: int| 0 <= i < list.len() && list[i]@ == s
}

/// Whether some element of `list` equals `s`.
pub fn contains_str(list: &[String], s: &str) -> (r: bool)
    ensures
        r == has_item(list@, s@),
{
    let n = list.len();
    for i in 0..n
        invariant
            n == list@.len(),
            forall|j: int| 0 <= j < i ==> list@[j]@ != s@,
    {
        if str_eq(list[i].as_str(), s) {
            return true;
        }
    }
    false
}

/// Removes the last character (`String::pop`).
#[verifier::external_body]
pub(crate) fn pop_char(s: &mut String) -> (r: Option<char>)
    ensures
        old(s)@.len() == 0 ==> r is None && final(s)@ == old(s)@,
        old(s)@.len() > 0 ==> r == Some(old(s)@.last()) && final(s)@ == old(s)@.drop_last(),
{
    s.pop()
}

// ------------------------------------------------------------ numbers

/// Decimal digits of `n` (no sign, no leading zeros; `0` is `"0"`).
pub open spec fn decimal(n: nat) -> Seq<char>
    decreases n,
{
    if n < 10 {
        seq![digit_char(n)]
    } else {
        decimal(n / 10).push(digit_char(n % 10))
    }
}

pub open spec fn digit_char(d: nat) -> char {
    ((d + 48) as u32) as char
}

pub proof fn lemma_decimal_len(n: nat)
    ensures
        decimal(n).len() >= 1,
        n < 10 ==> decimal(n).len() == 1,
    decreases n,
{
    if n >= 10 {
        lemma_decimal_len(n / 10);
    }
}

fn digit(d: u64) -> (c: char)
    requires
        d < 10,
    ensures
        c == digit_char(d as nat),
{
    char_from_ascii((d + 48) as u32)
}

/// `n` in decimal (`u64::to_string`).
pub fn decimal_string(n: u64) -> (s: String)
    ensures
        s@ == decimal(n as nat),
{
    let mut digits: Vec<char> = Vec::new();
    let mut m = n;
    // digits of n, least significant first
    while m >= 10
        invariant
            decimal(n as nat) == decimal(m as nat) + digits@.reverse(),
        decreases m,
    {
        let d = m % 10;
        let c = digit(d);
        proof {
            assert(decimal(m as nat) == decimal((m / 10) as nat).push(c));
            assert(digits@.push(c).reverse() =~= seq![c] + digits@.reverse());
            assert(decimal((m / 10) as nat).push(c) + digits@.reverse() =~= decimal(
                (m / 10) as nat,
            ) + (seq![c] + digits@.reverse()));
        }
        digits.push(c);
        m = m / 10;
    }
    let first = digit(m);
    let mut s = String::new();
    push_char(&mut s, first);
    proof {
        assert(decimal(m as nat) == seq![first]);
    }
    let k = digits.len();
    let mut j: usize = k;
    while j > 0
        invariant
            j <= k == digits.len(),
            s@ + digits@.take(j as int).reverse() == decimal(n as nat),
        decreases j,
    {
        j -= 1;
        proof {
            assert(digits@.take(j + 1).reverse() =~= seq![digits@[j as int]] + digits@.take(
                j as int,
            ).reverse());
            assert(s@.push(digits@[j as int]) + digits@.take(j as int).reverse() =~= s@ + (seq![
                digits@[j as int],
            ] + digits@.take(j as int).reverse()));
        }
        push_char(&mut s, digits[j]);
    }
    proof {
        assert(digits@.take(0).reverse() =~= Seq::<char>::empty());
        assert(s@ + Seq::<char>::empty() =~= s@);
    }
    s
}

// ------------------------------------------------------------ order

/// Lexicographic "less than" on character sequences.
pub open spec fn seq_less(a: Seq<char>, b: Seq<char>) -> bool
    decreases a.len(),
{
    if a.len() == 0 {
        b.len() > 0
    } else if b.len() == 0 {
        false
    } else if a[0] != b[0] {
        a[0] < b[0]
    } else {
        seq_less(a.drop_first(), b.drop_first())
    }
}

pub proof fn lemma_less_irreflexive(a: Seq<char>)
    ensures
        !seq_less(a, a),
    decreases a.len(),
{
    if a.len() > 0 {
        lemma_less_irreflexive(a.drop_first());
    }
}

pub proof fn lemma_less_asymmetric(a: Seq<char>, b: Seq<char>)
    ensures
        !(seq_less(a, b) && seq_less(b, a)),
    decreases a.len(),
{
    if a.len() > 0 && b.len() > 0 && a[0] == b[0] {
        lemma_less_asymmetric(a.drop_first(), b.drop_first());
    }
}

pub proof fn lemma_less_total(a: Seq<char>, b: Seq<char>)
    ensures
        a == b || seq_less(a, b) || seq_less(b, a),
    decreases a.len(),
{
    if a.len() > 0 && b.len() > 0 && a[0] == b[0] {
        lemma_less_total(a.drop_first(), b.drop_first());
        if a.drop_first() == b.drop_first() {
            assert(a =~= seq![a[0]] + a.drop_first());
            assert(b =~= seq![b[0]] + b.drop_first());
        }
    } else if a.len() == 0 && b.len() == 0 {
        assert(a =~= b);
    }
}

pub proof fn lemma_less_transitive(a: Seq<char>, b: Seq<char>, c: Seq<char>)
    requires
        seq_less(a, b),
        seq_less(b, c),
    ensures
        seq_less(a, c),
    decreases a.len(),
{
    if a.len() > 0 && b.len() > 0 && c.len() > 0 && a[0] == b[0] && b[0] == c[0] {
        lemma_less_transitive(a.drop_first(), b.drop_first(), c.drop_first());
    }
}

/// `seq_less(a, b)`.
pub fn chars_less(a: &Vec<char>, b: &Vec<char>) -> (r: bool)
    ensures
        r == seq_less(a@, b@),
{
    let mut i: usize = 0;
    proof {
        assert(a@.skip(0) =~= a@);
        assert(b@.skip(0) =~= b@);
    }
    while i < a.len() && i < b.len() && a[i] == b[i]
        invariant
            i <= a.len(),
            i <= b.len(),
            seq_less(a@, b@) == seq_less(a@.skip(i as int), b@.skip(i as int)),
        decreases a.len() - i,
    {
        proof {
            assert(a@.skip(i as int).drop_first() =~= a@.skip(i + 1));
            assert(b@.skip(i as int).drop_first() =~= b@.skip(i + 1));
        }
        i += 1;
    }
    if i == a.len() {
        i < b.len()
    } else if i == b.len() {
        false
    } else {
        proof {
            assert(a@.skip(i as int)[0] == a@[i as int]);
            assert(b@.skip(i as int)[0] == b@[i as int]);
        }
        a[i] < b[i]
    }
}

} // verus!
