//! Text layout of the terminal screens: number grouping, cells padded to a
//! display width, the account board's rows, and centring a box.
//!
//! Display width is the sum of the characters' widths as `unicode-width`
//! gives them (a character without a width counts 0); wide CJK characters
//! take two columns, so padding by character count would misalign columns.

use vstd::prelude::*;

use crate::text::{chars_of, decimal, decimal_string, push_char, string_of};

verus! {

/// What `UnicodeWidthChar::width` answers for a character.
pub uninterp spec fn unicode_char_width(c: char) -> Option<usize>;

/// `UnicodeWidthChar::width` (unicode-width): `None` for control
/// characters (below U+0020 and U+007F..U+009F), 1 for printable ASCII;
/// the tables never give more than 3.
#[verifier::external_body]
fn char_width_of(c: char) -> (r: Option<usize>)
    ensures
        r == unicode_char_width(c),
        c < ' ' ==> r is None,
        ' ' <= c && c < '\u{7f}' ==> r == Some(1usize),
        '\u{7f}' <= c && c < '\u{a0}' ==> r is None,
        r matches Some(w) ==> w <= 3,
{
    unicode_width::UnicodeWidthChar::width(c)
}

/// The display width of a character (0 for one without a width).
pub open spec fn cw(c: char) -> nat {
    match unicode_char_width(c) {
        Some(w) => w as nat,
        None => 0,
    }
}

/// The display width of a text.
pub open spec fn width_of(s: Seq<char>) -> nat
    decreases s.len(),
{
    if s.len() == 0 {
        0
    } else {
        width_of(s.drop_last()) + cw(s.last())
    }
}

/// The display width of a character.
pub fn char_width(c: char) -> (w: usize)
    ensures
        w == cw(c),
        w <= 3,
        ' ' <= c && c < '\u{7f}' ==> w == 1,
{
    match char_width_of(c) {
        Some(w) => w,
        None => 0,
    }
}

/// The screen rows one piece of a line takes at `w` columns: its width
/// rounded up to whole rows, an empty piece still taking one.
pub open spec fn piece_rows(p: Seq<char>, w: nat) -> nat {
    let d = if width_of(p) == 0 { 1 } else { width_of(p) };
    ((d + w - 1) as nat) / w
}

/// The characters after the last line break.
pub open spec fn last_piece(t: Seq<char>) -> Seq<char>
    decreases t.len(),
{
    if t.len() == 0 {
        t
    } else if t.last() == '\n' {
        Seq::empty()
    } else {
        last_piece(t.drop_last()).push(t.last())
    }
}

/// The rows of the pieces that end in a line break.
pub open spec fn done_rows(t: Seq<char>, w: nat) -> nat
    decreases t.len(),
{
    if t.len() == 0 {
        0
    } else if t.last() == '\n' {
        done_rows(t.drop_last(), w) + piece_rows(last_piece(t.drop_last()), w)
    } else {
        done_rows(t.drop_last(), w)
    }
}

/// The screen rows a text takes at `w` columns: each piece between line
/// breaks is wrapped on its own (see [`piece_rows`]).
pub open spec fn spec_text_rows(t: Seq<char>, w: nat) -> nat {
    done_rows(t, w) + piece_rows(last_piece(t), w)
}

proof fn lemma_piece_rows_bound(p: Seq<char>, w: nat)
    requires
        w >= 1,
    ensures
        piece_rows(p, w) <= width_of(p) + 1,
{
    let d: nat = if width_of(p) == 0 { 1 } else { width_of(p) };
    assert(((d + w - 1) as nat) / w <= d) by (nonlinear_arith)
        requires
            w >= 1,
            d >= 1,
    ;
}

/// How many screen rows a text takes at `width` columns (at least one
/// column), see [`spec_text_rows`]; at most `usize::MAX`.
pub fn text_rows(t: &str, width: usize) -> (r: usize)
    requires
        width >= 1,
    ensures
        r == if spec_text_rows(t@, width as nat) <= usize::MAX {
            spec_text_rows(t@, width as nat)
        } else {
            usize::MAX as nat
        },
{
    let v = chars_of(t);
    let n = v.len();
    let w = width as u128;
    let mut done: u128 = 0;
    let mut cur: u128 = 0;
    for i in 0..n
        invariant
            n == v@.len(),
            v@ == t@,
            w == width as u128,
            w >= 1,
            done as nat == done_rows(v@.take(i as int), width as nat),
            cur as nat == width_of(last_piece(v@.take(i as int))),
            done + cur <= 4 * i,
    {
        let ghost pre = v@.take(i as int);
        proof {
            assert(v@.take(i + 1).drop_last() =~= pre);
        }
        let c = v[i];
        if c == '\n' {
            proof {
                lemma_piece_rows_bound(last_piece(pre), width as nat);
            }
            let d: u128 = if cur == 0 { 1 } else { cur };
            done = done + (d + w - 1) / w;
            cur = 0;
        } else {
            let cwc = char_width(c);
            proof {
                let lp = last_piece(pre);
                assert(lp.push(c).drop_last() =~= lp);
            }
            cur = cur + cwc as u128;
        }
    }
    proof {
        assert(v@.take(n as int) =~= v@);
        lemma_piece_rows_bound(last_piece(v@), width as nat);
    }
    let d: u128 = if cur == 0 { 1 } else { cur };
    let total: u128 = done + (d + w - 1) / w;
    if total > usize::MAX as u128 {
        usize::MAX
    } else {
        total as usize
    }
}

/// The display width of a text (CJK characters take two columns), at
/// most `usize::MAX`.
pub fn display_width(s: &str) -> (w: usize)
    ensures
        w == if width_of(s@) <= usize::MAX { width_of(s@) } else { usize::MAX as nat },
{
    let v = crate::text::chars_of(s);
    let mut w: usize = 0;
    let mut full = false;
    let n = v.len();
    for i in 0..n
        invariant
            n == v@.len(),
            v@ == s@,
            !full ==> w == width_of(v@.take(i as int)),
            full ==> w == usize::MAX && width_of(v@.take(i as int)) >= usize::MAX,
    {
        proof {
            assert(v@.take(i + 1).drop_last() =~= v@.take(i as int));
        }
        let c = char_width(v[i]);
        if full || w > usize::MAX - c {
            w = usize::MAX;
            full = true;
        } else {
            w = w + c;
        }
    }
    proof {
        assert(v@.take(n as int) =~= v@);
    }
    w
}

/// The longest prefix of `s` that fits in `w` columns, taken character by
/// character (it stops at the first character that would overflow).
pub open spec fn truncated(s: Seq<char>, w: nat) -> Seq<char>
    decreases s.len(),
{
    if s.len() == 0 || cw(s[0]) > w {
        Seq::empty()
    } else {
        seq![s[0]] + truncated(s.drop_first(), (w - cw(s[0])) as nat)
    }
}

/// `n` spaces.
pub open spec fn spaces(n: nat) -> Seq<char> {
    Seq::new(n, |i: int| ' ')
}

/// A board cell: `s` cut to `width` columns, then padded with spaces to
/// exactly `width` (on the left when `right`).
pub open spec fn spec_cell(s: Seq<char>, width: nat, right: bool) -> Seq<char> {
    let t = truncated(s, width);
    if width_of(t) >= width {
        t
    } else if right {
        spaces((width - width_of(t)) as nat) + t
    } else {
        t + spaces((width - width_of(t)) as nat)
    }
}

pub proof fn lemma_width_concat(a: Seq<char>, b: Seq<char>)
    ensures
        width_of(a + b) == width_of(a) + width_of(b),
    decreases b.len(),
{
    if b.len() == 0 {
        assert(a + b =~= a);
    } else {
        assert((a + b).drop_last() =~= a + b.drop_last());
        lemma_width_concat(a, b.drop_last());
    }
}

pub proof fn lemma_width_spaces(n: nat)
    requires
        cw(' ') == 1,
    ensures
        width_of(spaces(n)) == n,
    decreases n,
{
    if n > 0 {
        assert(spaces(n).drop_last() =~= spaces((n - 1) as nat));
        lemma_width_spaces((n - 1) as nat);
    }
}

pub proof fn lemma_width_single(c: char)
    ensures
        width_of(seq![c]) == cw(c),
{
    assert(seq![c].drop_last() =~= Seq::<char>::empty());
    assert(width_of(Seq::<char>::empty()) == 0);
    assert(seq![c].last() == c);
}

/// The cut prefix fits.
pub proof fn lemma_truncated_fits(s: Seq<char>, w: nat)
    ensures
        width_of(truncated(s, w)) <= w,
        truncated(s, w).len() <= s.len(),
    decreases s.len(),
{
    if s.len() > 0 && cw(s[0]) <= w {
        let rest = (w - cw(s[0])) as nat;
        lemma_truncated_fits(s.drop_first(), rest);
        lemma_width_concat(seq![s[0]], truncated(s.drop_first(), rest));
        lemma_width_single(s[0]);
    } else {
        assert(truncated(s, w) =~= Seq::<char>::empty());
        assert(width_of(Seq::<char>::empty()) == 0);
    }
}

/// A cell is exactly `width` columns wide (given that a space is one).
pub proof fn lemma_cell_width(s: Seq<char>, width: nat, right: bool)
    requires
        cw(' ') == 1,
    ensures
        width_of(spec_cell(s, width, right)) == width,
{
    let t = truncated(s, width);
    lemma_truncated_fits(s, width);
    if width_of(t) < width {
        let pad = spaces((width - width_of(t)) as nat);
        lemma_width_spaces((width - width_of(t)) as nat);
        lemma_width_concat(pad, t);
        lemma_width_concat(t, pad);
    }
}

/// The longest prefix of `s` that fits in `w` columns (see
/// [`truncated`]).
pub fn truncate_width(s: &str, w: usize) -> (r: String)
    ensures
        r@ == truncated(s@, w as nat),
        width_of(r@) <= w,
{
    let v = crate::text::chars_of(s);
    let (cut, _) = cut_to_width(&v, w);
    crate::text::string_of_all(&cut)
}

/// The prefix of `v` that fits in `w` columns, and its width.
fn cut_to_width(v: &Vec<char>, w: usize) -> (r: (Vec<char>, usize))
    ensures
        r.0@ == truncated(v@, w as nat),
        r.1 == width_of(r.0@),
        r.1 <= w,
{
    let mut out: Vec<char> = Vec::new();
    let mut used: usize = 0;
    let n = v.len();
    let mut i: usize = 0;
    proof {
        assert(v@.skip(0) =~= v@);
        assert(out@ + v@.skip(0) =~= v@.skip(0));
        assert(Seq::<char>::empty() + truncated(v@, w as nat) =~= truncated(v@, w as nat));
    }
    while i < n
        invariant
            i <= n == v.len(),
            used <= w,
            used == width_of(out@),
            truncated(v@, w as nat) == out@ + truncated(v@.skip(i as int), (w - used) as nat),
        ensures
            truncated(v@, w as nat) == out@,
            used == width_of(out@),
            used <= w,
        decreases n - i,
    {
        let c = v[i];
        let cwid = char_width(c);
        let ghost rest = v@.skip(i as int);
        proof {
            assert(rest[0] == c);
            assert(rest.drop_first() =~= v@.skip(i + 1));
        }
        if cwid > w - used {
            proof {
                assert(truncated(rest, (w - used) as nat) =~= Seq::<char>::empty());
                assert(out@ + Seq::<char>::empty() =~= out@);
            }
            break;
        }
        let ghost before = out@;
        out.push(c);
        proof {
            assert(out@.drop_last() =~= before);
            assert(truncated(rest, (w - used) as nat) == seq![c] + truncated(
                v@.skip(i + 1),
                (w - used - cwid) as nat,
            ));
            assert(before + (seq![c] + truncated(v@.skip(i + 1), (w - used - cwid) as nat))
                =~= out@ + truncated(v@.skip(i + 1), (w - used - cwid) as nat));
        }
        used = used + cwid;
        i = i + 1;
    }
    proof {
        if i == n {
            assert(v@.skip(i as int) =~= Seq::<char>::empty());
        }
    }
    (out, used)
}

/// `v` followed by `n` spaces.
fn pad_right(v: &mut Vec<char>, n: usize)
    ensures
        final(v)@ == old(v)@ + spaces(n as nat),
{
    let ghost start = v@;
    let mut k: usize = 0;
    while k < n
        invariant
            k <= n,
            v@ == start + spaces(k as nat),
        decreases n - k,
    {
        v.push(' ');
        k += 1;
        proof {
            assert(v@ =~= start + spaces(k as nat));
        }
    }
}

/// A board cell: `s` cut to `width` display columns, then padded with
/// spaces to exactly `width` (on the left when `right`).
pub fn board_cell(s: &str, width: usize, right: bool) -> (r: String)
    ensures
        r@ == spec_cell(s@, width as nat, right),
        width_of(r@) == width,
{
    let v = chars_of(s);
    let (t, w) = cut_to_width(&v, width);
    let sp = char_width(' ');
    proof {
        lemma_cell_width(s@, width as nat, right);
    }
    if w >= width {
        let r = string_of(&t, 0, t.len());
        proof {
            assert(t@.subrange(0, t@.len() as int) =~= t@);
            assert(r@ == spec_cell(s@, width as nat, right));
        }
        return r;
    }
    let mut cells: Vec<char> = Vec::new();
    if right {
        pad_right(&mut cells, width - w);
        let ghost pad = cells@;
        let m = t.len();
        for k in 0..m
            invariant
                m == t@.len(),
                cells@ == pad + t@.take(k as int),
        {
            cells.push(t[k]);
            proof {
                assert(cells@ =~= pad + t@.take(k + 1));
            }
        }
        proof {
            assert(t@.take(m as int) =~= t@);
        }
    } else {
        let m = t.len();
        for k in 0..m
            invariant
                m == t@.len(),
                cells@ == t@.take(k as int),
        {
            cells.push(t[k]);
            proof {
                assert(cells@ =~= t@.take(k + 1));
            }
        }
        proof {
            assert(t@.take(m as int) =~= t@);
            assert(Seq::<char>::empty() + spaces(0) =~= Seq::<char>::empty());
        }
        pad_right(&mut cells, width - w);
    }
    proof {
        assert(cells@ =~= cells@.subrange(0, cells@.len() as int));
        assert(Seq::<char>::empty() + spaces((width - w) as nat) =~= spaces((width - w) as nat));
    }
    string_of(&cells, 0, cells.len())
}

/// `s` cut to `w` display columns and padded with spaces to `w`.
pub fn fit(s: &str, w: usize) -> (r: String)
    ensures
        r@ == spec_cell(s@, w as nat, false),
        width_of(r@) == w,
{
    board_cell(s, w, false)
}

/// Display widths of the account board's columns (header and rows share
/// them, so the columns line up).
pub const BOARD_WIDTHS: [usize; 11] = [22, 10, 8, 4, 6, 11, 5, 14, 5, 6, 11];

/// Which board columns are right-aligned.
pub const BOARD_RIGHT: [bool; 11] = [
    false,
    false,
    false,
    true,
    true,
    true,
    true,
    false,
    true,
    false,
    true,
];

/// The board's column captions, in column order.
pub open spec fn board_header_texts() -> Seq<Seq<char>> {
    seq!["档案"@, "阶段"@, "角色"@, "Lv"@, "EXP%"@, "HP"@, "频道"@, "地图"@, "打怪"@, "丢弃"@, "金币"@]
}

/// The board's column titles.
pub fn board_headers() -> (v: Vec<String>)
    ensures
        v@.map_values(|s: String| s@) == board_header_texts(),
        v@.len() == 11,
{
    let mut v: Vec<String> = Vec::new();
    v.push(String::from_str("档案"));
    v.push(String::from_str("阶段"));
    v.push(String::from_str("角色"));
    v.push(String::from_str("Lv"));
    v.push(String::from_str("EXP%"));
    v.push(String::from_str("HP"));
    v.push(String::from_str("频道"));
    v.push(String::from_str("地图"));
    v.push(String::from_str("打怪"));
    v.push(String::from_str("丢弃"));
    v.push(String::from_str("金币"));
    proof {
        assert(v@.map_values(|s: String| s@) =~= board_header_texts());
    }
    v
}

/// The first `k` columns of a board row: a leading space, then each cell
/// followed by a space.
pub open spec fn board_text(cells: Seq<Seq<char>>, k: nat) -> Seq<char>
    decreases k,
{
    if k == 0 {
        seq![' ']
    } else {
        board_text(cells, (k - 1) as nat) + spec_cell(
            cells[k - 1],
            BOARD_WIDTHS@[k - 1] as nat,
            BOARD_RIGHT@[k - 1],
        ) + seq![' ']
    }
}

/// Where column `k` ends: `1 + Σ (width + 1)` over the columns before it.
pub open spec fn board_span(k: nat) -> nat
    decreases k,
{
    if k == 0 {
        1
    } else {
        board_span((k - 1) as nat) + BOARD_WIDTHS@[k - 1] as nat + 1
    }
}

/// A board row (header or data): one cell per column, as many as there are
/// both cells and columns. Every cell is exactly its column's width, so
/// column `k` starts at the same display column in every row.
pub fn board_line(cells: &[String]) -> (r: String)
    ensures
        r@ == board_text(cells@.map_values(|c: String| c@), min_len(cells@.len(), 11)),
        width_of(r@) == board_span(min_len(cells@.len(), 11)),
        forall|k: int|
            0 <= k < min_len(cells@.len(), 11) ==> width_of(
                #[trigger] spec_cell(cells@[k]@, BOARD_WIDTHS@[k] as nat, BOARD_RIGHT@[k]),
            ) == BOARD_WIDTHS@[k],
{
    let ghost cs = cells@.map_values(|c: String| c@);
    let n: usize = if cells.len() < 11 {
        cells.len()
    } else {
        11
    };
    let sp = char_width(' ');
    let mut out = String::from_str(" ");
    proof {
        assert(out@ == seq![' ']) by {
            reveal_strlit(" ");
        }
        lemma_width_single(' ');
    }
    for k in 0..n
        invariant
            n == min_len(cells@.len(), 11),
            n <= 11,
            cs == cells@.map_values(|c: String| c@),
            cw(' ') == 1,
            out@ == board_text(cs, k as nat),
            width_of(out@) == board_span(k as nat),
            forall|j: int|
                0 <= j < k ==> width_of(
                    #[trigger] spec_cell(cells@[j]@, BOARD_WIDTHS@[j] as nat, BOARD_RIGHT@[j]),
                ) == BOARD_WIDTHS@[j],
    {
        let cell = board_cell(cells[k].as_str(), BOARD_WIDTHS[k], BOARD_RIGHT[k]);
        let ghost before = out@;
        out.append(cell.as_str());
        push_char(&mut out, ' ');
        proof {
            assert(cs[k as int] == cells@[k as int]@);
            lemma_width_concat(before, cell@);
            lemma_width_concat(before + cell@, seq![' ']);
            lemma_width_single(' ');
            assert(out@ =~= before + cell@ + seq![' ']);
        }
    }
    out
}

/// The smaller of two lengths.
pub open spec fn min_len(a: nat, b: nat) -> nat {
    if a < b {
        a
    } else {
        b
    }
}

/// Digits grouped by three from the right, with commas between groups.
pub open spec fn grouped(d: Seq<char>) -> Seq<char>
    decreases d.len(),
{
    if d.len() <= 3 {
        d
    } else {
        grouped(d.take(d.len() - 3)) + seq![','] + d.skip(d.len() - 3)
    }
}

/// A number as the board shows it: thousands separated by commas; a
/// negative number plainly (`-` and its digits).
pub open spec fn spec_fmt_num(n: i32) -> Seq<char> {
    if n < 0 {
        seq!['-'] + decimal((-n) as nat)
    } else {
        grouped(decimal(n as nat))
    }
}

/// `grouped` of the first `end` characters of `d`.
fn group_digits(d: &Vec<char>, end: usize) -> (s: String)
    requires
        end <= d.len(),
    ensures
        s@ == grouped(d@.take(end as int)),
    decreases end,
{
    if end <= 3 {
        let s = string_of(d, 0, end);
        proof {
            assert(d@.subrange(0, end as int) =~= d@.take(end as int));
        }
        return s;
    }
    let mut s = group_digits(d, end - 3);
    push_char(&mut s, ',');
    let tail = string_of(d, end - 3, end);
    s.append(tail.as_str());
    proof {
        let t = d@.take(end as int);
        assert(t.take(t.len() - 3) =~= d@.take(end - 3));
        assert(t.skip(t.len() - 3) =~= d@.subrange(end - 3, end as int));
    }
    s
}

/// A number with thousands separated by commas (`1,234`); negative numbers
/// are written plainly.
pub fn fmt_num(n: i32) -> (s: String)
    ensures
        s@ == spec_fmt_num(n),
{
    if n < 0 {
        let m: u64 = (-(n as i64)) as u64;
        let digits = decimal_string(m);
        let mut s = String::new();
        push_char(&mut s, '-');
        s.append(digits.as_str());
        proof {
            assert(s@ =~= seq!['-'] + decimal((-n) as nat));
        }
        s
    } else {
        let digits = decimal_string(n as u64);
        let d = chars_of(digits.as_str());
        let s = group_digits(&d, d.len());
        proof {
            assert(d@.take(d@.len() as int) =~= d@);
        }
        s
    }
}

} // verus!
