//! The big-digit clock face: each digit and the colon drawn as a bitmap of
//! seven rows, the glyphs of a time side by side two columns apart.
use vstd::prelude::*;
use crate::text::push_char;

verus! {

/// How many rows a glyph has.
pub const GLYPH_ROWS: usize = 7;

/// How many columns the glyph of `ch` has: three for the colon, seven for
/// everything else.
pub open spec fn glyph_width(ch: char) -> nat {
    if ch == ':' {
        3
    } else {
        7
    }
}

/// The rows of the glyph of `ch`, one bit per column, the leftmost column in
/// the highest of `glyph_width(ch)` bits. Characters other than digits and
/// the colon are drawn as `0`.
pub open spec fn glyph_masks(ch: char) -> Seq<u8> {
    if ch == '1' {
        seq![0x0C, 0x3C, 0x0C, 0x0C, 0x0C, 0x0C, 0x3F]
    } else if ch == '2' {
        seq![0x3E, 0x63, 0x06, 0x1C, 0x30, 0x60, 0x7F]
    } else if ch == '3' {
        seq![0x3E, 0x63, 0x06, 0x1C, 0x06, 0x63, 0x3E]
    } else if ch == '4' {
        seq![0x63, 0x63, 0x63, 0x7F, 0x03, 0x03, 0x03]
    } else if ch == '5' {
        seq![0x7F, 0x60, 0x7C, 0x06, 0x06, 0x66, 0x3C]
    } else if ch == '6' {
        seq![0x3E, 0x60, 0x7C, 0x66, 0x63, 0x63, 0x3E]
    } else if ch == '7' {
        seq![0x7F, 0x06, 0x0C, 0x18, 0x30, 0x30, 0x30]
    } else if ch == '8' {
        seq![0x3E, 0x63, 0x63, 0x3E, 0x63, 0x63, 0x3E]
    } else if ch == '9' {
        seq![0x3E, 0x63, 0x63, 0x3F, 0x03, 0x06, 0x3E]
    } else if ch == ':' {
        seq![0x0, 0x6, 0x6, 0x0, 0x6, 0x6, 0x0]
    } else {
        seq![0x3E, 0x63, 0x63, 0x63, 0x63, 0x63, 0x3E]
    }
}

/// The character of column `col` of a row `mask` that is `width` columns
/// wide: a full block where the bit is set, a space where it is not.
pub open spec fn pixel(mask: u8, width: nat, col: int) -> char {
    if (mask >> ((width - 1 - col) as u8)) & 1 == 1 {
        '█'
    } else {
        ' '
    }
}

/// Row `row` of the glyph of `ch`, as text.
pub open spec fn glyph_row(ch: char, row: int) -> Seq<char> {
    Seq::new(glyph_width(ch), |col: int| pixel(glyph_masks(ch)[row], glyph_width(ch), col))
}

/// Row `row` of the clock face for the characters `cs`: their glyph rows,
/// two spaces apart.
pub open spec fn clock_row(cs: Seq<char>, row: int) -> Seq<char>
    decreases cs.len(),
{
    if cs.len() == 0 {
        Seq::empty()
    } else if cs.len() == 1 {
        glyph_row(cs[0], row)
    } else {
        clock_row(cs.drop_last(), row) + seq![' ', ' '] + glyph_row(cs.last(), row)
    }
}

/// The glyph of `ch`: its row bitmaps and its width.
fn glyph(ch: char) -> (g: ([u8; 7], u8))
    ensures
        g.0@ == glyph_masks(ch),
        g.1 == glyph_width(ch),
{
    if ch == '1' {
        ([0x0C, 0x3C, 0x0C, 0x0C, 0x0C, 0x0C, 0x3F], 7)
    } else if ch == '2' {
        ([0x3E, 0x63, 0x06, 0x1C, 0x30, 0x60, 0x7F], 7)
    } else if ch == '3' {
        ([0x3E, 0x63, 0x06, 0x1C, 0x06, 0x63, 0x3E], 7)
    } else if ch == '4' {
        ([0x63, 0x63, 0x63, 0x7F, 0x03, 0x03, 0x03], 7)
    } else if ch == '5' {
        ([0x7F, 0x60, 0x7C, 0x06, 0x06, 0x66, 0x3C], 7)
    } else if ch == '6' {
        ([0x3E, 0x60, 0x7C, 0x66, 0x63, 0x63, 0x3E], 7)
    } else if ch == '7' {
        ([0x7F, 0x06, 0x0C, 0x18, 0x30, 0x30, 0x30], 7)
    } else if ch == '8' {
        ([0x3E, 0x63, 0x63, 0x3E, 0x63, 0x63, 0x3E], 7)
    } else if ch == '9' {
        ([0x3E, 0x63, 0x63, 0x3F, 0x03, 0x06, 0x3E], 7)
    } else if ch == ':' {
        ([0x0, 0x6, 0x6, 0x0, 0x6, 0x6, 0x0], 3)
    } else {
        ([0x3E, 0x63, 0x63, 0x63, 0x63, 0x63, 0x3E], 7)
    }
}

/// Appends one glyph row, `width` columns of `mask`, to `line`.
fn push_glyph_row(line: &mut String, mask: u8, width: u8)
    requires
        1 <= width <= 8,
    ensures
        final(line)@ == old(line)@ + Seq::new(width as nat, |col: int| pixel(mask, width as nat, col)),
{
    let ghost start = line@;
    let mut col: u8 = 0;
    while col < width
        invariant
            col <= width <= 8,
            line@ == start + Seq::new(col as nat, |c: int| pixel(mask, width as nat, c)),
        decreases width - col,
    {
        let shift: u8 = width - 1 - col;
        let c = if (mask >> shift) & 1 == 1 {
            '█'
        } else {
            ' '
        };
        push_char(line, c);
        assert(Seq::new((col + 1) as nat, |c: int| pixel(mask, width as nat, c)) =~= Seq::new(
            col as nat,
            |c: int| pixel(mask, width as nat, c),
        ).push(pixel(mask, width as nat, col as int)));
        col = col + 1;
    }
}

/// The clock face for `value`, row by row: the glyph of each character, two
/// columns apart.
pub fn render_big_clock(value: &str) -> (lines: Vec<String>)
    ensures
        lines@.len() == GLYPH_ROWS,
        forall|row: int| 0 <= row < GLYPH_ROWS ==> #[trigger] lines@[row]@ == clock_row(value@, row),
        forall|row: int, k: int|
            0 <= row < GLYPH_ROWS && 0 <= k < value@.len() ==> #[trigger] lines@[row]@.subrange(
                glyph_offset(value@, k),
                glyph_offset(value@, k) + glyph_width(value@[k]),
            ) == glyph_row(value@[k], row),
{
    let mut lines: Vec<String> = Vec::new();
    let mut r: usize = 0;
    while r < GLYPH_ROWS
        invariant
            r <= GLYPH_ROWS,
            lines@.len() == r,
            forall|row: int| 0 <= row < r ==> (#[trigger] lines@[row])@ == Seq::<char>::empty(),
        decreases GLYPH_ROWS - r,
    {
        lines.push(String::new());
        r = r + 1;
    }
    let n = value.unicode_len();
    let mut i: usize = 0;
    while i < n
        invariant
            n == value@.len(),
            i <= n,
            lines@.len() == GLYPH_ROWS,
            forall|row: int|
                0 <= row < GLYPH_ROWS ==> (#[trigger] lines@[row])@ == clock_row(
                    value@.take(i as int),
                    row,
                ),
        decreases n - i,
    {
        let ch = value.get_char(i);
        let (masks, width) = glyph(ch);
        assert(value@.take(i + 1).drop_last() == value@.take(i as int));
        assert(value@.take(i + 1).last() == ch);
        let mut row: usize = 0;
        while row < GLYPH_ROWS
            invariant
                n == value@.len(),
                i < n,
                ch == value@[i as int],
                masks@ == glyph_masks(ch),
                width == glyph_width(ch),
                value@.take(i + 1).drop_last() == value@.take(i as int),
                value@.take(i + 1).last() == ch,
                row <= GLYPH_ROWS,
                lines@.len() == GLYPH_ROWS,
                forall|k: int|
                    0 <= k < row ==> (#[trigger] lines@[k])@ == clock_row(
                        value@.take(i + 1),
                        k,
                    ),
                forall|k: int|
                    row <= k < GLYPH_ROWS ==> (#[trigger] lines@[k])@ == clock_row(
                        value@.take(i as int),
                        k,
                    ),
            decreases GLYPH_ROWS - row,
        {
            let mut line = lines[row].clone();
            if i > 0 {
                line.append("  ");
            }
            push_glyph_row(&mut line, masks[row], width);
            proof {
                let prev = value@.take(i as int);
                assert(Seq::new(width as nat, |col: int| pixel(masks@[row as int], width as nat, col))
                    == glyph_row(ch, row as int));
                if i > 0 {
                    reveal_strlit("  ");
                    assert("  "@ == seq![' ', ' ']);
                    assert(clock_row(value@.take(i + 1), row as int) == clock_row(prev, row as int)
                        + seq![' ', ' '] + glyph_row(ch, row as int));
                } else {
                    assert(prev.len() == 0);
                    assert(clock_row(prev, row as int) =~= Seq::<char>::empty());
                    assert(line@ =~= glyph_row(ch, row as int));
                }
            }
            lines.set(row, line);
            row = row + 1;
        }
        i = i + 1;
    }
    assert(value@.take(n as int) == value@);
    proof {
        if n > 0 {
            assert forall|row: int, k: int|
                0 <= row < GLYPH_ROWS && 0 <= k < value@.len() implies #[trigger] lines@[row]@.subrange(
                glyph_offset(value@, k),
                glyph_offset(value@, k) + glyph_width(value@[k]),
            ) == glyph_row(value@[k], row) by {
                clock_row_places_each_glyph(value@, row);
                assert(lines@[row]@ == clock_row(value@, row));
            }
        }
    }
    lines
}


/// Every glyph has seven rows; each row of one glyph is as wide as the glyph
/// (three columns for the colon, seven otherwise) and holds only spaces and
/// full blocks, so the rows of a glyph line up.
pub proof fn glyph_rows_are_uniform(ch: char, row: int)
    requires
        0 <= row < GLYPH_ROWS,
    ensures
        glyph_masks(ch).len() == GLYPH_ROWS,
        glyph_row(ch, row).len() == glyph_width(ch),
        forall|col: int|
            0 <= col < glyph_width(ch) ==> #[trigger] glyph_row(ch, row)[col] == ' '
                || glyph_row(ch, row)[col] == '█',
{
}

/// The width of the clock face for the characters `cs`: their glyph widths
/// and two columns between neighbours.
pub open spec fn clock_width(cs: Seq<char>) -> nat
    decreases cs.len(),
{
    if cs.len() == 0 {
        0
    } else if cs.len() == 1 {
        glyph_width(cs[0])
    } else {
        clock_width(cs.drop_last()) + 2 + glyph_width(cs.last())
    }
}

/// Every row of the clock face has the same width: the glyph widths of its
/// characters and two columns between neighbours. So the seven rows of
/// `render_big_clock` line up.
pub proof fn clock_rows_have_equal_width(cs: Seq<char>, row: int)
    ensures
        clock_row(cs, row).len() == clock_width(cs),
    decreases cs.len(),
{
    if cs.len() > 1 {
        clock_rows_have_equal_width(cs.drop_last(), row);
    }
}


/// The column at which the glyph of character `k` of `cs` starts: the widths
/// of the glyphs before it, and two columns after each of them.
pub open spec fn glyph_offset(cs: Seq<char>, k: int) -> int
    decreases k,
{
    if k <= 0 {
        0
    } else {
        glyph_offset(cs, k - 1) + glyph_width(cs[k - 1]) + 2
    }
}

proof fn lemma_glyph_offset_nonnegative(cs: Seq<char>, k: int)
    ensures
        glyph_offset(cs, k) >= 0,
    decreases k,
{
    if k > 0 {
        lemma_glyph_offset_nonnegative(cs, k - 1);
    }
}

proof fn lemma_glyph_offset_prefix(cs: Seq<char>, k: int)
    requires
        0 <= k < cs.len(),
    ensures
        glyph_offset(cs.drop_last(), k) == glyph_offset(cs, k),
    decreases k,
{
    if k > 0 {
        lemma_glyph_offset_prefix(cs, k - 1);
        assert(cs.drop_last()[k - 1] == cs[k - 1]);
    }
}

proof fn lemma_glyph_offset_width(cs: Seq<char>, k: int)
    requires
        1 <= k <= cs.len(),
    ensures
        glyph_offset(cs, k) == clock_width(cs.take(k)) + 2,
    decreases k,
{
    if k > 1 {
        lemma_glyph_offset_width(cs, k - 1);
        let t = cs.take(k);
        assert(t.len() == k);
        assert(t.drop_last() == cs.take(k - 1));
        assert(t.last() == cs[k - 1]);
        assert(clock_width(t) == clock_width(t.drop_last()) + 2 + glyph_width(t.last()));
    } else {
        assert(glyph_offset(cs, 0) == 0);
        assert(cs.take(1).len() == 1);
        assert(cs.take(1)[0] == cs[0]);
    }
}

/// Row `row` of the clock face holds, for every character of the text, row
/// `row` of that character's glyph, at the column where that glyph starts,
/// with two blank columns after every glyph but the last; the row ends where
/// the last glyph ends.
pub proof fn clock_row_places_each_glyph(cs: Seq<char>, row: int)
    requires
        cs.len() > 0,
    ensures
        forall|k: int|
            0 <= k < cs.len() ==> {
                &&& glyph_offset(cs, k) + glyph_width(cs[k]) <= clock_row(cs, row).len()
                &&& clock_row(cs, row).subrange(
                    #[trigger] glyph_offset(cs, k),
                    glyph_offset(cs, k) + glyph_width(cs[k]),
                ) == glyph_row(cs[k], row)
            },
        forall|k: int|
            0 <= k < cs.len() - 1 ==> clock_row(cs, row)[#[trigger] glyph_offset(cs, k)
                + glyph_width(cs[k])] == ' ' && clock_row(cs, row)[glyph_offset(cs, k)
                + glyph_width(cs[k]) + 1] == ' ',
        glyph_offset(cs, cs.len() - 1) + glyph_width(cs.last()) == clock_row(cs, row).len(),
    decreases cs.len(),
{
    let n = cs.len();
    clock_rows_have_equal_width(cs, row);
    if n == 1 {
        assert(clock_row(cs, row).subrange(0, glyph_width(cs[0]) as int) =~= glyph_row(cs[0], row));
    } else {
        let p = cs.drop_last();
        let head = clock_row(p, row);
        let g = glyph_row(cs.last(), row);
        let whole = clock_row(cs, row);
        assert(whole == head + seq![' ', ' '] + g);
        clock_row_places_each_glyph(p, row);
        clock_rows_have_equal_width(p, row);
        lemma_glyph_offset_width(cs, n - 1);
        assert(cs.take(n - 1) == p);
        let last_off = glyph_offset(cs, n - 1);
        assert(last_off == head.len() + 2);
        assert(whole.len() == head.len() + 2 + g.len());
        assert forall|i: int| 0 <= i < head.len() implies #[trigger] whole[i] == head[i] by {
            assert((head + seq![' ', ' '])[i] == head[i]);
        }
        assert(whole[head.len() as int] == ' ');
        assert(whole[head.len() as int + 1] == ' ');
        assert forall|k: int|
            0 <= k < cs.len() implies {
                &&& glyph_offset(cs, k) + glyph_width(cs[k]) <= clock_row(cs, row).len()
                &&& clock_row(cs, row).subrange(
                    #[trigger] glyph_offset(cs, k),
                    glyph_offset(cs, k) + glyph_width(cs[k]),
                ) == glyph_row(cs[k], row)
            } by {
            if k == n - 1 {
                assert(whole.subrange(last_off, last_off + glyph_width(cs[k])) =~= g);
            } else {
                lemma_glyph_offset_prefix(cs, k);
                lemma_glyph_offset_nonnegative(p, k);
                assert(p[k] == cs[k]);
                let o = glyph_offset(p, k);
                assert(o + glyph_width(p[k]) <= head.len());
                assert(whole.subrange(o, o + glyph_width(cs[k])) =~= head.subrange(
                    o,
                    o + glyph_width(p[k]),
                ));
            }
        }
        assert forall|k: int| 0 <= k < cs.len() - 1 implies clock_row(cs, row)[#[trigger] glyph_offset(
            cs,
            k,
        ) + glyph_width(cs[k])] == ' ' && clock_row(cs, row)[glyph_offset(cs, k) + glyph_width(
            cs[k],
        ) + 1] == ' ' by {
            lemma_glyph_offset_prefix(cs, k);
            lemma_glyph_offset_nonnegative(p, k);
            assert(p[k] == cs[k]);
            let o = glyph_offset(p, k);
            if k < n - 2 {
                assert(o + glyph_width(p[k]) + 1 < head.len()) by {
                    assert(glyph_offset(p, k + 1) == o + glyph_width(p[k]) + 2);
                    assert(glyph_offset(p, k + 1) + glyph_width(p[k + 1]) <= head.len());
                }
                assert(whole[o + glyph_width(p[k])] == head[o + glyph_width(p[k])]);
                assert(whole[o + glyph_width(p[k]) + 1] == head[o + glyph_width(p[k]) + 1]);
            } else {
                assert(k == n - 2);
                assert(p.last() == cs[k]);
                assert(o + glyph_width(p[k]) == head.len());
            }
        }
    }
}

} // verus!
