//! The character-level layout model: padding, joining, border and data
//! lines, together with the verified string builders that realize it.

use vstd::prelude::*;
use vstd::string::*;

verus! {

/// `n` copies of the character `c`.
pub open spec fn sp_repeat(c: char, n: nat) -> Seq<char> {
    Seq::new(n, |i: int| c)
}

/// `s` left-justified in a field of `w` characters: shorter values are
/// filled with spaces on the right, longer values are kept whole.
pub open spec fn sp_pad(s: Seq<char>, w: nat) -> Seq<char> {
    if s.len() >= w {
        s
    } else {
        s + sp_repeat(' ', (w - s.len()) as nat)
    }
}

/// The parts concatenated with `sep` between adjacent parts.
pub open spec fn sp_join(parts: Seq<Seq<char>>, sep: Seq<char>) -> Seq<char>
    decreases parts.len(),
{
    if parts.len() == 0 {
        Seq::empty()
    } else if parts.len() == 1 {
        parts[0]
    } else {
        sp_join(parts.drop_last(), sep) + sep + parts.last()
    }
}

/// The views of a sequence of strings.
pub open spec fn views(ss: Seq<String>) -> Seq<Seq<char>> {
    ss.map_values(|s: String| s@)
}

/// Column widths as mathematical integers.
pub open spec fn nat_widths(w: Seq<usize>) -> Seq<nat> {
    w.map_values(|x: usize| x as nat)
}

/// The dash runs of a border line, one per column, `w[i] + 2` dashes each.
pub open spec fn border_parts(w: Seq<nat>) -> Seq<Seq<char>> {
    Seq::new(w.len(), |i: int| sp_repeat('-', (w[i] + 2) as nat))
}

/// A horizontal border: `+`, then per column `w[i] + 2` dashes, with one
/// `+` shared between adjacent columns and one closing `+`.
pub open spec fn border_line(w: Seq<nat>) -> Seq<char> {
    seq!['+'] + sp_join(border_parts(w), seq!['+']) + seq!['+']
}

/// The cells of one line, each padded to its column width.
pub open spec fn padded_cells(cells: Seq<Seq<char>>, w: Seq<nat>) -> Seq<Seq<char>> {
    Seq::new(cells.len(), |i: int| sp_pad(cells[i], w[i]))
}

/// A header or data line: `| `, the cells each padded to its column width
/// and joined by ` | `, then ` |`.
pub open spec fn data_line(cells: Seq<Seq<char>>, w: Seq<nat>) -> Seq<char> {
    seq!['|', ' '] + sp_join(padded_cells(cells, w), seq![' ', '|', ' ']) + seq![' ', '|']
}

/// Joining after appending one part extends the join by one separator and
/// that part.
pub proof fn lemma_sp_join_push(parts: Seq<Seq<char>>, sep: Seq<char>, x: Seq<char>)
    ensures
        sp_join(parts.push(x), sep) == if parts.len() == 0 {
            x
        } else {
            (sp_join(parts, sep) + sep + x)
        },
{
    assert(parts.push(x).drop_last() =~= parts);
    assert(parts.push(x).last() == x);
    if parts.len() == 0 {
        assert(sp_join(parts.push(x), sep) == parts.push(x)[0]);
    }
}

/// The sum of the lengths of the parts.
pub open spec fn sum_lens(parts: Seq<Seq<char>>) -> nat
    decreases parts.len(),
{
    if parts.len() == 0 {
        0
    } else {
        sum_lens(parts.drop_last()) + parts.last().len()
    }
}

/// The sum of the widths.
pub open spec fn sum_widths(w: Seq<nat>) -> nat
    decreases w.len(),
{
    if w.len() == 0 {
        0
    } else {
        sum_widths(w.drop_last()) + w.last()
    }
}

pub proof fn lemma_sp_join_len(parts: Seq<Seq<char>>, sep: Seq<char>)
    requires
        parts.len() >= 1,
    ensures
        sp_join(parts, sep).len() == sum_lens(parts) + (parts.len() - 1) * sep.len(),
    decreases parts.len(),
{
    if parts.len() == 1 {
        assert(sum_lens(parts) == sum_lens(parts.drop_last()) + parts.last().len());
        assert(parts[0] == parts.last());
    } else {
        lemma_sp_join_len(parts.drop_last(), sep);
        assert((parts.len() - 2) * sep.len() + sep.len() == (parts.len() - 1) * sep.len())
            by (nonlinear_arith);
    }
}

/// A border line over at least one column is one character longer than
/// the column widths plus three characters per column.
pub proof fn lemma_border_line_len(w: Seq<nat>)
    requires
        w.len() >= 1,
    ensures
        border_line(w).len() == sum_widths(w) + 3 * w.len() + 1,
    decreases w.len(),
{
    let parts = border_parts(w);
    lemma_sp_join_len(parts, seq!['+']);
    lemma_sum_lens_border_parts(w);
    assert(seq!['+'].len() == 1);
    assert(border_line(w).len() == 1 + sp_join(parts, seq!['+']).len() + 1);
    assert(sp_join(parts, seq!['+']).len() == sum_lens(parts) + (parts.len() - 1) * 1);
    assert((parts.len() - 1) * 1 == parts.len() - 1);
}

proof fn lemma_sum_lens_border_parts(w: Seq<nat>)
    ensures
        sum_lens(border_parts(w)) == sum_widths(w) + 2 * w.len(),
    decreases w.len(),
{
    let parts = border_parts(w);
    if w.len() > 0 {
        lemma_sum_lens_border_parts(w.drop_last());
        assert(parts.drop_last() =~= border_parts(w.drop_last()));
        assert(parts.last().len() == w.last() + 2);
    }
}

/// A data line whose cells all fit their column widths has the same
/// length as the border line over those widths.
pub proof fn lemma_data_line_len(cells: Seq<Seq<char>>, w: Seq<nat>)
    requires
        cells.len() == w.len(),
        w.len() >= 1,
        forall|i: int| 0 <= i < cells.len() ==> (#[trigger] cells[i]).len() <= w[i],
    ensures
        data_line(cells, w).len() == sum_widths(w) + 3 * w.len() + 1,
{
    let parts = padded_cells(cells, w);
    lemma_sp_join_len(parts, seq![' ', '|', ' ']);
    lemma_sum_lens_padded(cells, w);
    assert(seq![' ', '|', ' '].len() == 3);
    assert(data_line(cells, w).len() == 2 + sp_join(parts, seq![' ', '|', ' ']).len() + 2);
    assert(sp_join(parts, seq![' ', '|', ' ']).len() == sum_lens(parts) + (parts.len() - 1) * 3);
    assert((parts.len() - 1) * 3 == 3 * parts.len() - 3);
}

proof fn lemma_sum_lens_padded(cells: Seq<Seq<char>>, w: Seq<nat>)
    requires
        cells.len() == w.len(),
        forall|i: int| 0 <= i < cells.len() ==> (#[trigger] cells[i]).len() <= w[i],
    ensures
        sum_lens(padded_cells(cells, w)) == sum_widths(w),
    decreases w.len(),
{
    let parts = padded_cells(cells, w);
    if w.len() > 0 {
        lemma_sum_lens_padded(cells.drop_last(), w.drop_last());
        assert(parts.drop_last() =~= padded_cells(cells.drop_last(), w.drop_last()));
        assert(cells[cells.len() - 1].len() <= w[w.len() - 1]);
        assert(parts.last().len() == w.last());
    }
}

/// Appending a string appends its view.
pub proof fn lemma_views_push(ss: Seq<String>, s: String)
    ensures
        views(ss.push(s)) == views(ss).push(s@),
{
    assert(views(ss.push(s)) =~= views(ss).push(s@));
}

/// Append `n` copies of a one-character piece.
pub(crate) fn append_copies(out: &mut String, piece: &str, n: usize)
    requires
        piece@.len() == 1,
    ensures
        final(out)@ == old(out)@ + sp_repeat(piece@[0], n as nat),
{
    let mut k: usize = 0;
    proof {
        assert(out@ =~= old(out)@ + sp_repeat(piece@[0], 0));
    }
    while k < n
        invariant
            k <= n,
            piece@.len() == 1,
            out@ == old(out)@ + sp_repeat(piece@[0], k as nat),
        decreases n - k,
    {
        out.append(piece);
        proof {
            assert(sp_repeat(piece@[0], (k + 1) as nat) =~= sp_repeat(piece@[0], k as nat)
                + piece@);
        }
        k = k + 1;
    }
}

/// Append `cell` left-justified in a field of `width` characters.
pub(crate) fn append_padded(out: &mut String, cell: &str, width: usize)
    ensures
        final(out)@ == old(out)@ + sp_pad(cell@, width as nat),
{
    proof {
        reveal_strlit(" ");
    }
    out.append(cell);
    let len: usize = cell.unicode_len();
    if len < width {
        append_copies(out, " ", width - len);
        proof {
            assert(sp_pad(cell@, width as nat) =~= cell@ + sp_repeat(
                ' ',
                (width - cell@.len()) as nat,
            ));
        }
    }
}

/// Build one border line for the given column widths.
pub(crate) fn border_line_string(widths: &Vec<usize>) -> (r: String)
    ensures
        r@ == border_line(nat_widths(widths@)),
{
    proof {
        reveal_strlit("+");
        reveal_strlit("-");
        reveal_strlit("--");
    }
    let ghost w = nat_widths(widths@);
    let ghost parts = Seq::new(w.len(), |i: int| sp_repeat('-', (w[i] + 2) as nat));
    let mut out = String::from_str("+");
    proof {
        assert("+"@ =~= seq!['+']);
        assert(out@ =~= seq!['+'] + sp_join(parts.take(0), seq!['+']));
    }
    let mut i: usize = 0;
    while i < widths.len()
        invariant
            i <= widths.len(),
            w == nat_widths(widths@),
            parts == Seq::new(w.len(), |j: int| sp_repeat('-', (w[j] + 2) as nat)),
            w.len() == widths@.len(),
            out@ == seq!['+'] + sp_join(parts.take(i as int), seq!['+']),
        decreases widths.len() - i,
    {
        if i > 0 {
            out.append("+");
        }
        proof {
            reveal_strlit("-");
        }
        append_copies(&mut out, "-", widths[i]);
        out.append("--");
        proof {
            reveal_strlit("+");
            reveal_strlit("-");
            reveal_strlit("--");
            assert("--"@ =~= seq!['-', '-']);
            assert(sp_repeat('-', (w[i as int] + 2) as nat) =~= sp_repeat('-', widths@[i as int] as nat)
                + seq!['-', '-']);
            assert(parts.take(i + 1) =~= parts.take(i as int).push(parts[i as int]));
            lemma_sp_join_push(parts.take(i as int), seq!['+'], parts[i as int]);
            assert(out@ =~= seq!['+'] + sp_join(parts.take(i + 1), seq!['+']));
        }
        i = i + 1;
    }
    out.append("+");
    proof {
        assert(parts.take(widths@.len() as int) =~= parts);
        assert(out@ =~= border_line(w));
    }
    out
}

/// Build one header or data line: the cells padded to the column widths.
pub(crate) fn data_line_string(cells: &Vec<String>, widths: &Vec<usize>) -> (r: String)
    requires
        cells@.len() == widths@.len(),
    ensures
        r@ == data_line(views(cells@), nat_widths(widths@)),
{
    proof {
        reveal_strlit("| ");
        reveal_strlit(" | ");
        reveal_strlit(" |");
    }
    let ghost w = nat_widths(widths@);
    let ghost cs = views(cells@);
    let ghost parts = Seq::new(cs.len(), |i: int| sp_pad(cs[i], w[i]));
    let mut out = String::from_str("| ");
    proof {
        assert("| "@ =~= seq!['|', ' ']);
        assert(out@ =~= seq!['|', ' '] + sp_join(parts.take(0), seq![' ', '|', ' ']));
    }
    let mut i: usize = 0;
    while i < cells.len()
        invariant
            i <= cells.len(),
            cells@.len() == widths@.len(),
            w == nat_widths(widths@),
            cs == views(cells@),
            parts == Seq::new(cs.len(), |j: int| sp_pad(cs[j], w[j])),
            out@ == seq!['|', ' '] + sp_join(parts.take(i as int), seq![' ', '|', ' ']),
        decreases cells.len() - i,
    {
        if i > 0 {
            out.append(" | ");
        }
        append_padded(&mut out, cells[i].as_str(), widths[i]);
        proof {
            reveal_strlit(" | ");
            assert(" | "@ =~= seq![' ', '|', ' ']);
            assert(parts[i as int] == sp_pad(cells@[i as int]@, widths@[i as int] as nat));
            assert(parts.take(i + 1) =~= parts.take(i as int).push(parts[i as int]));
            lemma_sp_join_push(parts.take(i as int), seq![' ', '|', ' '], parts[i as int]);
            assert(out@ =~= seq!['|', ' '] + sp_join(parts.take(i + 1), seq![' ', '|', ' ']));
        }
        i = i + 1;
    }
    out.append(" |");
    proof {
        assert(" |"@ =~= seq![' ', '|']);
        assert(parts.take(cs.len() as int) =~= parts);
        assert(out@ =~= data_line(cs, w));
    }
    out
}

} // verus!
