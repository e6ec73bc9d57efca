//! Fixed-width columns: padding and truncating a value to a column width.

use vstd::prelude::*;
use vstd::string::*;

verus! {

/// A run of `n` space characters.
pub open spec fn spaces(n: nat) -> Seq<char> {
    Seq::new(n, |i: int| ' ')
}

/// The value `s` fitted into a column of exactly `width` characters: cut
/// after `width` characters when it is at least that long, otherwise
/// followed by as many spaces as are missing.
pub open spec fn pad_to_width(s: Seq<char>, width: nat) -> Seq<char> {
    if s.len() >= width {
        s.take(width as int)
    } else {
        s + spaces((width - s.len()) as nat)
    }
}

/// Fits `s` into a column of `width` characters, left-justified.
pub fn pad_right(s: &str, width: usize) -> (out: String)
    ensures
        out@ == pad_to_width(s@, width as nat),
        out@.len() == width,
{
    let n: usize = s.unicode_len();
    if n >= width {
        s.substring_char(0, width).to_owned()
    } else {
        let mut out = s.to_owned();
        let mut i: usize = n;
        while i < width
            invariant
                n <= i <= width,
                n == s@.len(),
                out@ == s@ + spaces((i - n) as nat),
            decreases width - i,
        {
            out.append(" ");
            i += 1;
            proof {
                reveal_strlit(" ");
                assert(out@ =~= s@ + spaces((i - n) as nat));
            }
        }
        out
    }
}

/// How many fields a record has, and so how many columns a line.
pub const FIELD_COUNT: usize = 6;

/// The record layout: for each field, in order, the width of its content
/// and the width of the filler that follows it.
pub const FIELD_WIDTHS: [(usize, usize); FIELD_COUNT] = [
    (25, 5),
    (15, 5),
    (30, 5),
    (15, 5),
    (3, 5),
    (10, 38),
];

/// The length of every line laid out by `FIELD_WIDTHS`.
pub const LINE_WIDTH: usize = 161;

/// A layout as a sequence of pairs of content width and filler width.
pub open spec fn layout_of(widths: Seq<(usize, usize)>) -> Seq<(nat, nat)> {
    Seq::new(widths.len(), |i: int| (widths[i].0 as nat, widths[i].1 as nat))
}

/// The layout that `FIELD_WIDTHS` holds.
pub open spec fn standard_layout() -> Seq<(nat, nat)> {
    seq![(25, 5), (15, 5), (30, 5), (15, 5), (3, 5), (10, 38)]
}

/// One column: the value fitted to the content width, then the filler.
pub open spec fn column(value: Seq<char>, width: (nat, nat)) -> Seq<char> {
    pad_to_width(value, width.0) + spaces(width.1)
}

/// The line that `fields` make under `layout`: the columns of the fields,
/// one after the other in the layout's order, and nothing else.
pub open spec fn format_fields(fields: Seq<Seq<char>>, layout: Seq<(nat, nat)>) -> Seq<char>
    recommends
        fields.len() == layout.len(),
    decreases layout.len(),
{
    if layout.len() == 0 {
        Seq::empty()
    } else {
        column(fields.first(), layout.first()) + format_fields(
            fields.drop_first(),
            layout.drop_first(),
        )
    }
}

/// The length of a line under `layout`: all content and filler widths added.
pub open spec fn line_width(layout: Seq<(nat, nat)>) -> nat
    decreases layout.len(),
{
    if layout.len() == 0 {
        0
    } else {
        layout.first().0 + layout.first().1 + line_width(layout.drop_first())
    }
}

/// A fitted value has exactly the width asked for, whatever its length was.
pub proof fn lemma_pad_to_width_len(s: Seq<char>, width: nat)
    ensures
        pad_to_width(s, width).len() == width,
{
}

/// Fitting a value that is at least as long as the width cuts it: what is
/// left are its first `width` characters.
pub proof fn lemma_pad_to_width_truncates(s: Seq<char>, width: nat)
    requires
        s.len() >= width,
    ensures
        pad_to_width(s, width) == s.take(width as int),
        forall|i: int| 0 <= i < width ==> pad_to_width(s, width)[i] == s[i],
{
}

/// Fitting a value that is shorter than the width keeps it whole and fills
/// the column up with spaces.
pub proof fn lemma_pad_to_width_fills(s: Seq<char>, width: nat)
    requires
        s.len() < width,
    ensures
        pad_to_width(s, width).take(s.len() as int) == s,
        forall|i: int| s.len() <= i < width ==> pad_to_width(s, width)[i] == ' ',
{
    assert(pad_to_width(s, width).take(s.len() as int) =~= s);
}

/// Fitting is idempotent: a value already fitted to a width is left as it
/// is by fitting it to that width again.
pub proof fn lemma_pad_to_width_idempotent(s: Seq<char>, width: nat)
    ensures
        pad_to_width(pad_to_width(s, width), width) == pad_to_width(s, width),
{
    let once = pad_to_width(s, width);
    assert(once.take(width as int) =~= once);
}

/// A line has the length that its layout gives it, whatever the fields
/// hold: the sum of all content and filler widths.
pub proof fn lemma_format_fields_len(fields: Seq<Seq<char>>, layout: Seq<(nat, nat)>)
    ensures
        format_fields(fields, layout).len() == line_width(layout),
    decreases layout.len(),
{
    if layout.len() > 0 {
        lemma_format_fields_len(fields.drop_first(), layout.drop_first());
    }
}

/// The standard layout makes lines of 161 characters.
pub proof fn lemma_standard_line_width()
    ensures
        line_width(standard_layout()) == LINE_WIDTH,
        LINE_WIDTH == 161,
{
    reveal_with_fuel(line_width, 7);
}

} // verus!
