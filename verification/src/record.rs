//! Address records: parsing one from a comma-delimited line and laying one
//! out as a fixed-width line.

use vstd::prelude::*;
use vstd::string::*;
use crate::layout::{
    column, format_fields, layout_of, lemma_format_fields_len, lemma_standard_line_width,
    line_width, pad_right, spaces, standard_layout, FIELD_COUNT, FIELD_WIDTHS, LINE_WIDTH,
};
use crate::text::{split_on, split_on_char, trim, trim_whitespace};

verus! {

/// One address, as six fields of text.
#[derive(Debug, PartialEq, Eq)]
pub struct AddressRecord {
    pub last_name: String,
    pub first_name: String,
    pub street: String,
    pub city: String,
    pub state: String,
    pub zip: String,
}

impl View for AddressRecord {
    type V = Seq<Seq<char>>;

    /// The six fields in the order of the columns.
    open spec fn view(&self) -> Seq<Seq<char>> {
        seq![
            self.last_name@,
            self.first_name@,
            self.street@,
            self.city@,
            self.state@,
            self.zip@,
        ]
    }
}

impl Clone for AddressRecord {
    fn clone(&self) -> (copy: Self)
        ensures
            copy == *self,
    {
        AddressRecord {
            last_name: self.last_name.clone(),
            first_name: self.first_name.clone(),
            street: self.street.clone(),
            city: self.city.clone(),
            state: self.state.clone(),
            zip: self.zip.clone(),
        }
    }
}

/// The fields that a line holds: its comma-separated parts, each without
/// the white space around it.
pub open spec fn parsed_fields(line: Seq<char>) -> Seq<Seq<char>> {
    split_on(line, ',').map_values(|part: Seq<char>| trim(part))
}

/// Whether a line holds a record: exactly six comma-separated parts.
pub open spec fn has_six_fields(line: Seq<char>) -> bool {
    split_on(line, ',').len() == 6
}

/// The fixed-width line that the record of `line` makes.
pub open spec fn record_line(line: Seq<char>) -> Seq<char> {
    format_fields(parsed_fields(line), standard_layout())
}

/// Reads a record from a comma-delimited line. A line is split at every
/// comma; there is no quoting. A line of six parts gives the record of its
/// trimmed parts, any other line gives nothing.
pub fn parse_csv_line(line: &str) -> (parsed: Option<AddressRecord>)
    ensures
        parsed is Some <==> has_six_fields(line@),
        parsed matches Some(record) ==> record@ == parsed_fields(line@),
{
    let fields = split_on_char(line, ',');
    if fields.len() != FIELD_COUNT {
        return None;
    }
    let record = AddressRecord {
        last_name: trim_whitespace(fields[0]).to_owned(),
        first_name: trim_whitespace(fields[1]).to_owned(),
        street: trim_whitespace(fields[2]).to_owned(),
        city: trim_whitespace(fields[3]).to_owned(),
        state: trim_whitespace(fields[4]).to_owned(),
        zip: trim_whitespace(fields[5]).to_owned(),
    };
    assert(record@ =~= parsed_fields(line@));
    Some(record)
}

/// Lays a record out under a layout of six columns: each field fitted to
/// its content width and followed by its filler, in the layout's order,
/// without a line terminator.
pub fn format_record(
    record: &AddressRecord,
    layout: &[(usize, usize); FIELD_COUNT],
) -> (line: String)
    ensures
        line@ == format_fields(record@, layout_of(layout@)),
        line@.len() == line_width(layout_of(layout@)),
{
    let fields = [
        &record.last_name,
        &record.first_name,
        &record.street,
        &record.city,
        &record.state,
        &record.zip,
    ];
    let ghost values = record@;
    let ghost widths = layout_of(layout@);
    let mut line = String::new();
    let mut k: usize = 0;
    proof {
        assert(values.skip(0) =~= values);
        assert(widths.skip(0) =~= widths);
        assert(line@ + format_fields(values, widths) =~= format_fields(values, widths));
    }
    while k < FIELD_COUNT
        invariant
            k <= FIELD_COUNT,
            values == record@,
            values.len() == 6,
            widths == layout_of(layout@),
            widths.len() == 6,
            forall|j: int| 0 <= j < 6 ==> (#[trigger] fields@[j])@ == values[j],
            line@ + format_fields(values.skip(k as int), widths.skip(k as int)) == format_fields(
                values,
                widths,
            ),
        decreases FIELD_COUNT - k,
    {
        let (content_width, filler_width) = layout[k];
        let content = pad_right(fields[k].as_str(), content_width);
        let filler = pad_right("", filler_width);
        proof {
            reveal_strlit("");
            let v = values.skip(k as int);
            let w = widths.skip(k as int);
            assert(v.first() == fields@[k as int]@);
            assert(w.first() == (content_width as nat, filler_width as nat));
            assert(v.drop_first() =~= values.skip(k + 1));
            assert(w.drop_first() =~= widths.skip(k + 1));
            assert(filler@ =~= spaces(filler_width as nat));
            assert(content@ + filler@ == column(v.first(), w.first()));
            assert(line@ + content@ + filler@ + format_fields(v.drop_first(), w.drop_first())
                =~= line@ + (column(v.first(), w.first()) + format_fields(
                v.drop_first(),
                w.drop_first(),
            )));
        }
        line.append(content.as_str());
        line.append(filler.as_str());
        k += 1;
    }
    proof {
        assert(line@ + format_fields(values.skip(6), widths.skip(6)) =~= line@);
        lemma_format_fields_len(values, widths);
    }
    line
}

/// Lays a record out as a line of the standard layout.
pub fn format_fixed_width(record: &AddressRecord) -> (line: String)
    ensures
        line@ == format_fields(record@, standard_layout()),
        line@.len() == LINE_WIDTH,
{
    let line = format_record(record, &FIELD_WIDTHS);
    proof {
        assert(layout_of(FIELD_WIDTHS@) =~= standard_layout());
        lemma_standard_line_width();
    }
    line
}

/// Every line of six fields makes a fixed-width line of exactly 161
/// characters, whatever its fields hold.
pub proof fn lemma_record_line_width(line: Seq<char>)
    requires
        has_six_fields(line),
    ensures
        record_line(line).len() == 161,
        record_line(line).len() == LINE_WIDTH,
{
    lemma_format_fields_len(parsed_fields(line), standard_layout());
    lemma_standard_line_width();
}

} // verus!
