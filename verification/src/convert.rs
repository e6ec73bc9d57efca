//! The conversion of a text, line by line: which lines are skipped, which
//! become a fixed-width line, and which are reported.

use vstd::prelude::*;
use crate::layout::LINE_WIDTH;
use crate::record::{
    format_fixed_width, has_six_fields, lemma_record_line_width, parse_csv_line, record_line,
};
use crate::text::{is_blank, is_blank_line, is_whitespace, lemma_first_index_of_at, split_on};

verus! {

/// Whether a line holds a record: it is not blank and has six fields.
pub open spec fn is_record(line: Seq<char>) -> bool {
    !is_blank(line) && has_six_fields(line)
}

/// Whether a line is malformed: it is not blank and has not six fields.
pub open spec fn is_malformed(line: Seq<char>) -> bool {
    !is_blank(line) && !has_six_fields(line)
}

/// What one line of input calls for, as a mathematical value.
pub enum Step {
    /// Nothing: the line is blank.
    Skip,
    /// Writing this text, followed by a line terminator, to the output.
    Write(Seq<char>),
    /// A warning that the line with this number has an unexpected number
    /// of fields.
    Warn(nat),
}

/// What the line with the number `line_number` calls for.
pub open spec fn step(line: Seq<char>, line_number: nat) -> Step {
    if is_blank(line) {
        Step::Skip
    } else if has_six_fields(line) {
        Step::Write(record_line(line))
    } else {
        Step::Warn(line_number)
    }
}

/// What to do with one line of input.
#[derive(Debug, PartialEq, Eq)]
pub enum LineAction {
    /// Nothing: the line is blank.
    Skip,
    /// Write this text, followed by a line terminator, to the output.
    Write(String),
    /// Warn that the line with this number, counted from one, has an
    /// unexpected number of fields.
    Warn(u64),
}

impl View for LineAction {
    type V = Step;

    open spec fn view(&self) -> Step {
        match self {
            LineAction::Skip => Step::Skip,
            LineAction::Write(text) => Step::Write(text@),
            LineAction::Warn(line_number) => Step::Warn(*line_number as nat),
        }
    }
}

/// The progress of a conversion, as a mathematical value.
pub struct Progress {
    /// How many lines have been read.
    pub lines_read: nat,
    /// How many of them held a record.
    pub record_count: nat,
}

/// The progress after one more line.
pub open spec fn advance(progress: Progress, line: Seq<char>) -> Progress {
    Progress {
        lines_read: progress.lines_read + 1,
        record_count: if is_record(line) {
            progress.record_count + 1
        } else {
            progress.record_count
        },
    }
}

/// A conversion in progress: it takes the lines of the input one by one, in
/// order, and says for each what is to be done.
pub struct Converter {
    lines_read: u64,
    record_count: u64,
}

impl View for Converter {
    type V = Progress;

    closed spec fn view(&self) -> Progress {
        Progress { lines_read: self.lines_read as nat, record_count: self.record_count as nat }
    }
}

impl Converter {
    #[verifier::type_invariant]
    spec fn counts_agree(self) -> bool {
        self.record_count <= self.lines_read
    }

    /// A conversion that has read nothing yet.
    pub fn new() -> (converter: Converter)
        ensures
            converter@ == (Progress { lines_read: 0, record_count: 0 }),
    {
        Converter { lines_read: 0, record_count: 0 }
    }

    /// How many lines have been read.
    pub fn lines_read(&self) -> (n: u64)
        ensures
            n == self@.lines_read,
    {
        self.lines_read
    }

    /// How many of the lines read held a record.
    pub fn record_count(&self) -> (n: u64)
        ensures
            n == self@.record_count,
            n <= self@.lines_read,
    {
        proof {
            use_type_invariant(self);
        }
        self.record_count
    }

    /// Takes the next line of the input and says what it calls for. A
    /// blank line is skipped, a line of six fields is laid out for writing
    /// and counted as a record, and any other line is reported under its
    /// number, the first line being line one.
    pub fn feed(&mut self, line: &str) -> (action: LineAction)
        requires
            old(self)@.lines_read < u64::MAX,
        ensures
            final(self)@ == advance(old(self)@, line@),
            action@ == step(line@, final(self)@.lines_read),
    {
        proof {
            use_type_invariant(&*self);
        }
        self.lines_read += 1;
        if is_blank_line(line) {
            return LineAction::Skip;
        }
        match parse_csv_line(line) {
            Some(record) => {
                let text = format_fixed_width(&record);
                self.record_count += 1;
                LineAction::Write(text)
            },
            None => LineAction::Warn(self.lines_read),
        }
    }
}

/// The lines written for a text: the record line of every line that holds
/// a record, in the order of the input.
pub open spec fn output_of(lines: Seq<Seq<char>>) -> Seq<Seq<char>>
    decreases lines.len(),
{
    if lines.len() == 0 {
        Seq::empty()
    } else if is_record(lines.last()) {
        output_of(lines.drop_last()).push(record_line(lines.last()))
    } else {
        output_of(lines.drop_last())
    }
}

/// The warnings given for a text: the number of every malformed line, in
/// the order of the input, the first line being line one.
pub open spec fn warnings_of(lines: Seq<Seq<char>>) -> Seq<nat>
    decreases lines.len(),
{
    if lines.len() == 0 {
        Seq::empty()
    } else if is_malformed(lines.last()) {
        warnings_of(lines.drop_last()).push(lines.len())
    } else {
        warnings_of(lines.drop_last())
    }
}

/// Line numbers as mathematical values.
pub open spec fn line_numbers(numbers: Seq<u64>) -> Seq<nat> {
    numbers.map_values(|n: u64| n as nat)
}

/// The outcome of converting a whole text.
#[derive(Debug, PartialEq, Eq)]
pub struct Conversion {
    /// The lines to write, each without its line terminator.
    pub output: Vec<String>,
    /// The numbers of the lines that were reported and left out.
    pub warnings: Vec<u64>,
    /// How many records were converted.
    pub record_count: u64,
}

/// Converts a text given as its lines. Every line that holds a record
/// gives one line of output, every malformed line one warning under its
/// number, and a blank line neither; the record count is the number of
/// lines of output.
pub fn convert_lines(lines: &[String]) -> (done: Conversion)
    ensures
        done.output.deep_view() == output_of(lines.deep_view()),
        line_numbers(done.warnings@) == warnings_of(lines.deep_view()),
        done.record_count == done.output@.len(),
{
    let ghost all = lines.deep_view();
    let mut converter = Converter::new();
    let mut output: Vec<String> = Vec::new();
    let mut warnings: Vec<u64> = Vec::new();
    let mut i: usize = 0;
    proof {
        assert(output.deep_view() =~= output_of(all.take(0)));
        assert(line_numbers(warnings@) =~= warnings_of(all.take(0)));
    }
    while i < lines.len()
        invariant
            i <= lines.len(),
            all == lines.deep_view(),
            converter@.lines_read == i,
            converter@.record_count == output@.len(),
            output.deep_view() == output_of(all.take(i as int)),
            line_numbers(warnings@) == warnings_of(all.take(i as int)),
        decreases lines.len() - i,
    {
        let action = converter.feed(lines[i].as_str());
        proof {
            assert(all.take(i + 1).drop_last() =~= all.take(i as int));
            assert(all.take(i + 1).last() == lines[i as int]@);
        }
        let ghost output_before = output.deep_view();
        let ghost warnings_before = line_numbers(warnings@);
        match action {
            LineAction::Skip => {},
            LineAction::Write(text) => {
                output.push(text);
                assert(output.deep_view() =~= output_before.push(text@));
            },
            LineAction::Warn(line_number) => {
                warnings.push(line_number);
                assert(line_numbers(warnings@) =~= warnings_before.push(line_number as nat));
            },
        }
        i += 1;
    }
    proof {
        assert(all.take(i as int) =~= all);
    }
    Conversion { output, warnings, record_count: converter.record_count() }
}

/// The output of a text in two parts is the output of the first part
/// followed by the output of the second.
pub proof fn lemma_output_of_concat(a: Seq<Seq<char>>, b: Seq<Seq<char>>)
    ensures
        output_of(a + b) == output_of(a) + output_of(b),
    decreases b.len(),
{
    if b.len() == 0 {
        assert(a + b =~= a);
        assert(output_of(a) + output_of(b) =~= output_of(a));
    } else {
        assert((a + b).drop_last() =~= a + b.drop_last());
        assert((a + b).last() == b.last());
        lemma_output_of_concat(a, b.drop_last());
        if is_record(b.last()) {
            assert(output_of(a + b) =~= output_of(a) + output_of(b));
        }
    }
}

/// A line that holds no record adds nothing to the output: the text
/// without that line has the same output.
pub proof fn lemma_output_of_remove(lines: Seq<Seq<char>>, i: int)
    requires
        0 <= i < lines.len(),
        !is_record(lines[i]),
    ensures
        output_of(lines) == output_of(lines.remove(i)),
{
    let before = lines.take(i);
    let one = seq![lines[i]];
    let after = lines.skip(i + 1);
    assert(lines =~= before + one + after);
    assert(lines.remove(i) =~= before + after);
    assert(one.drop_last() =~= Seq::<Seq<char>>::empty());
    assert(output_of(one) =~= Seq::<Seq<char>>::empty()) by {
        assert(one.last() == lines[i]);
        assert(output_of(one.drop_last()) =~= Seq::<Seq<char>>::empty());
    }
    lemma_output_of_concat(before, one);
    lemma_output_of_concat(before + one, after);
    lemma_output_of_concat(before, after);
    assert(output_of(before) + output_of(one) =~= output_of(before));
}

/// The warnings of a text name exactly its malformed lines, each once and
/// in ascending order: every warning is the number of a malformed line,
/// every malformed line has its number among the warnings, and each
/// warning is greater than the one before it.
pub proof fn lemma_warnings_of(lines: Seq<Seq<char>>)
    ensures
        forall|k: int|
            0 <= k < warnings_of(lines).len() ==> 1 <= #[trigger] warnings_of(lines)[k]
                <= lines.len() && is_malformed(lines[warnings_of(lines)[k] - 1]),
        forall|n: int|
            1 <= n <= lines.len() && is_malformed(#[trigger] lines[n - 1]) ==> warnings_of(
                lines,
            ).contains(n as nat),
        forall|j: int, k: int|
            0 <= j < k < warnings_of(lines).len() ==> #[trigger] warnings_of(lines)[j]
                < #[trigger] warnings_of(lines)[k],
    decreases lines.len(),
{
    if lines.len() > 0 {
        let front = lines.drop_last();
        let w = warnings_of(lines);
        let wf = warnings_of(front);
        lemma_warnings_of(front);
        assert forall|k: int| 0 <= k < w.len() implies 1 <= #[trigger] w[k] <= lines.len()
            && is_malformed(lines[w[k] - 1]) by {
            if k < wf.len() {
                assert(w[k] == wf[k]);
                assert(front[wf[k] - 1] == lines[wf[k] - 1]);
            }
        }
        assert forall|n: int| 1 <= n <= lines.len() && is_malformed(
            #[trigger] lines[n - 1],
        ) implies w.contains(n as nat) by {
            if n < lines.len() {
                assert(front[n - 1] == lines[n - 1]);
                assert(wf.contains(n as nat));
                let k = choose|k: int| 0 <= k < wf.len() && wf[k] == n as nat;
                assert(w[k] == n as nat);
            } else {
                assert(w[w.len() - 1] == n as nat);
            }
        }
        assert forall|j: int, k: int| 0 <= j < k < w.len() implies #[trigger] w[j]
            < #[trigger] w[k] by {
            if k < wf.len() {
            } else {
                assert(w[j] == wf[j]);
            }
        }
    }
}

/// A blank line leaves no trace. It calls for nothing, it leaves the
/// record count as it was, the output is what it would be without the
/// line, and no warning names the line.
pub proof fn lemma_blank_line_leaves_no_trace(lines: Seq<Seq<char>>, i: int)
    requires
        0 <= i < lines.len(),
        is_blank(lines[i]),
    ensures
        forall|n: nat| step(lines[i], n) == Step::Skip,
        forall|progress: Progress|
            (#[trigger] advance(progress, lines[i])).record_count == progress.record_count,
        output_of(lines) == output_of(lines.remove(i)),
        !warnings_of(lines).contains((i + 1) as nat),
{
    lemma_output_of_remove(lines, i);
    lemma_warnings_of(lines);
}

/// A malformed line, one that is not blank and has not six fields, is
/// reported and nothing else. It calls for a warning under its number, it
/// leaves the record count as it was, the output is what it would be
/// without the line, and exactly one warning names the line.
pub proof fn lemma_malformed_line_is_reported_once(lines: Seq<Seq<char>>, i: int)
    requires
        0 <= i < lines.len(),
        !is_blank(lines[i]),
        !has_six_fields(lines[i]),
    ensures
        step(lines[i], (i + 1) as nat) == Step::Warn((i + 1) as nat),
        forall|progress: Progress|
            (#[trigger] advance(progress, lines[i])).record_count == progress.record_count,
        output_of(lines) == output_of(lines.remove(i)),
        exists|k: int|
            0 <= k < warnings_of(lines).len() && #[trigger] warnings_of(lines)[k] == i + 1
                && forall|j: int|
                0 <= j < warnings_of(lines).len() && j != k ==> #[trigger] warnings_of(lines)[j]
                    != i + 1,
{
    lemma_output_of_remove(lines, i);
    lemma_warnings_of(lines);
    let w = warnings_of(lines);
    assert(is_malformed(lines[(i + 1) - 1]));
    assert(w.contains((i + 1) as nat));
    let k = choose|k: int| 0 <= k < w.len() && w[k] == (i + 1) as nat;
    assert forall|j: int| 0 <= j < w.len() && j != k implies #[trigger] w[j] != i + 1 by {
        if j < k {
            assert(w[j] < w[k]);
        } else {
            assert(w[k] < w[j]);
        }
    }
    assert(0 <= k < w.len() && w[k] == i + 1);
}

/// A text has at most as many lines of output as it has lines, output and
/// warnings together are at most as many, and every line of output has
/// exactly 161 characters.
pub proof fn lemma_output_of_len(lines: Seq<Seq<char>>)
    ensures
        output_of(lines).len() <= lines.len(),
        output_of(lines).len() + warnings_of(lines).len() <= lines.len(),
        forall|k: int|
            0 <= k < output_of(lines).len() ==> (#[trigger] output_of(lines)[k]).len()
                == LINE_WIDTH,
    decreases lines.len(),
{
    if lines.len() > 0 {
        lemma_output_of_len(lines.drop_last());
        if is_record(lines.last()) {
            lemma_record_line_width(lines.last());
        }
    }
}

/// A blank line has no comma and so a single field: the test for blank
/// lines, which comes first, never hides a record.
pub proof fn lemma_blank_line_has_one_field(line: Seq<char>)
    requires
        is_blank(line),
    ensures
        split_on(line, ',') == seq![line],
        !has_six_fields(line),
{
    assert forall|j: int| 0 <= j < line.len() implies #[trigger] line[j] != ',' by {
        assert(is_whitespace(line[j]));
    }
    lemma_first_index_of_at(line, ',', line.len() as int);
}

} // verus!
