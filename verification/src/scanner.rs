//! Scanning one source: which of its lines are reported, under which
//! number, and with what text.
//!
//! A source is handed over as the sequence of its line records, in order.
//! A record is reported if its text matches the pattern or if it could not be
//! decoded; every other record leaves no trace in the outcome.

use crate::decimal::{decimal_digits, decimal_string};
use crate::matcher::{Pattern, PatternModel};
use crate::paint::{decorate, is_decorated, Style};
use vstd::prelude::*;

verus! {

/// One line as its source delivered it.
#[derive(Debug)]
pub enum LineRecord {
    /// A line that was decoded, without its line terminator.
    Text(String),
    /// A line whose bytes are not valid text, with the decoder's message.
    Unreadable(String),
}

impl LineRecord {
    /// Whether a scan under `pattern` reports this record.
    pub open spec fn is_reported(self, pattern: PatternModel) -> bool {
        match self {
            LineRecord::Text(text) => pattern.matches(text@),
            LineRecord::Unreadable(_) => true,
        }
    }
}

/// One reported line: its 1-based number in the source and the text to show.
#[derive(Debug)]
pub struct LineResult {
    pub line_number: usize,
    pub display: String,
}

/// What scanning one source gave.
#[derive(Debug)]
pub enum ScanOutcome {
    /// No line was reported.
    NoHits,
    /// The reported lines, in the order of the source; never empty.
    Hits(Vec<LineResult>),
}

/// The 1-based positions of the records of `lines` that a scan under
/// `pattern` reports, in increasing order.
pub open spec fn reported_positions(pattern: PatternModel, lines: Seq<LineRecord>) -> Seq<nat>
    decreases lines.len(),
{
    if lines.len() == 0 {
        Seq::empty()
    } else {
        let earlier = reported_positions(pattern, lines.drop_last());
        if lines.last().is_reported(pattern) {
            earlier.push(lines.len())
        } else {
            earlier
        }
    }
}

/// The line numbers of `results`, in order.
pub open spec fn line_numbers(results: Seq<LineResult>) -> Seq<nat> {
    Seq::new(results.len(), |k: int| results[k].line_number as nat)
}

/// The text of a matching line: the number token, a colon, a space, the
/// highlighted line.
pub open spec fn hit_text(token: Seq<char>, body: Seq<char>) -> Seq<char> {
    token + ": "@ + body
}

/// The text of a line that could not be decoded: the number token and the
/// failure notice.
pub open spec fn failure_text(token: Seq<char>, notice: Seq<char>) -> Seq<char> {
    token + ": Failed to parse line: "@ + notice
}

/// Whether `token` is a rendering of the line number `number`: its decimal
/// numeral, decorated as a line number.
pub open spec fn is_number_token(number: nat, token: Seq<char>) -> bool {
    is_decorated(Style::LineNumber, decimal_digits(number), token)
}

/// Whether `display` is a text that a scan under `pattern` may show for
/// `record` at line `number`. The text is fixed up to the decoration of its
/// parts, each of which is coloured or plain.
pub open spec fn is_display_of(
    pattern: PatternModel,
    number: nat,
    record: LineRecord,
    display: Seq<char>,
) -> bool {
    match record {
        LineRecord::Text(text) => exists|token: Seq<char>, body: Seq<char>|
            is_number_token(number, token) && pattern.is_highlight(text@, body) && display
                == #[trigger] hit_text(token, body),
        LineRecord::Unreadable(reason) => exists|token: Seq<char>, notice: Seq<char>|
            is_number_token(number, token) && is_decorated(Style::Failure, reason@, notice)
                && display == #[trigger] failure_text(token, notice),
    }
}

/// Whether `results` is what a scan of `lines` under `pattern` reports:
/// the reported positions in order, each with a text for its record.
pub open spec fn is_scan_of(
    pattern: PatternModel,
    lines: Seq<LineRecord>,
    results: Seq<LineResult>,
) -> bool {
    &&& line_numbers(results) == reported_positions(pattern, lines)
    &&& forall|k: int|
        0 <= k < results.len() ==> {
            &&& 1 <= (#[trigger] results[k]).line_number <= lines.len()
            &&& is_display_of(
                pattern,
                results[k].line_number as nat,
                lines[results[k].line_number - 1],
                results[k].display@,
            )
        }
}

/// Every reported position lies within the source, and the positions
/// increase strictly.
pub proof fn lemma_positions_increase(pattern: PatternModel, lines: Seq<LineRecord>)
    ensures
        forall|k: int|
            0 <= k < reported_positions(pattern, lines).len() ==> 1 <= #[trigger] reported_positions(
                pattern,
                lines,
            )[k] <= lines.len(),
        forall|j: int, k: int|
            0 <= j < k < reported_positions(pattern, lines).len() ==> reported_positions(
                pattern,
                lines,
            )[j] < reported_positions(pattern, lines)[k],
    decreases lines.len(),
{
    if lines.len() > 0 {
        let earlier = reported_positions(pattern, lines.drop_last());
        let all = reported_positions(pattern, lines);
        lemma_positions_increase(pattern, lines.drop_last());
        assert forall|k: int| 0 <= k < all.len() implies 1 <= #[trigger] all[k] <= lines.len() by {
            if k < earlier.len() {
                assert(all[k] == earlier[k]);
            }
        }
        assert forall|j: int, k: int| 0 <= j < k < all.len() implies all[j] < all[k] by {
            assert(all[j] == earlier[j]);
            if k < earlier.len() {
                assert(all[k] == earlier[k]);
            }
        }
    }
}

/// A position is among the reported ones exactly if the record at that
/// position is reported.
pub proof fn lemma_positions_exact(pattern: PatternModel, lines: Seq<LineRecord>, position: nat)
    requires
        1 <= position <= lines.len(),
    ensures
        reported_positions(pattern, lines).contains(position) <==> lines[position
            - 1].is_reported(pattern),
    decreases lines.len(),
{
    let earlier = reported_positions(pattern, lines.drop_last());
    let all = reported_positions(pattern, lines);
    lemma_positions_increase(pattern, lines.drop_last());
    if position < lines.len() {
        lemma_positions_exact(pattern, lines.drop_last(), position);
        assert(lines.drop_last()[position - 1] == lines[position - 1]);
        if earlier.contains(position) {
            let k = choose|k: int| 0 <= k < earlier.len() && earlier[k] == position;
            assert(all[k] == position);
        }
        if all.contains(position) {
            let k = choose|k: int| 0 <= k < all.len() && all[k] == position;
            assert(k < earlier.len());
            assert(earlier[k] == position);
        }
    } else {
        if lines.last().is_reported(pattern) {
            assert(all[all.len() - 1] == position);
        } else {
            if all.contains(position) {
                let k = choose|k: int| 0 <= k < all.len() && all[k] == position;
                assert(earlier[k] <= lines.len() - 1);
            }
        }
    }
}

/// A source in which no record is reported has no reported position.
pub proof fn lemma_nothing_reported(pattern: PatternModel, lines: Seq<LineRecord>)
    requires
        forall|i: int| 0 <= i < lines.len() ==> !(#[trigger] lines[i]).is_reported(pattern),
    ensures
        reported_positions(pattern, lines).len() == 0,
    decreases lines.len(),
{
    if lines.len() > 0 {
        assert forall|i: int| 0 <= i < lines.drop_last().len() implies !(
        #[trigger] lines.drop_last()[i]).is_reported(pattern) by {
            assert(lines.drop_last()[i] == lines[i]);
        }
        lemma_nothing_reported(pattern, lines.drop_last());
        assert(!lines[lines.len() - 1].is_reported(pattern));
    }
}

/// Two scans of the same records under the same pattern report the same
/// lines: neither drops a line that the other has, nor has one twice, and
/// the texts they show for a line are renderings of the same record. This
/// holds wherever and in whatever order the scans run.
pub proof fn lemma_scans_agree(
    pattern: PatternModel,
    lines: Seq<LineRecord>,
    first: Seq<LineResult>,
    second: Seq<LineResult>,
)
    requires
        is_scan_of(pattern, lines, first),
        is_scan_of(pattern, lines, second),
    ensures
        first.len() == second.len(),
        forall|k: int|
            0 <= k < first.len() ==> (#[trigger] first[k]).line_number == second[k].line_number,
        forall|j: int, k: int|
            0 <= j < k < first.len() ==> (#[trigger] first[j]).line_number != (
            #[trigger] first[k]).line_number,
        forall|k: int|
            0 <= k < first.len() ==> is_display_of(
                pattern,
                (#[trigger] first[k]).line_number as nat,
                lines[first[k].line_number - 1],
                second[k].display@,
            ),
{
    let positions = reported_positions(pattern, lines);
    lemma_positions_increase(pattern, lines);
    assert(line_numbers(first).len() == line_numbers(second).len());
    assert forall|k: int| 0 <= k < first.len() implies (#[trigger] first[k]).line_number
        == second[k].line_number by {
        assert(line_numbers(first)[k] == positions[k]);
        assert(line_numbers(second)[k] == positions[k]);
    }
    assert forall|j: int, k: int| 0 <= j < k < first.len() implies (#[trigger] first[j]).line_number
        != (#[trigger] first[k]).line_number by {
        assert(line_numbers(first)[j] == positions[j]);
        assert(line_numbers(first)[k] == positions[k]);
    }
    assert forall|k: int| 0 <= k < first.len() implies is_display_of(
        pattern,
        (#[trigger] first[k]).line_number as nat,
        lines[first[k].line_number - 1],
        second[k].display@,
    ) by {
        assert(first[k].line_number == second[k].line_number);
    }
}

/// The token that stands for line `number` in front of a reported line.
pub fn number_token(number: usize) -> (token: String)
    ensures
        is_number_token(number as nat, token@),
{
    let numeral: String = decimal_string(number);
    decorate(numeral.as_str(), Style::LineNumber)
}

/// Joins a number token and a highlighted line into the text of a hit.
pub fn hit_display(token: &str, body: &str) -> (display: String)
    ensures
        display@ == hit_text(token@, body@),
{
    token.to_owned().concat(": ").concat(body)
}

/// Joins a number token and a failure notice into the text of a line that
/// could not be decoded.
pub fn failure_display(token: &str, notice: &str) -> (display: String)
    ensures
        display@ == failure_text(token@, notice@),
{
    token.to_owned().concat(": Failed to parse line: ").concat(notice)
}

/// Decides what the record at line `number` contributes to the outcome:
/// nothing for a line that does not match, a result for a line that matches
/// and for one that could not be decoded.
pub fn report_line(
    pattern: &Pattern,
    number: usize,
    record: &LineRecord,
) -> (result: Option<LineResult>)
    ensures
        result is Some <==> record.is_reported(pattern@),
        result matches Some(reported) ==> reported.line_number == number && is_display_of(
            pattern@,
            number as nat,
            *record,
            reported.display@,
        ),
{
    match record {
        LineRecord::Text(text) => {
            if pattern.find(text.as_str()) {
                let token: String = number_token(number);
                let body: String = pattern.highlight(text.as_str());
                let display: String = hit_display(token.as_str(), body.as_str());
                assert(display@ == hit_text(token@, body@));
                Some(LineResult { line_number: number, display })
            } else {
                None
            }
        },
        LineRecord::Unreadable(reason) => {
            let token: String = number_token(number);
            let notice: String = decorate(reason.as_str(), Style::Failure);
            let display: String = failure_display(token.as_str(), notice.as_str());
            assert(display@ == failure_text(token@, notice@));
            Some(LineResult { line_number: number, display })
        },
    }
}

impl ScanOutcome {
    /// The reported lines; none for `NoHits`.
    pub open spec fn results(self) -> Seq<LineResult> {
        match self {
            ScanOutcome::NoHits => Seq::empty(),
            ScanOutcome::Hits(found) => found@,
        }
    }

    /// The texts of the reported lines, in order.
    pub open spec fn displays(self) -> Seq<Seq<char>> {
        Seq::new(self.results().len(), |k: int| self.results()[k].display@)
    }

    /// An outcome without results is `NoHits`, never an empty `Hits`.
    pub open spec fn wf(self) -> bool {
        self is Hits ==> self.results().len() > 0
    }

    /// Wraps the results of a scan: `NoHits` if there are none.
    pub fn from_results(results: Vec<LineResult>) -> (outcome: ScanOutcome)
        ensures
            outcome.wf(),
            outcome.results() == results@,
            outcome is NoHits <==> results@.len() == 0,
    {
        if results.len() == 0 {
            assert(results@ =~= Seq::empty());
            ScanOutcome::NoHits
        } else {
            ScanOutcome::Hits(results)
        }
    }

    /// Whether any line was reported.
    pub fn is_hits(&self) -> (hits: bool)
        ensures
            hits == (self.results().len() > 0),
    {
        match self {
            ScanOutcome::NoHits => false,
            ScanOutcome::Hits(found) => found.len() > 0,
        }
    }

    /// The texts of the reported lines, in order; none for `NoHits`.
    pub fn lines(&self) -> (texts: Vec<String>)
        ensures
            texts@.len() == self.displays().len(),
            forall|k: int| 0 <= k < texts@.len() ==> (#[trigger] texts@[k])@ == self.displays()[k],
    {
        let mut texts: Vec<String> = Vec::new();
        match self {
            ScanOutcome::NoHits => {},
            ScanOutcome::Hits(found) => {
                let mut k: usize = 0;
                while k < found.len()
                    invariant
                        k <= found.len(),
                        texts@.len() == k,
                        forall|j: int|
                            0 <= j < k ==> (#[trigger] texts@[j])@ == found@[j].display@,
                    decreases found.len() - k,
                {
                    texts.push(found[k].display.clone());
                    k += 1;
                }
            },
        }
        texts
    }
}

/// Scans the records of one source, in order, numbering them from 1.
///
/// The outcome holds one result for each record that is reported, under the
/// record's position, and nothing else; it is `NoHits` exactly if no record
/// is reported.
pub fn scan(lines: &[LineRecord], pattern: &Pattern) -> (outcome: ScanOutcome)
    ensures
        outcome.wf(),
        is_scan_of(pattern@, lines@, outcome.results()),
        outcome is Hits <==> exists|i: int|
            0 <= i < lines@.len() && (#[trigger] lines@[i]).is_reported(pattern@),
        forall|j: int, k: int|
            0 <= j < k < outcome.results().len() ==> outcome.results()[j].line_number
                < outcome.results()[k].line_number,
        forall|position: nat|
            1 <= position <= lines@.len() ==> (line_numbers(outcome.results()).contains(position)
                <==> (#[trigger] lines@[position - 1]).is_reported(pattern@)),
{
    let mut results: Vec<LineResult> = Vec::new();
    let mut i: usize = 0;
    assert(lines@.take(0) =~= Seq::empty());
    assert(line_numbers(results@) =~= Seq::empty());
    while i < lines.len()
        invariant
            i <= lines@.len(),
            is_scan_of(pattern@, lines@.take(i as int), results@),
        decreases lines@.len() - i,
    {
        let ghost before = results@;
        let ghost seen = lines@.take(i as int);
        let ghost next = lines@.take(i + 1);
        assert(next.drop_last() =~= seen);
        assert(next.last() == lines@[i as int]);
        match report_line(pattern, i + 1, &lines[i]) {
            Some(reported) => {
                results.push(reported);
                assert(line_numbers(results@) =~= line_numbers(before).push((i + 1) as nat));
            },
            None => {},
        }
        assert forall|k: int| 0 <= k < results@.len() implies {
            &&& 1 <= (#[trigger] results@[k]).line_number <= next.len()
            &&& is_display_of(
                pattern@,
                results@[k].line_number as nat,
                next[results@[k].line_number - 1],
                results@[k].display@,
            )
        } by {
            if k < before.len() {
                assert(results@[k] == before[k]);
                assert(seen[before[k].line_number - 1] == next[before[k].line_number - 1]);
            }
        }
        i += 1;
    }
    assert(lines@.take(i as int) =~= lines@);
    let outcome = ScanOutcome::from_results(results);
    proof {
        let positions = reported_positions(pattern@, lines@);
        lemma_positions_increase(pattern@, lines@);
        assert forall|j: int, k: int| 0 <= j < k < outcome.results().len() implies outcome.results()[j].line_number
            < outcome.results()[k].line_number by {
            assert(positions[j] == outcome.results()[j].line_number);
            assert(positions[k] == outcome.results()[k].line_number);
        }
        assert forall|position: nat| 1 <= position <= lines@.len() implies (line_numbers(
            outcome.results(),
        ).contains(position) <==> (#[trigger] lines@[position - 1]).is_reported(pattern@)) by {
            lemma_positions_exact(pattern@, lines@, position);
        }
        if outcome is Hits {
            let first = positions[0];
            assert(positions.contains(first));
            lemma_positions_exact(pattern@, lines@, first);
            assert(lines@[first - 1].is_reported(pattern@));
        } else {
            if exists|i: int| 0 <= i < lines@.len() && (#[trigger] lines@[i]).is_reported(pattern@) {
                let i = choose|i: int|
                    0 <= i < lines@.len() && (#[trigger] lines@[i]).is_reported(pattern@);
                lemma_positions_exact(pattern@, lines@, (i + 1) as nat);
                assert(positions.contains((i + 1) as nat));
            }
        }
    }
    outcome
}

/// Scans the records of one source and returns the texts to show, in order:
/// `None` if no record is reported.
pub fn process_lines(lines: &[LineRecord], pattern: &Pattern) -> (hits: Option<Vec<String>>)
    ensures
        hits is Some <==> exists|i: int|
            0 <= i < lines@.len() && (#[trigger] lines@[i]).is_reported(pattern@),
        hits is None <==> reported_positions(pattern@, lines@).len() == 0,
        hits matches Some(texts) ==> texts@.len() == reported_positions(pattern@, lines@).len(),
        hits matches Some(texts) ==> forall|k: int|
            0 <= k < texts@.len() ==> is_display_of(
                pattern@,
                reported_positions(pattern@, lines@)[k],
                lines@[reported_positions(pattern@, lines@)[k] - 1],
                (#[trigger] texts@[k])@,
            ),
{
    let outcome = scan(lines, pattern);
    if outcome.is_hits() {
        let texts = outcome.lines();
        proof {
            let positions = reported_positions(pattern@, lines@);
            assert forall|k: int| 0 <= k < texts@.len() implies is_display_of(
                pattern@,
                positions[k],
                lines@[positions[k] - 1],
                (#[trigger] texts@[k])@,
            ) by {
                assert(positions[k] == outcome.results()[k].line_number);
            }
        }
        Some(texts)
    } else {
        None
    }
}

} // verus!
