use crate::backend::data_parser::{is_number, line_values};
use crate::shared::clock::Timestamp;
use vstd::prelude::*;

verus! {

/// One slot of a numeric column: the text of a number, or nothing.
pub type Cell = Option<Seq<char>>;

/// The rolling history as a mathematical value.
///
/// `raw[0]` is the line still being received; `raw[1..]` are the completed
/// lines, newest first. Every column and `stamps` hold one entry per
/// retained completed line, newest first.
pub struct History {
    pub raw: Seq<Seq<char>>,
    pub columns: Seq<Seq<Cell>>,
    pub stamps: Seq<Timestamp>,
    pub counter: nat,
    pub capacity: nat,
}

/// The first `n` entries of `s`, or all of `s` where it has no more.
pub open spec fn trim<T>(s: Seq<T>, n: nat) -> Seq<T> {
    if s.len() > n {
        s.take(n as int)
    } else {
        s
    }
}

/// The smaller of two numbers.
pub open spec fn least(a: nat, b: nat) -> nat {
    if a <= b {
        a
    } else {
        b
    }
}

/// A column of `rows` missing values.
pub open spec fn blank_column(rows: nat) -> Seq<Cell> {
    Seq::new(rows, |j: int| None::<Seq<char>>)
}

/// The value that a row gives to column `i`: missing behind the row's end.
pub open spec fn cell_at(row: Seq<Cell>, i: int) -> Cell {
    if 0 <= i < row.len() {
        row[i]
    } else {
        None
    }
}

/// A column fits a history of `rows` retained lines: it has one entry for
/// each, and every value it holds is the text of a number.
pub open spec fn column_fits(column: Seq<Cell>, rows: nat) -> bool {
    &&& column.len() == rows
    &&& forall|j: int|
        0 <= j < column.len() ==> ((#[trigger] column[j]) matches Some(t) ==> is_number(t))
}

impl History {
    /// The invariant of the history: the in-progress line exists, no more
    /// than `capacity` completed lines are retained, and the columns form a
    /// rectangle with one row per retained line.
    pub open spec fn wf(self) -> bool {
        &&& self.raw.len() == self.stamps.len() + 1
        &&& self.stamps.len() <= self.capacity
        &&& self.stamps.len() <= self.counter
        &&& forall|i: int|
            0 <= i < self.columns.len() ==> column_fits(#[trigger] self.columns[i], self.stamps.len())
    }

    /// The empty history: one empty in-progress line and nothing else.
    pub open spec fn empty(capacity: nat) -> History {
        History {
            raw: seq![Seq::<char>::empty()],
            columns: Seq::empty(),
            stamps: Seq::empty(),
            counter: 0,
            capacity,
        }
    }

    /// The column at index `i` as the next completed line finds it: the
    /// existing one, or a new one filled with missing values for the rows
    /// already retained.
    pub open spec fn column_or_blank(self, i: int) -> Seq<Cell> {
        if 0 <= i < self.columns.len() {
            self.columns[i]
        } else {
            blank_column(self.stamps.len())
        }
    }

    /// The history with `line` put in front of its raw lines.
    pub open spec fn with_line(self, line: Seq<char>) -> History {
        History { raw: seq![line] + self.raw, ..self }
    }

    /// More text for the line in progress.
    pub open spec fn extend(self, text: Seq<char>) -> History {
        History { raw: self.raw.update(0, self.raw[0] + text), ..self }
    }

    /// One more character of the in-progress line.
    pub open spec fn push_char(self, c: char) -> History {
        History { raw: self.raw.update(0, self.raw[0].push(c)), ..self }
    }

    /// The in-progress line is completed at time `stamp`.
    pub open spec fn finalize(self, stamp: Timestamp) -> History {
        let row = line_values(self.raw[0]);
        let width = if row.len() > self.columns.len() {
            row.len()
        } else {
            self.columns.len()
        };
        History {
            raw: trim(seq![Seq::<char>::empty()] + self.raw, self.capacity + 1),
            columns: Seq::new(
                width,
                |i: int| trim(seq![cell_at(row, i)] + self.column_or_blank(i), self.capacity),
            ),
            stamps: trim(seq![stamp] + self.stamps, self.capacity),
            counter: self.counter + 1,
            capacity: self.capacity,
        }
    }

    /// The capacity becomes `new_max` and what exceeds it is dropped from
    /// the old end.
    pub open spec fn with_capacity(self, new_max: nat) -> History {
        History {
            raw: trim(self.raw, new_max + 1),
            columns: Seq::new(self.columns.len(), |i: int| trim(self.columns[i], new_max)),
            stamps: trim(self.stamps, new_max),
            counter: self.counter,
            capacity: new_max,
        }
    }

    /// Everything is forgotten but the capacity.
    pub open spec fn cleared(self) -> History {
        History::empty(self.capacity)
    }

    /// The history after the text has arrived: character by character, a
    /// newline completes the in-progress line and any other character
    /// extends it. The `k`-th line that the text completes is stamped with
    /// `stamps[k]`.
    pub open spec fn feed(self, text: Seq<char>, stamps: Seq<Timestamp>) -> History
        decreases text.len(),
    {
        if text.len() == 0 {
            self
        } else {
            let before = self.feed(text.drop_last(), stamps);
            if text.last() == '\n' {
                before.finalize(stamps[newlines(text.drop_last()) as int])
            } else {
                before.push_char(text.last())
            }
        }
    }
}

/// How many lines a text completes: the number of newlines in it.
pub open spec fn newlines(text: Seq<char>) -> nat
    decreases text.len(),
{
    if text.len() == 0 {
        0
    } else if text.last() == '\n' {
        newlines(text.drop_last()) + 1
    } else {
        newlines(text.drop_last())
    }
}


/// In a well-formed history every column has one entry for each retained
/// line: all columns are equally long, as long as the stamps and as the
/// completed raw lines.
pub proof fn lemma_rectangular(h: History)
    requires
        h.wf(),
    ensures
        h.raw.len() - 1 == h.stamps.len(),
        forall|i: int| 0 <= i < h.columns.len() ==> (#[trigger] h.columns[i]).len() == h.stamps.len(),
        forall|i: int, j: int|
            0 <= i < h.columns.len() && 0 <= j < h.columns.len() ==> (#[trigger] h.columns[i]).len()
                == (#[trigger] h.columns[j]).len(),
{
    assert forall|i: int| 0 <= i < h.columns.len() implies (#[trigger] h.columns[i]).len()
        == h.stamps.len() by {
        assert(column_fits(h.columns[i], h.stamps.len()));
    }
}

/// In a well-formed history nothing outgrows the capacity: at most
/// `capacity + 1` raw lines, `capacity` stamps and `capacity` entries in
/// each column.
pub proof fn lemma_capacity_bound(h: History)
    requires
        h.wf(),
    ensures
        h.raw.len() <= h.capacity + 1,
        h.stamps.len() <= h.capacity,
        forall|i: int| 0 <= i < h.columns.len() ==> (#[trigger] h.columns[i]).len() <= h.capacity,
{
    lemma_rectangular(h);
}

/// Completing a line keeps the history well formed: the columns stay a
/// rectangle with one row per retained line, and nothing outgrows the
/// capacity.
pub proof fn lemma_finalize_wf(h: History, stamp: Timestamp)
    requires
        h.wf(),
    ensures
        h.finalize(stamp).wf(),
{
    let after = h.finalize(stamp);
    let row = line_values(h.raw[0]);
    assert forall|i: int| 0 <= i < after.columns.len() implies column_fits(
        #[trigger] after.columns[i],
        after.stamps.len(),
    ) by {
        let grown = seq![cell_at(row, i)] + h.column_or_blank(i);
        if 0 <= i < h.columns.len() {
            assert(column_fits(h.columns[i], h.stamps.len()));
        }
        assert forall|j: int| 0 <= j < grown.len() implies ((#[trigger] grown[j]) matches Some(
            t,
        ) ==> is_number(t)) by {
            if j > 0 {
                assert(grown[j] == h.column_or_blank(i)[j - 1]);
            }
        }
    }
}

/// Changing the capacity keeps the history well formed.
pub proof fn lemma_with_capacity_wf(h: History, new_max: nat)
    requires
        h.wf(),
    ensures
        h.with_capacity(new_max).wf(),
{
    let after = h.with_capacity(new_max);
    assert forall|i: int| 0 <= i < after.columns.len() implies column_fits(
        #[trigger] after.columns[i],
        after.stamps.len(),
    ) by {
        assert(column_fits(h.columns[i], h.stamps.len()));
    }
}

/// Text that arrives keeps the history well formed, however many lines it
/// completes.
pub proof fn lemma_feed_wf(h: History, text: Seq<char>, stamps: Seq<Timestamp>)
    requires
        h.wf(),
    ensures
        h.feed(text, stamps).wf(),
    decreases text.len(),
{
    if text.len() > 0 {
        lemma_feed_wf(h, text.drop_last(), stamps);
        let before = h.feed(text.drop_last(), stamps);
        if text.last() == '\n' {
            lemma_finalize_wf(before, stamps[newlines(text.drop_last()) as int]);
        }
    }
}


/// A text completes no more lines than it has characters.
pub proof fn lemma_newlines_bound(text: Seq<char>)
    ensures
        newlines(text) <= text.len(),
    decreases text.len(),
{
    if text.len() > 0 {
        lemma_newlines_bound(text.drop_last());
    }
}

/// A prefix of a text completes no more lines than the text.
pub proof fn lemma_newlines_prefix(text: Seq<char>, n: int)
    requires
        0 <= n <= text.len(),
    ensures
        newlines(text.take(n)) <= newlines(text),
    decreases text.len(),
{
    if n < text.len() {
        lemma_newlines_prefix(text.drop_last(), n);
        assert(text.drop_last().take(n) == text.take(n));
    } else {
        assert(text.take(n) == text);
    }
}

/// Only the stamps of the lines that a text completes matter to `feed`.
pub proof fn lemma_feed_stamps(
    h: History,
    text: Seq<char>,
    stamps: Seq<Timestamp>,
    others: Seq<Timestamp>,
)
    requires
        forall|k: int| 0 <= k < newlines(text) ==> stamps[k] == others[k],
    ensures
        h.feed(text, stamps) == h.feed(text, others),
    decreases text.len(),
{
    if text.len() > 0 {
        lemma_feed_stamps(h, text.drop_last(), stamps, others);
    }
}

/// Text that arrives leaves the capacity alone and raises the count by the
/// number of lines it completes.
pub proof fn lemma_feed_counter(h: History, text: Seq<char>, stamps: Seq<Timestamp>)
    ensures
        h.feed(text, stamps).counter == h.counter + newlines(text),
        h.feed(text, stamps).capacity == h.capacity,
    decreases text.len(),
{
    if text.len() > 0 {
        lemma_feed_counter(h, text.drop_last(), stamps);
    }
}


/// The lines that two texts complete one after the other add up.
pub proof fn lemma_newlines_concat(first: Seq<char>, second: Seq<char>)
    ensures
        newlines(first + second) == newlines(first) + newlines(second),
    decreases second.len(),
{
    if second.len() == 0 {
        assert(first + second == first);
    } else {
        lemma_newlines_concat(first, second.drop_last());
        assert((first + second).drop_last() == first + second.drop_last());
    }
}

/// Reassembly does not depend on where the text was cut: a text that
/// arrives in two pieces leaves the same history as the whole text in one
/// piece, given the same stamps for the lines completed.
pub proof fn lemma_feed_in_pieces(
    h: History,
    first: Seq<char>,
    second: Seq<char>,
    first_stamps: Seq<Timestamp>,
    second_stamps: Seq<Timestamp>,
)
    requires
        first_stamps.len() == newlines(first),
        second_stamps.len() == newlines(second),
    ensures
        h.feed(first, first_stamps).feed(second, second_stamps) == h.feed(
            first + second,
            first_stamps + second_stamps,
        ),
    decreases second.len(),
{
    let stamps = first_stamps + second_stamps;
    if second.len() == 0 {
        assert(first + second == first);
        lemma_feed_stamps(h, first, first_stamps, stamps);
    } else {
        let shorter = second.drop_last();
        let fewer = second_stamps.take(newlines(shorter) as int);
        lemma_feed_in_pieces(h, first, shorter, first_stamps, fewer);
        lemma_feed_stamps(h.feed(first, first_stamps), shorter, fewer, second_stamps);
        lemma_newlines_concat(first, shorter);
        lemma_feed_stamps(h, first + shorter, first_stamps + fewer, stamps);
        assert((first + second).drop_last() == first + shorter);
    }
}

/// A text without a newline completes nothing: it only extends the line in
/// progress.
pub proof fn lemma_feed_partial_line(h: History, text: Seq<char>, stamps: Seq<Timestamp>)
    requires
        h.raw.len() >= 1,
        newlines(text) == 0,
    ensures
        h.feed(text, stamps) == h.extend(text),
    decreases text.len(),
{
    if text.len() == 0 {
        assert(h.extend(text).raw =~= h.raw);
    } else {
        lemma_feed_partial_line(h, text.drop_last(), stamps);
        assert((h.raw[0] + text.drop_last()).push(text.last()) =~= h.raw[0] + text);
        assert(h.extend(text.drop_last()).push_char(text.last()).raw =~= h.extend(text).raw);
    }
}

/// A text that ends in its only newline extends the line in progress and
/// then completes it.
pub proof fn lemma_feed_whole_line(h: History, line: Seq<char>, stamps: Seq<Timestamp>)
    requires
        h.raw.len() >= 1,
        newlines(line) == 0,
    ensures
        h.feed(line.push('\n'), stamps) == h.extend(line).finalize(stamps[0]),
{
    lemma_feed_partial_line(h, line, stamps);
    assert(line.push('\n').drop_last() == line);
}

/// The number of lines retained after a text has arrived: one more for
/// each line that the text completed, up to the capacity.
pub proof fn lemma_feed_rows(h: History, text: Seq<char>, stamps: Seq<Timestamp>)
    requires
        h.wf(),
    ensures
        h.feed(text, stamps).stamps.len() == least(h.stamps.len() + newlines(text), h.capacity),
    decreases text.len(),
{
    if text.len() > 0 {
        lemma_feed_rows(h, text.drop_last(), stamps);
        lemma_feed_counter(h, text.drop_last(), stamps);
        lemma_feed_wf(h, text.drop_last(), stamps);
    }
}

/// Missing values fill what a line does not give. Where a line has fewer
/// tokens than there are columns, the newest entry of each column beyond
/// the line's tokens is missing. Where it has more, a column is made for
/// each further token, and every entry of such a column but the newest is
/// missing.
pub proof fn lemma_finalize_backfill(h: History, stamp: Timestamp)
    requires
        h.wf(),
        h.capacity >= 1,
    ensures
        forall|i: int|
            line_values(h.raw[0]).len() <= i < h.columns.len() ==> (#[trigger] h.finalize(
                stamp,
            ).columns[i])[0] is None,
        forall|i: int|
            0 <= i < line_values(h.raw[0]).len() ==> (#[trigger] h.finalize(stamp).columns[i])[0]
                == line_values(h.raw[0])[i],
        forall|i: int, j: int|
            h.columns.len() <= i < line_values(h.raw[0]).len() && 1 <= j < h.finalize(
                stamp,
            ).columns[i].len() ==> (#[trigger] h.finalize(stamp).columns[i][j]) is None,
        forall|i: int|
            0 <= i < h.columns.len() ==> (#[trigger] h.finalize(stamp).columns[i]).skip(1) == trim(
                h.columns[i],
                (h.capacity - 1) as nat,
            ),
        h.finalize(stamp).columns.len() >= h.columns.len(),
        h.finalize(stamp).columns.len() >= line_values(h.raw[0]).len(),
        h.finalize(stamp).columns.len() == h.columns.len() || h.finalize(stamp).columns.len()
            == line_values(h.raw[0]).len(),
{
    let after = h.finalize(stamp);
    assert forall|i: int| 0 <= i < h.columns.len() implies (#[trigger] after.columns[i]).skip(1)
        == trim(h.columns[i], (h.capacity - 1) as nat) by {
        assert(column_fits(h.columns[i], h.stamps.len()));
        assert(after.columns[i].skip(1) =~= trim(h.columns[i], (h.capacity - 1) as nat));
    }
}

/// What one whole line does to the columns, said of the text as it arrives:
/// a line that ends in its only newline puts its values at the front of
/// the columns, fills the front of the columns it does not reach with a
/// missing value, makes columns of missing values for the values beyond the
/// existing columns, keeps the older rows of every existing column, and
/// leaves all columns equally long.
pub proof fn lemma_feed_line_backfill(h: History, line: Seq<char>, stamps: Seq<Timestamp>)
    requires
        h.wf(),
        h.capacity >= 1,
        newlines(line) == 0,
    ensures
        ({
            let after = h.feed(line.push('\n'), stamps);
            let row = line_values(h.raw[0] + line);
            &&& after.columns.len() >= h.columns.len()
            &&& after.columns.len() >= row.len()
            &&& after.columns.len() == h.columns.len() || after.columns.len() == row.len()
            &&& forall|i: int| 0 <= i < row.len() ==> (#[trigger] after.columns[i])[0] == row[i]
            &&& forall|i: int|
                row.len() <= i < h.columns.len() ==> (#[trigger] after.columns[i])[0] is None
            &&& forall|i: int|
                0 <= i < h.columns.len() ==> (#[trigger] after.columns[i]).skip(1) == trim(
                    h.columns[i],
                    (h.capacity - 1) as nat,
                )
            &&& forall|i: int, j: int|
                h.columns.len() <= i < row.len() && 1 <= j < after.columns[i].len() ==> (
                #[trigger] after.columns[i][j]) is None
            &&& forall|i: int|
                0 <= i < after.columns.len() ==> (#[trigger] after.columns[i]).len() == least(
                    h.stamps.len() + 1,
                    h.capacity,
                )
        }),
{
    lemma_feed_whole_line(h, line, stamps);
    let longer = h.extend(line);
    assert(longer.wf());
    lemma_finalize_backfill(longer, stamps[0]);
    lemma_finalize_wf(longer, stamps[0]);
    lemma_rectangular(longer.finalize(stamps[0]));
}

/// What arriving text does to the shape of a well-formed history: it stays
/// well formed, every column is as long as the stamps, the number of rows
/// grows by the lines completed up to the capacity, the count grows by the
/// lines completed, and the capacity stays.
pub proof fn lemma_feed_shape(h: History, text: Seq<char>, stamps: Seq<Timestamp>)
    requires
        h.wf(),
    ensures
        ({
            let after = h.feed(text, stamps);
            &&& after.wf()
            &&& after.raw.len() == after.stamps.len() + 1
            &&& after.stamps.len() == least(h.stamps.len() + newlines(text), h.capacity)
            &&& forall|i: int|
                0 <= i < after.columns.len() ==> (#[trigger] after.columns[i]).len()
                    == after.stamps.len()
            &&& after.counter == h.counter + newlines(text)
            &&& after.capacity == h.capacity
        }),
{
    lemma_feed_wf(h, text, stamps);
    lemma_feed_rows(h, text, stamps);
    lemma_feed_counter(h, text, stamps);
    lemma_rectangular(h.feed(text, stamps));
}

/// Arriving text never makes a well-formed history outgrow its capacity,
/// and it leaves the capacity as it was.
pub proof fn lemma_feed_capacity_bound(h: History, text: Seq<char>, stamps: Seq<Timestamp>)
    requires
        h.wf(),
    ensures
        ({
            let after = h.feed(text, stamps);
            &&& 1 <= after.raw.len() <= after.capacity + 1
            &&& after.stamps.len() <= after.capacity
            &&& forall|i: int|
                0 <= i < after.columns.len() ==> (#[trigger] after.columns[i]).len()
                    <= after.capacity
            &&& after.capacity == h.capacity
        }),
{
    lemma_feed_shape(h, text, stamps);
}

/// After a clear nothing of the past is left: whatever arrives next leaves
/// the history that it would leave in a new history of the same capacity.
pub proof fn lemma_cleared_is_new(h: History, text: Seq<char>, stamps: Seq<Timestamp>)
    ensures
        h.cleared().wf(),
        h.cleared().feed(text, stamps) == History::empty(h.capacity).feed(text, stamps),
{
}

} // verus!
