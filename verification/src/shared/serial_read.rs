use crate::backend::data_parser::{line_values, parse_line_to_values};
use crate::shared::clock::Timestamp;
use crate::shared::history::{
    blank_column, cell_at, lemma_feed_counter, lemma_feed_stamps, lemma_finalize_wf,
    lemma_newlines_prefix, lemma_with_capacity_wf, newlines, trim, History,
};
use std::collections::VecDeque;
use vstd::prelude::*;

verus! {

/// The rolling history of what the device has sent: the raw lines, the
/// numeric columns parsed from them and the time at which each line was
/// completed, all newest first and bounded by `max_data_points`.
#[derive(Clone, Debug)]
pub struct SerialRead {
    raw_data: VecDeque<String>,
    graph_data: Vec<VecDeque<Option<String>>>,
    timestamps: VecDeque<Timestamp>,
    line_counter: usize,
    max_data_points: usize,
}

impl View for SerialRead {
    type V = History;

    closed spec fn view(&self) -> History {
        History {
            raw: self.raw_data.deep_view(),
            columns: self.graph_data.deep_view(),
            stamps: self.timestamps@,
            counter: self.line_counter as nat,
            capacity: self.max_data_points as nat,
        }
    }
}

impl SerialRead {
    /// An empty history that retains up to `max_data_points` lines.
    pub fn new(max_data_points: usize) -> (s: SerialRead)
        ensures
            s@ == History::empty(max_data_points as nat),
            s@.wf(),
    {
        let mut raw_data: VecDeque<String> = VecDeque::new();
        raw_data.push_front(String::new());
        let s = SerialRead {
            raw_data,
            graph_data: Vec::new(),
            timestamps: VecDeque::new(),
            line_counter: 0,
            max_data_points,
        };
        proof {
            assert(s@.raw =~= seq![Seq::<char>::empty()]);
            assert(s@.columns =~= Seq::empty());
        }
        s
    }

    /// The raw lines, newest first; the first is the line in progress.
    pub fn raw_data(&self) -> (r: &VecDeque<String>)
        ensures
            r.deep_view() == self@.raw,
    {
        &self.raw_data
    }

    /// The numeric columns, each newest first.
    pub fn graph_data(&self) -> (r: &Vec<VecDeque<Option<String>>>)
        ensures
            r.deep_view() == self@.columns,
    {
        &self.graph_data
    }

    /// When each retained line was completed, newest first.
    pub fn timestamps(&self) -> (r: &VecDeque<Timestamp>)
        ensures
            r@ == self@.stamps,
    {
        &self.timestamps
    }

    /// How many lines were completed since the history was last empty.
    pub fn line_counter(&self) -> (n: usize)
        ensures
            n == self@.counter,
    {
        self.line_counter
    }

    /// Forgets every line and value and starts the count again; the
    /// capacity stays.
    pub fn clear(&mut self)
        ensures
            final(self)@ == old(self)@.cleared(),
            final(self)@.wf(),
    {
        self.raw_data.clear();
        self.graph_data.clear();
        self.timestamps.clear();
        self.line_counter = 0;
        self.raw_data.push_front(String::new());
        proof {
            assert(self@.raw =~= seq![Seq::<char>::empty()]);
            assert(self@.columns =~= Seq::empty());
        }
    }

    /// Sets the capacity to `new_max` and drops the oldest lines, stamps and
    /// values beyond it.
    pub fn change_max_data_points(&mut self, new_max: usize)
        ensures
            final(self)@ == old(self)@.with_capacity(new_max as nat),
            old(self)@.wf() ==> final(self)@.wf(),
    {
        proof {
            if old(self)@.wf() {
                lemma_with_capacity_wf(old(self)@, new_max as nat);
            }
        }
        self.max_data_points = new_max;
        if new_max < usize::MAX {
            self.raw_data.truncate(new_max + 1);
        } else {
            proof {
                vstd::std_specs::vecdeque::axiom_spec_len(&self.raw_data);
            }
        }
        self.timestamps.truncate(new_max);
        let count = self.graph_data.len();
        let ghost trimmed = *self;
        let mut k: usize = 0;
        while k < count
            invariant
                k <= count == self.graph_data.len() == old(self).graph_data.len(),
                self.raw_data == trimmed.raw_data,
                self.timestamps == trimmed.timestamps,
                self.line_counter == trimmed.line_counter,
                self.max_data_points == trimmed.max_data_points,
                forall|i: int|
                    0 <= i < k ==> (#[trigger] self.graph_data[i])@ == trim(
                        old(self).graph_data[i]@,
                        new_max as nat,
                    ),
                forall|i: int|
                    k <= i < count ==> #[trigger] self.graph_data[i] == old(self).graph_data[i],
            decreases count - k,
        {
            self.graph_data[k].truncate(new_max);
            k = k + 1;
        }
        proof {
            let before = old(self)@;
            let after = self@;
            assert(after.raw =~= trim(before.raw, new_max as nat + 1));
            assert(after.stamps =~= trim(before.stamps, new_max as nat));
            assert forall|i: int| 0 <= i < count implies #[trigger] after.columns[i] == trim(
                before.columns[i],
                new_max as nat,
            ) by {
                assert(self.graph_data[i]@ == trim(old(self).graph_data[i]@, new_max as nat));
                assert(after.columns[i] =~= trim(before.columns[i], new_max as nat));
            }
            assert(after.columns =~= before.with_capacity(new_max as nat).columns);
        }
    }

    /// Completes the line in progress at time `stamp`: its tokens become the
    /// newest row of the columns, new columns are added for tokens beyond
    /// the existing ones and filled with missing values for the rows
    /// already retained, the stamp and an empty line in progress are put in
    /// front, the count goes up by one and what exceeds the capacity is
    /// dropped from the old end.
    pub fn finalize_line(&mut self, stamp: Timestamp)
        requires
            old(self)@.wf(),
            old(self)@.counter < usize::MAX,
        ensures
            final(self)@ == old(self)@.finalize(stamp),
            final(self)@.wf(),
    {
        let values = parse_line_to_values(self.raw_data[0].as_str());
        let rows = self.timestamps.len();
        let capacity = self.max_data_points;
        grow_columns(&mut self.graph_data, values.len(), rows);
        let ghost grown = self.graph_data;
        push_row(&mut self.graph_data, &values, capacity);
        self.timestamps.push_front(stamp);
        self.timestamps.truncate(capacity);
        self.line_counter = self.line_counter + 1;
        self.raw_data.push_front(String::new());
        if capacity < usize::MAX {
            self.raw_data.truncate(capacity + 1);
        } else {
            proof {
                vstd::std_specs::vecdeque::axiom_spec_len(&self.raw_data);
            }
        }
        proof {
            let before = old(self)@;
            let after = self@;
            let goal = before.finalize(stamp);
            let row = line_values(before.raw[0]);
            assert(values.deep_view() == row);
            assert(after.raw =~= goal.raw);
            assert(after.stamps =~= goal.stamps);
            assert(after.columns.len() == goal.columns.len());
            assert forall|i: int| 0 <= i < after.columns.len() implies #[trigger] after.columns[i]
                == goal.columns[i] by {
                assert(grown[i].deep_view() == before.column_or_blank(i));
            }
            assert(after.columns =~= goal.columns);
            lemma_finalize_wf(before, stamp);
        }
    }

    /// Takes in text as it arrived from the device. Each newline completes
    /// the line in progress, stamped with the clock's time at that moment
    /// (with the epoch where the clock gives none); every other character
    /// extends the line in progress. A text without a newline completes
    /// nothing.
    pub fn read(&mut self, s: &str)
        requires
            old(self)@.wf(),
            old(self)@.counter + newlines(s@) <= usize::MAX,
        ensures
            exists|stamps: Seq<Timestamp>|
                stamps.len() == newlines(s@) && final(self)@ == #[trigger] old(self)@.feed(
                    s@,
                    stamps,
                ),
            final(self)@.wf(),
    {
        let ghost start = self@;
        let ghost mut stamps: Seq<Timestamp> = Seq::empty();
        let mut line = self.take_line();
        for c in it: s.chars()
            invariant
                it.seq() == s@,
                start.wf(),
                start.counter + newlines(s@) <= usize::MAX,
                stamps.len() == newlines(s@.take(it.index() as int)),
                self@.with_line(line@) == start.feed(s@.take(it.index() as int), stamps),
                self@.with_line(line@).wf(),
        {
            let ghost seen = s@.take(it.index() as int);
            let ghost next = s@.take(it.index() + 1);
            proof {
                assert(next.drop_last() == seen);
                assert(next.last() == c);
                lemma_newlines_prefix(s@, it.index() + 1);
                lemma_feed_counter(start, seen, stamps);
            }
            if c == '\n' {
                self.put_line(line);
                let stamp = Timestamp::from_clock(Timestamp::now());
                self.finalize_line(stamp);
                line = self.take_line();
                proof {
                    lemma_feed_stamps(start, seen, stamps, stamps.push(stamp));
                    stamps = stamps.push(stamp);
                }
            } else {
                let ghost shorter = line@;
                line.push(c);
                proof {
                    assert(self@.with_line(line@).raw =~= self@.with_line(shorter).push_char(
                        c,
                    ).raw);
                }
            }
        }
        self.put_line(line);
        proof {
            assert(s@.take(s@.len() as int) == s@);
            assert(self@ == start.feed(s@, stamps));
        }
    }

    /// Takes the line in progress out of the history, to be put back with
    /// `put_line`.
    fn take_line(&mut self) -> (line: String)
        requires
            old(self)@.raw.len() >= 1,
        ensures
            final(self)@.with_line(line@) == old(self)@,
            final(self)@.raw.len() == old(self)@.raw.len() - 1,
    {
        let ghost before = self.raw_data;
        let front = self.raw_data.pop_front();
        let line = match front {
            Some(line) => line,
            None => String::new(),
        };
        proof {
            assert(self@.with_line(line@).raw =~= old(self)@.raw);
        }
        line
    }

    /// Puts `line` in front of the raw lines as the line in progress.
    fn put_line(&mut self, line: String)
        ensures
            final(self)@ == old(self)@.with_line(line@),
    {
        self.raw_data.push_front(line);
        proof {
            assert(self@.raw =~= old(self)@.with_line(line@).raw);
        }
    }

    /// The ordinal of a retained line among all lines completed since the
    /// history was last empty: row 0 is the newest, and the first line ever
    /// completed has ordinal 0.
    pub fn row_ordinal(&self, row: usize) -> (n: usize)
        requires
            self@.wf(),
            row < self@.stamps.len(),
        ensures
            n == self@.counter - row - 1,
    {
        self.line_counter - row - 1
    }

    /// How many completed lines the history retains at most.
    pub fn max_data_points(&self) -> (n: usize)
        ensures
            n == self@.capacity,
    {
        self.max_data_points
    }
}


/// A new column for a history that already retains `rows` lines.
fn blank_series(rows: usize) -> (series: VecDeque<Option<String>>)
    ensures
        series.deep_view() == blank_column(rows as nat),
{
    let mut series: VecDeque<Option<String>> = VecDeque::new();
    let mut r: usize = 0;
    while r < rows
        invariant
            r <= rows,
            series@.len() == r,
            forall|j: int| 0 <= j < r ==> series@[j] is None,
        decreases rows - r,
    {
        series.push_back(None);
        r = r + 1;
    }
    assert(series.deep_view() =~= blank_column(rows as nat));
    series
}

/// The value of a parsed row for column `i`.
fn value_for(values: &Vec<Option<String>>, i: usize) -> (value: Option<String>)
    ensures
        value.deep_view() == cell_at(values.deep_view(), i as int),
{
    if i < values.len() {
        match &values[i] {
            Some(text) => Some(text.clone()),
            None => None,
        }
    } else {
        None
    }
}


/// Appends blank columns until there are `width` of them.
fn grow_columns(columns: &mut Vec<VecDeque<Option<String>>>, width: usize, rows: usize)
    ensures
        final(columns).len() >= old(columns).len(),
        final(columns).len() >= width,
        final(columns).len() == old(columns).len() || final(columns).len() == width,
        forall|i: int|
            0 <= i < old(columns).len() ==> #[trigger] final(columns)[i] == old(columns)[i],
        forall|i: int|
            old(columns).len() <= i < final(columns).len() ==> (#[trigger] final(columns)[i])
                .deep_view() == blank_column(rows as nat),
{
    while columns.len() < width
        invariant
            columns.len() >= old(columns).len(),
            columns.len() <= width || columns.len() == old(columns).len(),
            forall|i: int| 0 <= i < old(columns).len() ==> #[trigger] columns[i] == old(columns)[i],
            forall|i: int|
                old(columns).len() <= i < columns.len() ==> (#[trigger] columns[i]).deep_view()
                    == blank_column(rows as nat),
        decreases width - columns.len(),
    {
        let series = blank_series(rows);
        columns.push(series);
    }
}

/// Puts the row's values at the front of the columns, one each, and trims
/// every column to `capacity` entries.
fn push_row(
    columns: &mut Vec<VecDeque<Option<String>>>,
    values: &Vec<Option<String>>,
    capacity: usize,
)
    ensures
        final(columns).len() == old(columns).len(),
        forall|i: int|
            0 <= i < old(columns).len() ==> (#[trigger] final(columns)[i]).deep_view() == trim(
                seq![cell_at(values.deep_view(), i)] + old(columns)[i].deep_view(),
                capacity as nat,
            ),
{
    let width = columns.len();
    let mut k: usize = 0;
    while k < width
        invariant
            k <= width == columns.len() == old(columns).len(),
            forall|i: int|
                0 <= i < k ==> (#[trigger] columns[i]).deep_view() == trim(
                    seq![cell_at(values.deep_view(), i)] + old(columns)[i].deep_view(),
                    capacity as nat,
                ),
            forall|i: int| k <= i < width ==> #[trigger] columns[i] == old(columns)[i],
        decreases width - k,
    {
        let value = value_for(values, k);
        let ghost before = columns[k as int];
        let ghost cell = value.deep_view();
        columns[k].push_front(value);
        columns[k].truncate(capacity);
        proof {
            let grown = seq![cell] + before.deep_view();
            assert(columns[k as int].deep_view() =~= trim(grown, capacity as nat));
        }
        k = k + 1;
    }
}

} // verus!
