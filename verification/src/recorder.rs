//! The recorder: named columns, one row of formatted samples per committed
//! step, and the delimited text they render to.
//!
//! The host owns the accessor closures that project the simulation state to
//! scalars and the number formatting that turns each scalar into a field;
//! it hands this recorder the finished fields. The recorder keeps the
//! columns and rows in order and renders the whole table: a header line
//! `time,<name1>,<name2>,...` and then one line per sample, fields joined by
//! commas, exactly as [`csv_text`] states. Writing the text out is the
//! host's one act of I/O, at the end of the run.

use vstd::prelude::*;
use vstd::string::StringExecFns;

verus! {

/// The items joined with `sep` between each pair: empty for no items, and
/// no leading or trailing separator otherwise.
pub open spec fn joined(items: Seq<Seq<char>>, sep: Seq<char>) -> Seq<char>
    decreases items.len(),
{
    if items.len() == 0 {
        Seq::<char>::empty()
    } else if items.len() == 1 {
        items[0]
    } else {
        joined(items.drop_last(), sep) + sep + items.last()
    }
}

/// One data line: the time field, a comma, the sample fields joined by
/// commas, and a line break.
pub open spec fn row_text(time: Seq<char>, fields: Seq<Seq<char>>) -> Seq<char> {
    time + ","@ + joined(fields, ","@) + "\n"@
}

/// The header line: the time column, then the tracked names.
pub open spec fn header_text(names: Seq<Seq<char>>) -> Seq<char> {
    "time,"@ + joined(names, ","@) + "\n"@
}

/// The data lines of the table, in sample order.
pub open spec fn rows_text(times: Seq<Seq<char>>, rows: Seq<Seq<Seq<char>>>) -> Seq<char>
    decreases rows.len(),
{
    if rows.len() == 0 || times.len() == 0 {
        Seq::<char>::empty()
    } else {
        rows_text(times.drop_last(), rows.drop_last()) + row_text(times.last(), rows.last())
    }
}

/// The whole table.
pub open spec fn csv_text(
    names: Seq<Seq<char>>,
    times: Seq<Seq<char>>,
    rows: Seq<Seq<Seq<char>>>,
) -> Seq<char> {
    header_text(names) + rows_text(times, rows)
}

/// The sampling buffer: column names, and per committed step the time field
/// and one sample field per column, all append-only until the final render.
pub struct Recorder {
    names: Vec<String>,
    times: Vec<String>,
    rows: Vec<Vec<String>>,
}

impl Recorder {
    /// The tracked column names, in registration order.
    pub closed spec fn columns(self) -> Seq<Seq<char>> {
        self.names@.map_values(|s: String| s@)
    }

    /// The time fields of the samples taken, in order.
    pub closed spec fn sample_times(self) -> Seq<Seq<char>> {
        self.times@.map_values(|s: String| s@)
    }

    /// The sample rows taken, in order.
    pub closed spec fn samples(self) -> Seq<Seq<Seq<char>>> {
        self.rows@.map_values(|r: Vec<String>| r@.map_values(|s: String| s@))
    }

    /// Every sample has a time, and every row is as wide as the header.
    pub open spec fn wf(self) -> bool {
        &&& self.sample_times().len() == self.samples().len()
        &&& forall|i: int|
            0 <= i < self.samples().len() ==> (#[trigger] self.samples()[i]).len()
                == self.columns().len()
    }

    /// An empty recorder: no columns, no samples.
    pub fn new() -> (r: Self)
        ensures
            r.wf(),
            r.columns() == Seq::<Seq<char>>::empty(),
            r.sample_times() == Seq::<Seq<char>>::empty(),
            r.samples() == Seq::<Seq<Seq<char>>>::empty(),
    {
        let r = Recorder { names: Vec::new(), times: Vec::new(), rows: Vec::new() };
        proof {
            assert(r.columns() =~= Seq::<Seq<char>>::empty());
            assert(r.sample_times() =~= Seq::<Seq<char>>::empty());
            assert(r.samples() =~= Seq::<Seq<Seq<char>>>::empty());
        }
        r
    }

    /// Registers a named column. Columns are registered before the run
    /// starts, so no sample may have been taken yet.
    pub fn track(&mut self, name: String)
        requires
            old(self).wf(),
            old(self).samples().len() == 0,
        ensures
            final (self).wf(),
            final (self).columns() == old(self).columns().push(name@),
            final (self).sample_times() == old(self).sample_times(),
            final (self).samples() == old(self).samples(),
    {
        let ghost before = self.names@;
        self.names.push(name);
        proof {
            assert(self.columns() =~= before.map_values(|s: String| s@).push(
                self.names@.last()@,
            ));
        }
    }

    /// Appends one sample: the time field and one field per column, taken
    /// at a committed step.
    pub fn sample(&mut self, time: String, row: Vec<String>)
        requires
            old(self).wf(),
            row@.len() == old(self).columns().len(),
        ensures
            final (self).wf(),
            final (self).columns() == old(self).columns(),
            final (self).sample_times() == old(self).sample_times().push(time@),
            final (self).samples() == old(self).samples().push(
                row@.map_values(|s: String| s@),
            ),
    {
        let ghost old_times = self.times@;
        let ghost old_rows = self.rows@;
        self.times.push(time);
        self.rows.push(row);
        proof {
            assert(self.sample_times() =~= old_times.map_values(|s: String| s@).push(
                self.times@.last()@,
            ));
            assert(self.samples() =~= old_rows.map_values(
                |r: Vec<String>| r@.map_values(|s: String| s@),
            ).push(self.rows@.last()@.map_values(|s: String| s@)));
        }
    }

    /// Renders the whole table: the header line, then every sample line, in
    /// the order the samples were taken.
    pub fn render_csv(&self) -> (r: String)
        requires
            self.wf(),
        ensures
            r@ == csv_text(self.columns(), self.sample_times(), self.samples()),
    {
        let mut out = String::new();
        out.append("time,");
        let head = joined_fields(&self.names);
        out.append(head.as_str());
        out.append("\n");
        proof {
            assert(out@ =~= header_text(self.columns()));
        }
        let mut i: usize = 0;
        while i < self.times.len()
            invariant
                self.wf(),
                i <= self.times@.len(),
                self.times@.len() == self.rows@.len(),
                out@ == header_text(self.columns()) + rows_text(
                    self.sample_times().take(i as int),
                    self.samples().take(i as int),
                ),
            decreases self.times@.len() - i,
        {
            let fields = joined_fields(&self.rows[i]);
            out.append(self.times[i].as_str());
            out.append(",");
            out.append(fields.as_str());
            out.append("\n");
            proof {
                lemma_rows_text_push(self.sample_times(), self.samples(), i as int);
                assert(out@ =~= header_text(self.columns()) + rows_text(
                    self.sample_times().take(i as int + 1),
                    self.samples().take(i as int + 1),
                ));
            }
            i = i + 1;
        }
        proof {
            assert(self.sample_times().take(self.times@.len() as int) =~= self.sample_times());
            assert(self.samples().take(self.times@.len() as int) =~= self.samples());
        }
        out
    }
}

/// Joins the items with commas, with no leading or trailing comma.
fn joined_fields(items: &Vec<String>) -> (r: String)
    ensures
        r@ == joined(items@.map_values(|s: String| s@), ","@),
{
    let mut out = String::new();
    let mut i: usize = 0;
    while i < items.len()
        invariant
            i <= items@.len(),
            out@ == joined(items@.map_values(|s: String| s@).take(i as int), ","@),
        decreases items@.len() - i,
    {
        if i > 0 {
            out.append(",");
        }
        out.append(items[i].as_str());
        proof {
            lemma_joined_push(items@.map_values(|s: String| s@), ","@, i as int);
            assert(out@ =~= joined(
                items@.map_values(|s: String| s@).take(i as int + 1),
                ","@,
            ));
        }
        i = i + 1;
    }
    proof {
        assert(items@.map_values(|s: String| s@).take(items@.len() as int) =~= items@.map_values(
            |s: String| s@,
        ));
    }
    out
}

/// Extending the joined prefix by one item appends a separator (except for
/// the first item) and the item.
proof fn lemma_joined_push(items: Seq<Seq<char>>, sep: Seq<char>, i: int)
    requires
        0 <= i < items.len(),
    ensures
        joined(items.take(i + 1), sep) == if i == 0 {
            items[0]
        } else {
            joined(items.take(i), sep) + sep + items[i]
        },
{
    assert(items.take(i + 1).drop_last() =~= items.take(i));
    assert(items.take(i + 1).last() == items[i]);
    if i == 0 {
        assert(items.take(1)[0] == items[0]);
    }
}

/// Extending the rendered prefix by one sample appends that sample's line.
proof fn lemma_rows_text_push(times: Seq<Seq<char>>, rows: Seq<Seq<Seq<char>>>, i: int)
    requires
        0 <= i < times.len(),
        times.len() == rows.len(),
    ensures
        rows_text(times.take(i + 1), rows.take(i + 1)) == rows_text(
            times.take(i),
            rows.take(i),
        ) + row_text(times[i], rows[i]),
{
    assert(times.take(i + 1).drop_last() =~= times.take(i));
    assert(rows.take(i + 1).drop_last() =~= rows.take(i));
    assert(times.take(i + 1).last() == times[i]);
    assert(rows.take(i + 1).last() == rows[i]);
}

} // verus!
