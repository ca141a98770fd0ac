//! Rows of comma-separated values.

use crate::text;
use vstd::prelude::*;

verus! {

/// A row: its columns with commas between them, and a line break.
pub open spec fn row(columns: Seq<Seq<char>>) -> Seq<char> {
    text::joined(columns, ","@) + "\n"@
}

/// A row in the making.
pub struct Row {
    pub columns: Vec<String>,
}

impl View for Row {
    type V = Seq<Seq<char>>;

    open spec fn view(&self) -> Seq<Seq<char>> {
        text::texts(self.columns@)
    }
}

impl Row {
    /// A row that begins with a time stamp.
    pub fn at(timestamp_us: u64) -> (r: Self)
        ensures
            r@ == seq![text::dec(timestamp_us as nat)],
    {
        let mut r = Row { columns: Vec::new() };
        r.number(timestamp_us);
        assert(r@ =~= seq![text::dec(timestamp_us as nat)]);
        r
    }

    /// Add a column.
    pub fn text(&mut self, t: &str)
        ensures
            final(self)@ == old(self)@.push(t@),
    {
        self.columns.push(text::owned(t));
        assert(self@ =~= old(self)@.push(t@));
    }

    /// Add a column that holds a number.
    pub fn number(&mut self, n: u64)
        ensures
            final(self)@ == old(self)@.push(text::dec(n as nat)),
    {
        let mut s = String::new();
        text::push_dec(&mut s, n);
        assert(s@ =~= text::dec(n as nat));
        self.columns.push(s);
        assert(self@ =~= old(self)@.push(text::dec(n as nat)));
    }

    /// Add a column that holds `true` or `false`.
    pub fn truth(&mut self, b: bool)
        ensures
            final(self)@ == old(self)@.push(text::bool_text(b)@),
    {
        self.text(if b { "true" } else { "false" });
    }

    /// The finished row.
    pub fn finish(self) -> (s: String)
        ensures
            s@ == row(self@),
    {
        let mut s = text::join(&self.columns, ",");
        text::push_str(&mut s, "\n");
        s
    }
}

/// The columns of a row come back when it is split at its commas, if no column
/// holds one: none runs into the next, and none is lost.
pub proof fn law_columns_come_back(columns: Seq<Seq<char>>)
    requires
        columns.len() > 0,
        forall|i: int| 0 <= i < columns.len() ==> !(#[trigger] columns[i]).contains(','),
    ensures
        text::split(text::joined(columns, seq![',']), ',') == columns,
{
    text::law_join_splits_back(columns, ',');
}

/// A row ends in its line break, and the rest of it splits into its columns.
pub proof fn law_rows(columns: Seq<Seq<char>>)
    requires
        columns.len() > 0,
        forall|i: int| 0 <= i < columns.len() ==> !(#[trigger] columns[i]).contains(','),
    ensures
        row(columns).last() == '\n',
        text::split(row(columns).drop_last(), ',') == columns,
{
    reveal_strlit(",");
    reveal_strlit("\n");
    assert(","@ =~= seq![',']);
    assert(row(columns).drop_last() =~= text::joined(columns, seq![',']));
    law_columns_come_back(columns);
}

} // verus!
