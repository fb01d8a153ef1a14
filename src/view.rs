//! The texts the terminal shows: the table header, the cells of each row
//! with their highlight, and the rows of the process details.
use vstd::prelude::*;
use vstd::string::*;

use crate::app::{opt_view, App};
use crate::entry::{same_connection, ConnectionEntry, EntryView};
use crate::sort::{SortColumn, SortOrder};
use crate::text::{decimal, push_decimal};

verus! {

/// How a cell is highlighted.
#[derive(PartialEq, Eq, Structural, Clone, Copy, Debug)]
pub enum CellStyle {
    /// The cell's row is the selected connection.
    Selected,
    /// The cell lies in the column that orders the table.
    SortedColumn,
    Normal,
}

/// One cell of the table.
#[derive(Debug)]
pub struct Cell {
    pub text: String,
    pub style: CellStyle,
}

/// The columns from left to right.
pub open spec fn column_at(i: int) -> SortColumn {
    if i == 0 {
        SortColumn::Proto
    } else if i == 1 {
        SortColumn::LocalIP
    } else if i == 2 {
        SortColumn::LocalPort
    } else if i == 3 {
        SortColumn::RemoteIP
    } else if i == 4 {
        SortColumn::RemotePort
    } else if i == 5 {
        SortColumn::State
    } else if i == 6 {
        SortColumn::PID
    } else {
        SortColumn::Process
    }
}

/// The caption of a column.
pub open spec fn column_label(c: SortColumn) -> Seq<char> {
    match c {
        SortColumn::Proto => "Prot"@,
        SortColumn::LocalIP => "Local IP"@,
        SortColumn::LocalPort => "LPort"@,
        SortColumn::RemoteIP => "Remote IP"@,
        SortColumn::RemotePort => "RPort"@,
        SortColumn::State => "State"@,
        SortColumn::PID => "PID"@,
        SortColumn::Process => "Process"@,
    }
}

/// The arrow that marks the direction of the order.
pub open spec fn order_arrow(o: SortOrder) -> Seq<char> {
    match o {
        SortOrder::Asc => " ↑"@,
        SortOrder::Desc => " ↓"@,
    }
}

/// The header text of a column: its caption, and the arrow when it orders
/// the table.
pub open spec fn header_text(c: SortColumn, active: SortColumn, order: SortOrder) -> Seq<char> {
    if c == active {
        column_label(c) + order_arrow(order)
    } else {
        column_label(c)
    }
}

/// The text of a cell of an entry's row.
pub open spec fn cell_text(e: EntryView, c: SortColumn) -> Seq<char> {
    match c {
        SortColumn::Proto => e.proto,
        SortColumn::LocalIP => e.local_ip,
        SortColumn::LocalPort => decimal(e.local_port as nat),
        SortColumn::RemoteIP => e.remote_ip,
        SortColumn::RemotePort => if e.remote_port == 0 {
            Seq::empty()
        } else {
            decimal(e.remote_port as nat)
        },
        SortColumn::State => e.state,
        SortColumn::PID => decimal(e.pid as nat),
        SortColumn::Process => e.process,
    }
}

/// The highlight of a cell: the selected row's, else the ordering column's,
/// else none.
pub open spec fn cell_style(
    e: EntryView,
    c: SortColumn,
    selected: Option<EntryView>,
    active: SortColumn,
) -> CellStyle {
    if selected is Some && same_connection(e, selected->0) {
        CellStyle::Selected
    } else if c == active {
        CellStyle::SortedColumn
    } else {
        CellStyle::Normal
    }
}

fn column_at_exec(i: usize) -> (r: SortColumn)
    ensures
        r == column_at(i as int),
{
    if i == 0 {
        SortColumn::Proto
    } else if i == 1 {
        SortColumn::LocalIP
    } else if i == 2 {
        SortColumn::LocalPort
    } else if i == 3 {
        SortColumn::RemoteIP
    } else if i == 4 {
        SortColumn::RemotePort
    } else if i == 5 {
        SortColumn::State
    } else if i == 6 {
        SortColumn::PID
    } else {
        SortColumn::Process
    }
}

fn label_of(c: SortColumn) -> (r: &'static str)
    ensures
        r@ == column_label(c),
{
    match c {
        SortColumn::Proto => "Prot",
        SortColumn::LocalIP => "Local IP",
        SortColumn::LocalPort => "LPort",
        SortColumn::RemoteIP => "Remote IP",
        SortColumn::RemotePort => "RPort",
        SortColumn::State => "State",
        SortColumn::PID => "PID",
        SortColumn::Process => "Process",
    }
}

/// The eight header texts, left to right.
pub fn render_connections_header(sort_col: SortColumn, sort_order: SortOrder) -> (r: Vec<String>)
    ensures
        r@.len() == 8,
        forall|i: int| 0 <= i < 8 ==> #[trigger] r@[i]@ == header_text(column_at(i), sort_col, sort_order),
{
    let arrow: &str = match sort_order {
        SortOrder::Asc => " ↑",
        SortOrder::Desc => " ↓",
    };
    let mut r: Vec<String> = Vec::new();
    let mut i: usize = 0;
    while i < 8
        invariant
            i <= 8,
            r@.len() == i,
            arrow@ == order_arrow(sort_order),
            forall|j: int| 0 <= j < i ==> #[trigger] r@[j]@ == header_text(column_at(j), sort_col, sort_order),
        decreases 8 - i,
    {
        let col = column_at_exec(i);
        let mut text = String::from_str(label_of(col));
        if col == sort_col {
            text.append(arrow);
        }
        r.push(text);
        i = i + 1;
    }
    r
}

fn decimal_string(n: u64) -> (r: String)
    ensures
        r@ == decimal(n as nat),
{
    let mut r = String::new();
    push_decimal(&mut r, n);
    assert(r@ =~= decimal(n as nat));
    r
}

impl App {
    /// The text of one cell of an entry's row.
    pub fn cell_text_of(&self, e: &ConnectionEntry, c: SortColumn) -> (r: String)
        ensures
            r@ == cell_text(e@, c),
    {
        match c {
            SortColumn::Proto => e.proto.clone(),
            SortColumn::LocalIP => e.local_ip.clone(),
            SortColumn::LocalPort => decimal_string(e.local_port as u64),
            SortColumn::RemoteIP => e.remote_ip.clone(),
            SortColumn::RemotePort => {
                if e.remote_port == 0 {
                    String::new()
                } else {
                    decimal_string(e.remote_port as u64)
                }
            },
            SortColumn::State => e.state.clone(),
            SortColumn::PID => decimal_string(e.pid as u64),
            SortColumn::Process => e.process.clone(),
        }
    }

    /// The cells of every row of the table, in table order, left to right.
    pub fn entries_to_rows(&self) -> (r: Vec<Vec<Cell>>)
        ensures
            r@.len() == self.entries@.len(),
            forall|i: int| 0 <= i < r@.len() ==> (#[trigger] r@[i])@.len() == 8,
            forall|i: int, j: int|
                0 <= i < r@.len() && 0 <= j < 8 ==> (#[trigger] r@[i]@[j]).text@ == cell_text(
                    self.entries@[i]@,
                    column_at(j),
                ) && r@[i]@[j].style == cell_style(
                    self.entries@[i]@,
                    column_at(j),
                    opt_view(self.selected),
                    self.sort_column,
                ),
    {
        let ghost sel = opt_view(self.selected);
        let mut rows: Vec<Vec<Cell>> = Vec::new();
        let mut i: usize = 0;
        while i < self.entries.len()
            invariant
                i <= self.entries@.len(),
                rows@.len() == i,
                sel == opt_view(self.selected),
                forall|k: int| 0 <= k < i ==> (#[trigger] rows@[k])@.len() == 8,
                forall|k: int, j: int|
                    0 <= k < i && 0 <= j < 8 ==> (#[trigger] rows@[k]@[j]).text@ == cell_text(
                        self.entries@[k]@,
                        column_at(j),
                    ) && rows@[k]@[j].style == cell_style(
                        self.entries@[k]@,
                        column_at(j),
                        sel,
                        self.sort_column,
                    ),
            decreases self.entries@.len() - i,
        {
            let e = &self.entries[i];
            let is_selected = match &self.selected {
                Some(s) => *e == *s,
                None => false,
            };
            let mut row: Vec<Cell> = Vec::new();
            let mut j: usize = 0;
            while j < 8
                invariant
                    j <= 8,
                    row@.len() == j,
                    is_selected == (sel is Some && same_connection(e@, sel->0)),
                    forall|m: int| 0 <= m < j ==> (#[trigger] row@[m]).text@ == cell_text(
                        e@,
                        column_at(m),
                    ) && row@[m].style == cell_style(e@, column_at(m), sel, self.sort_column),
                decreases 8 - j,
            {
                let col = column_at_exec(j);
                let style = if is_selected {
                    CellStyle::Selected
                } else if col == self.sort_column {
                    CellStyle::SortedColumn
                } else {
                    CellStyle::Normal
                };
                row.push(Cell { text: self.cell_text_of(e, col), style });
                j = j + 1;
            }
            rows.push(row);
            i = i + 1;
        }
        rows
    }
}

} // verus!
