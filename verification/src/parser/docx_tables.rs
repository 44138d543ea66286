//! Table properties of a Word document that its typed reader does not keep:
//! repeated header rows and visual right-to-left layout.

use vstd::prelude::*;

use crate::text_util::str_eq;
use crate::xml::{
    attr_value, ends_at, get_attr, on_off, open_xml, read_on_off, read_xml_event,
    xml_event_at, XmlEvent, XmlTag,
};

verus! {

/// What a scan of the document finds for one table, in document order.
#[derive(Debug, Clone, Copy, PartialEq, Eq, Structural)]
pub struct TableHeaderInfo {
    /// How many leading rows are marked `w:tblHeader` (repeated on each page).
    pub repeat_rows: usize,
    /// Whether `w:bidiVisual` lays the table out right to left.
    pub is_visual_rtl: bool,
}

/// A table whose end has not been read yet.
#[derive(Debug, Clone, Copy, PartialEq, Eq, Structural)]
pub struct OpenTable {
    /// Its position in the scan's output.
    pub index: usize,
    /// Every row ended so far was a header row.
    pub leading: bool,
    /// The current row is marked as a header row.
    pub row_is_header: bool,
}

/// The state of a table scan: the tables found, and the open ones, innermost last.
pub ghost struct TableScanView {
    pub tables: Seq<TableHeaderInfo>,
    pub open: Seq<OpenTable>,
}

pub open spec fn initial_table_scan() -> TableScanView {
    TableScanView { tables: Seq::empty(), open: Seq::empty() }
}

/// The innermost open table with one field changed.
pub open spec fn with_top(s: TableScanView, top: OpenTable) -> TableScanView {
    TableScanView { open: s.open.update(s.open.len() - 1, top), ..s }
}

/// The end of a row of the innermost open table: a header row while every
/// earlier row was one adds to the repeated rows; any other row ends them.
pub open spec fn end_row(s: TableScanView) -> TableScanView {
    let top = s.open.last();
    let info = s.tables[top.index as int];
    if top.leading && top.row_is_header {
        let rows = if info.repeat_rows < usize::MAX {
            (info.repeat_rows + 1) as usize
        } else {
            info.repeat_rows
        };
        TableScanView {
            tables: s.tables.update(top.index as int, TableHeaderInfo { repeat_rows: rows, ..info }),
            open: s.open.update(s.open.len() - 1, OpenTable { row_is_header: false, ..top }),
        }
    } else {
        with_top(s, OpenTable { leading: false, row_is_header: false, ..top })
    }
}

/// A start tag (or, with `empty`, a self-closing one).
pub open spec fn table_tag_step(s: TableScanView, tag: XmlTag, empty: bool) -> TableScanView {
    let name = tag.name@;
    let val = attr_value(tag.attrs@, "val"@);
    if name == "tbl"@ {
        let tables = s.tables.push(TableHeaderInfo { repeat_rows: 0, is_visual_rtl: false });
        if empty {
            TableScanView { tables, ..s }
        } else {
            TableScanView {
                tables,
                open: s.open.push(OpenTable { index: s.tables.len() as usize, leading: true, row_is_header: false }),
            }
        }
    } else if s.open.len() == 0 {
        s
    } else if name == "tr"@ {
        let started = with_top(s, OpenTable { row_is_header: false, ..s.open.last() });
        if empty {
            end_row(started)
        } else {
            started
        }
    } else if name == "tblHeader"@ {
        with_top(s, OpenTable { row_is_header: on_off(val), ..s.open.last() })
    } else if name == "bidiVisual"@ {
        let index = s.open.last().index as int;
        TableScanView {
            tables: s.tables.update(index, TableHeaderInfo { is_visual_rtl: on_off(val), ..s.tables[index] }),
            ..s
        }
    } else {
        s
    }
}

/// One event of the table scan.
pub open spec fn table_scan_step(s: TableScanView, event: XmlEvent) -> TableScanView {
    match event {
        XmlEvent::Start(tag) => table_tag_step(s, tag, false),
        XmlEvent::Empty(tag) => table_tag_step(s, tag, true),
        XmlEvent::End(name) => if s.open.len() == 0 {
            s
        } else if name@ == "tbl"@ {
            TableScanView { open: s.open.drop_last(), ..s }
        } else if name@ == "tr"@ {
            end_row(s)
        } else {
            s
        },
        _ => s,
    }
}

/// The table scan after the first `n` events of `source`.
pub open spec fn table_scan_after(source: Seq<char>, n: nat) -> TableScanView
    decreases n,
{
    if n == 0 {
        initial_table_scan()
    } else {
        table_scan_step(table_scan_after(source, (n - 1) as nat), xml_event_at(source, (n - 1) as nat))
    }
}

/// Every open table names a table found.
pub open spec fn table_scan_ok(s: TableScanView) -> bool {
    forall|j: int| 0 <= j < s.open.len() ==> (#[trigger] s.open[j]).index < s.tables.len()
}

/// The scan state held in vectors.
struct TableScan {
    tables: Vec<TableHeaderInfo>,
    open: Vec<OpenTable>,
}

impl View for TableScan {
    type V = TableScanView;

    closed spec fn view(&self) -> TableScanView {
        TableScanView { tables: self.tables@, open: self.open@ }
    }
}

impl TableScan {
    fn set_top(&mut self, top: OpenTable)
        requires
            old(self).open@.len() > 0,
        ensures
            final(self)@ == with_top(old(self)@, top),
    {
        let last = self.open.len() - 1;
        self.open.set(last, top);
    }

    fn end_row(&mut self)
        requires
            old(self).open@.len() > 0,
            table_scan_ok(old(self)@),
        ensures
            final(self)@ == end_row(old(self)@),
            table_scan_ok(final(self)@),
    {
        let top = self.open[self.open.len() - 1];
        assert(self@.open[self@.open.len() - 1].index < self@.tables.len());
        let info = self.tables[top.index];
        if top.leading && top.row_is_header {
            let rows = if info.repeat_rows < usize::MAX {
                info.repeat_rows + 1
            } else {
                info.repeat_rows
            };
            self.tables.set(top.index, TableHeaderInfo { repeat_rows: rows, ..info });
            self.set_top(OpenTable { row_is_header: false, ..top });
        } else {
            self.set_top(OpenTable { leading: false, row_is_header: false, ..top });
        }
    }

    fn tag(&mut self, tag: &XmlTag, empty: bool)
        requires
            table_scan_ok(old(self)@),
        ensures
            final(self)@ == table_tag_step(old(self)@, *tag, empty),
            table_scan_ok(final(self)@),
    {
        let name: &str = tag.name.as_str();
        if str_eq(name, "tbl") {
            let index = self.tables.len();
            self.tables.push(TableHeaderInfo { repeat_rows: 0, is_visual_rtl: false });
            if !empty {
                self.open.push(OpenTable { index, leading: true, row_is_header: false });
            }
        } else if self.open.len() == 0 {
        } else if str_eq(name, "tr") {
            let top = self.open[self.open.len() - 1];
            self.set_top(OpenTable { row_is_header: false, ..top });
            if empty {
                self.end_row();
            }
        } else if str_eq(name, "tblHeader") {
            let on = read_on_off(&get_attr(tag, "val"));
            let top = self.open[self.open.len() - 1];
            self.set_top(OpenTable { row_is_header: on, ..top });
        } else if str_eq(name, "bidiVisual") {
            let on = read_on_off(&get_attr(tag, "val"));
            let index = self.open[self.open.len() - 1].index;
            assert(self@.open[self@.open.len() - 1].index < self@.tables.len());
            let info = self.tables[index];
            self.tables.set(index, TableHeaderInfo { is_visual_rtl: on, ..info });
        }
    }

    fn step(&mut self, event: &XmlEvent)
        requires
            table_scan_ok(old(self)@),
        ensures
            final(self)@ == table_scan_step(old(self)@, *event),
            table_scan_ok(final(self)@),
    {
        match event {
            XmlEvent::Start(tag) => self.tag(tag, false),
            XmlEvent::Empty(tag) => self.tag(tag, true),
            XmlEvent::End(name) => {
                if self.open.len() == 0 {
                } else if str_eq(name.as_str(), "tbl") {
                    self.open.pop();
                } else if str_eq(name.as_str(), "tr") {
                    self.end_row();
                }
            },
            _ => {},
        }
    }
}

/// Scan a document's XML for each table's repeated header rows and visual
/// right-to-left flag, in the order the tables start. Only the leading run
/// of header rows counts; rows of a nested table count for that table.
pub fn scan_table_headers(xml: &str) -> (tables: Vec<TableHeaderInfo>)
    ensures
        exists|n: nat| ends_at(xml@, n) && tables@ == #[trigger] table_scan_after(xml@, n).tables,
{
    let mut cursor = open_xml(xml);
    let mut scan = TableScan { tables: Vec::new(), open: Vec::new() };
    let ghost mut end: nat = 0;
    loop
        invariant_except_break
            cursor.source() == xml@,
            scan@ == table_scan_after(xml@, cursor.consumed()),
            table_scan_ok(scan@),
            forall|k: nat| k < cursor.consumed() ==> !(#[trigger] xml_event_at(xml@, k)).is_terminal(),
        ensures
            ends_at(xml@, end),
            scan@ == table_scan_after(xml@, end),
        decreases cursor.remaining(),
    {
        let ghost before = cursor.consumed();
        let event = read_xml_event(&mut cursor);
        match event {
            XmlEvent::Eof | XmlEvent::Error => {
                proof {
                    end = before;
                }
                break;
            },
            _ => {},
        }
        scan.step(&event);
    }
    assert(table_scan_after(xml@, end).tables == scan.tables@);
    scan.tables
}

} // verus!
