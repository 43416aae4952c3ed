use vstd::prelude::*;
use vstd::string::*;
use crate::book_type::BASE_URL;
use crate::scrape::{AttrLookup, AttrLookupView, Cell, CellView};

verus! {

/// The selector of the booking link inside a row's sixth cell.
pub const LINK_CSS: &'static str = "a";

/// One line of the booking table.
#[derive(Debug, Clone, PartialEq, Eq)]
pub struct BookingRow {
    pub time: String,
    pub class: String,
    pub duration: String,
    pub location: String,
    pub class_type: String,
    /// Can be empty.
    pub book_text: String,
    /// Can be empty.
    pub book_url: String,
}

/// A row can be read when it has the six cells that the table's layout gives it.
pub open spec fn row_readable(cells: Seq<CellView>) -> bool {
    cells.len() >= 6
}

/// The text of a row's `i`-th cell.
pub open spec fn cell_text(cells: Seq<CellView>, i: int) -> Seq<char> {
    cells[i].0
}

/// What `get_href_url` answers for a link lookup.
pub open spec fn href_result(link: AttrLookupView, css: Seq<char>) -> Result<Seq<char>, Seq<char>> {
    match link {
        Some(Some(href)) => Ok(BASE_URL@ + href),
        Some(None) => Err("href is missing from element with selector '"@ + css + "'"@),
        None => Err("Cannot find element with css selector '"@ + css + "'"@),
    }
}

/// The booking address of a row: the site's base address followed by the link
/// found in its sixth cell, or empty when there is none.
pub open spec fn row_book_url(cells: Seq<CellView>) -> Seq<char> {
    match href_result(cells[5].1, LINK_CSS@) {
        Ok(url) => url,
        Err(_) => Seq::empty(),
    }
}

impl BookingRow {
    /// The row read from a table row's cells: time, class, duration, location,
    /// type and booking text are the first six cells' texts.
    pub open spec fn of_cells(self, cells: Seq<CellView>) -> bool {
        &&& self.time@ == cell_text(cells, 0)
        &&& self.class@ == cell_text(cells, 1)
        &&& self.duration@ == cell_text(cells, 2)
        &&& self.location@ == cell_text(cells, 3)
        &&& self.class_type@ == cell_text(cells, 4)
        &&& self.book_text@ == cell_text(cells, 5)
        &&& self.book_url@ == row_book_url(cells)
    }

    pub fn from_cells(cells: &Vec<Cell>) -> (row: BookingRow)
        requires
            row_readable(cells.deep_view()),
        ensures
            row.of_cells(cells.deep_view()),
    {
        let ghost v = cells.deep_view();
        assert(v[5] == cells[5].deep_view());
        let book_url = match get_href_url(&cells[5].link, LINK_CSS) {
            Ok(url) => url,
            Err(_) => String::new(),
        };
        BookingRow {
            time: cells[0].text.clone(),
            class: cells[1].text.clone(),
            duration: cells[2].text.clone(),
            location: cells[3].text.clone(),
            class_type: cells[4].text.clone(),
            book_text: cells[5].text.clone(),
            book_url,
        }
    }
}

/// The absolute address of the link that a lookup found, or why there is none.
pub fn get_href_url(found: &AttrLookup, selector_css: &str) -> (res: Result<String, String>)
    ensures
        match (res, href_result(found.deep_view(), selector_css@)) {
            (Ok(a), Ok(b)) => a@ == b,
            (Err(a), Err(b)) => a@ == b,
            _ => false,
        },
{
    match found {
        AttrLookup::Value(href) => {
            let mut url = String::from_str(BASE_URL);
            url.append(href.as_str());
            Ok(url)
        },
        AttrLookup::NoAttr => {
            let mut msg = String::from_str("href is missing from element with selector '");
            msg.append(selector_css);
            msg.append("'");
            Err(msg)
        },
        AttrLookup::NoElement => {
            let mut msg = String::from_str("Cannot find element with css selector '");
            msg.append(selector_css);
            msg.append("'");
            Err(msg)
        },
    }
}

/// Reads the booking rows of a table one after the other.
pub struct BookingRowIterator<'a> {
    pub element: &'a Vec<Vec<Cell>>,
    pub pos: usize,
}

impl<'a> BookingRowIterator<'a> {
    pub fn new(element: &'a Vec<Vec<Cell>>) -> (it: BookingRowIterator<'a>)
        ensures
            it.element == element,
            it.pos == 0,
    {
        BookingRowIterator { element, pos: 0 }
    }

    /// The next row, or `None` once all rows have been read.
    pub fn next(&mut self) -> (row: Option<BookingRow>)
        requires
            old(self).pos < old(self).element.len() ==> row_readable(
                old(self).element@[old(self).pos as int].deep_view(),
            ),
        ensures
            final(self).element == old(self).element,
            old(self).pos < old(self).element.len() ==> {
                &&& final(self).pos == old(self).pos + 1
                &&& row matches Some(r) && r.of_cells(
                    old(self).element@[old(self).pos as int].deep_view(),
                )
            },
            old(self).pos >= old(self).element.len() ==> final(self).pos == old(self).pos
                && row is None,
    {
        if self.pos < self.element.len() {
            let row = BookingRow::from_cells(&self.element[self.pos]);
            self.pos = self.pos + 1;
            Some(row)
        } else {
            None
        }
    }
}

} // verus!
