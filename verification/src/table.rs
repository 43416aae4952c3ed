use vstd::prelude::*;
use vstd::string::*;
use crate::book_type::BookType;
use crate::row::{BookingRow, LINK_CSS, row_readable, cell_text, BookingRowIterator};
use crate::scrape::{Cell, CellView, scrape_table, scraped_table};
use crate::text::{lex_lt, str_lt, lemma_lex_total, lemma_lex_transitive, lemma_lex_irreflexive};

verus! {

/// The selector of the rows of the booking table on the site's pages.
pub const TABLE_CSS: &'static str = "#SW300-1Q > tbody:nth-child(2) tr";

/// Why a question about the table has no answer.
#[derive(Debug, Clone, Copy, PartialEq, Eq, Structural)]
pub enum TableFault {
    /// No page has been loaded yet.
    NotLoaded,
    /// A row that had to be read has fewer than six cells; its number of cells.
    ShortRow(usize),
    /// Classes are looked up by name, and no class name was given.
    NoClassName,
}

/// The booking page of the gym or of the classes, and what is being booked.
pub struct BookingTable {
    /// The selector of the table's rows.
    pub table_css_selector: String,
    /// The rows of the loaded page, each as its cells.
    pub rows: Option<Vec<Vec<Cell>>>,
    pub book_type: BookType,
    pub book_class: Option<String>,
}

pub open spec fn opt_str(o: Option<&str>) -> Option<Seq<char>> {
    match o {
        Some(s) => Some(s@),
        None => None,
    }
}

/// Whether a row is the slot asked for: for the gym, its time; for classes, its
/// class and its time (the class name must be given).
pub open spec fn timeslot_hit(
    book_type: BookType,
    classname: Option<Seq<char>>,
    time: Seq<char>,
    cells: Seq<CellView>,
) -> Result<bool, TableFault> {
    match book_type {
        BookType::Gym => Ok(cell_text(cells, 0) == time),
        BookType::Classes => match classname {
            Some(c) => Ok(cell_text(cells, 1) == c && cell_text(cells, 0) == time),
            None => Err(TableFault::NoClassName),
        },
    }
}

/// Whether a row offers the class `c` to the public (its type is not "Member").
pub open spec fn class_hit(c: Seq<char>, cells: Seq<CellView>) -> bool {
    cell_text(cells, 1) == c && cell_text(cells, 4) != "Member"@
}

/// Looking through the rows from the `i`-th on for the slot asked for, reading each
/// row before testing it, and stopping at the first hit or the first fault.
pub open spec fn scan_timeslot(
    rows: Seq<Seq<CellView>>,
    i: int,
    book_type: BookType,
    classname: Option<Seq<char>>,
    time: Seq<char>,
) -> Result<bool, TableFault>
    decreases rows.len() - i,
{
    if i < 0 || i >= rows.len() {
        Ok(false)
    } else if !row_readable(rows[i]) {
        Err(TableFault::ShortRow(rows[i].len() as usize))
    } else {
        match timeslot_hit(book_type, classname, time, rows[i]) {
            Err(f) => Err(f),
            Ok(true) => Ok(true),
            Ok(false) => scan_timeslot(rows, i + 1, book_type, classname, time),
        }
    }
}

/// Looking through the rows from the `i`-th on for one that offers the class `c`.
pub open spec fn scan_class(rows: Seq<Seq<CellView>>, i: int, c: Seq<char>) -> Result<
    bool,
    TableFault,
>
    decreases rows.len() - i,
{
    if i < 0 || i >= rows.len() {
        Ok(false)
    } else if !row_readable(rows[i]) {
        Err(TableFault::ShortRow(rows[i].len() as usize))
    } else if class_hit(c, rows[i]) {
        Ok(true)
    } else {
        scan_class(rows, i + 1, c)
    }
}

/// The times of the rows from the `i`-th on that can be booked: all of them for
/// the gym, those of the class `classname` for classes.
pub open spec fn timeslots_from(
    rows: Seq<Seq<CellView>>,
    i: int,
    book_type: BookType,
    classname: Option<Seq<char>>,
) -> Result<Seq<Seq<char>>, TableFault>
    decreases rows.len() - i,
{
    if i < 0 || i >= rows.len() {
        Ok(Seq::empty())
    } else if !row_readable(rows[i]) {
        Err(TableFault::ShortRow(rows[i].len() as usize))
    } else {
        let keep = match book_type {
            BookType::Gym => Ok(true),
            BookType::Classes => match classname {
                Some(c) => Ok(cell_text(rows[i], 1) == c),
                None => Err(TableFault::NoClassName),
            },
        };
        match keep {
            Err(f) => Err(f),
            Ok(k) => match timeslots_from(rows, i + 1, book_type, classname) {
                Err(f) => Err(f),
                Ok(rest) => Ok(
                    if k {
                        seq![cell_text(rows[i], 0)] + rest
                    } else {
                        rest
                    },
                ),
            },
        }
    }
}

/// The number of cells of the first row from the `i`-th on that cannot be read.
pub open spec fn first_short_row(rows: Seq<Seq<CellView>>, i: int) -> Option<nat>
    decreases rows.len() - i,
{
    if i < 0 || i >= rows.len() {
        None
    } else if !row_readable(rows[i]) {
        Some(rows[i].len())
    } else {
        first_short_row(rows, i + 1)
    }
}

/// The class names that some row offers to the public.
pub open spec fn offered_class(rows: Seq<Seq<CellView>>, c: Seq<char>) -> bool {
    exists|k: int| 0 <= k < rows.len() && class_hit(c, #[trigger] rows[k])
}

/// The answer to a table whose row selector does not parse.
pub open spec fn invalid_selector_text(css: Seq<char>) -> Seq<char> {
    "Invalid CSS selector '"@ + css + "'"@
}

/// `names` is in strictly increasing order.
pub open spec fn strictly_sorted(names: Seq<Seq<char>>) -> bool {
    forall|i: int, j: int| 0 <= i < j < names.len() ==> lex_lt(names[i], names[j])
}

impl BookingTable {
    /// The rows of the loaded page, as cells.
    pub open spec fn rows_view(&self) -> Option<Seq<Seq<CellView>>> {
        self.rows.deep_view()
    }

    /// A table for the class `book_class`, or for the gym when none is given.
    pub fn new(book_class: Option<&str>) -> (table: Self)
        ensures
            table.table_css_selector@ == TABLE_CSS@,
            table.rows is None,
            table.book_type == (if book_class is Some { BookType::Classes } else { BookType::Gym }),
            match (table.book_class, book_class) {
                (Some(a), Some(b)) => a@ == b@,
                (None, None) => true,
                _ => false,
            },
    {
        let book_type = match book_class {
            Some(_) => BookType::Classes,
            None => BookType::Gym,
        };
        let book_class = match book_class {
            Some(c) => Some(c.to_owned()),
            None => None,
        };
        BookingTable {
            table_css_selector: String::from_str(TABLE_CSS),
            rows: None,
            book_type,
            book_class,
        }
    }

    /// Takes in the page `body`: its rows are those that the table's selector picks.
    /// Fails, keeping the table as it was, when the selector does not parse.
    pub fn load_html(&mut self, body: &str) -> (res: Result<(), String>)
        ensures
            final(self).table_css_selector == old(self).table_css_selector,
            final(self).book_type == old(self).book_type,
            final(self).book_class == old(self).book_class,
            match scraped_table(body@, old(self).table_css_selector@, LINK_CSS@) {
                Some(rows) => res is Ok && final(self).rows_view() == Some(rows),
                None => res matches Err(m) && m@ == invalid_selector_text(
                    old(self).table_css_selector@,
                ) && final(self).rows == old(self).rows,
            },
    {
        match scrape_table(body, self.table_css_selector.as_str(), LINK_CSS) {
            Some(rows) => {
                self.rows = Some(rows);
                Ok(())
            },
            None => {
                let mut msg = String::from_str("Invalid CSS selector '");
                msg.append(self.table_css_selector.as_str());
                msg.append("'");
                Err(msg)
            },
        }
    }

    /// The same as `load_html`, for a page fetched anew.
    pub fn reload_html(&mut self, body: &str) -> (res: Result<(), String>)
        ensures
            final(self).table_css_selector == old(self).table_css_selector,
            final(self).book_type == old(self).book_type,
            final(self).book_class == old(self).book_class,
            match scraped_table(body@, old(self).table_css_selector@, LINK_CSS@) {
                Some(rows) => res is Ok && final(self).rows_view() == Some(rows),
                None => res matches Err(m) && m@ == invalid_selector_text(
                    old(self).table_css_selector@,
                ) && final(self).rows == old(self).rows,
            },
    {
        self.load_html(body)
    }
}


proof fn lemma_scan_class_fault(rows: Seq<Seq<CellView>>, i: int, c: Seq<char>)
    requires
        0 <= i,
    ensures
        scan_class(rows, i, c) matches Err(f) ==> (first_short_row(rows, i) matches Some(l)
            && f == TableFault::ShortRow(l as usize)),
        scan_class(rows, i, c) == Ok::<bool, TableFault>(false) ==> first_short_row(rows, i) is None,
        scan_class(rows, i, c) == Ok::<bool, TableFault>(true) ==> exists|k: int|
            i <= k < rows.len() && class_hit(c, #[trigger] rows[k]),
        first_short_row(rows, i) is None ==> scan_class(rows, i, c) == Ok::<bool, TableFault>(
            exists|k: int| i <= k < rows.len() && class_hit(c, #[trigger] rows[k]),
        ),
    decreases rows.len() - i,
{
    if i < rows.len() {
        lemma_scan_class_fault(rows, i + 1, c);
        if first_short_row(rows, i) is None && !class_hit(c, rows[i]) {
            if exists|k: int| i <= k < rows.len() && class_hit(c, #[trigger] rows[k]) {
                let k = choose|k: int| i <= k < rows.len() && class_hit(c, #[trigger] rows[k]);
                assert(k != i);
            }
        }
    }
}

/// Puts `name` into the strictly increasing list `names`, unless it is there already.
fn insert_sorted_unique(names: &mut Vec<String>, name: String)
    requires
        strictly_sorted(old(names).deep_view()),
    ensures
        strictly_sorted(final(names).deep_view()),
        forall|c: Seq<char>| #[trigger]
            final(names).deep_view().contains(c) <==> (old(names).deep_view().contains(c) || c
                == name@),
{
    let ghost old_names = names.deep_view();
    let n = names.len();
    let mut p: usize = 0;
    while p < n && str_lt(names[p].as_str(), name.as_str())
        invariant
            n == names.len(),
            p <= n,
            names.deep_view() == old_names,
            forall|k: int| 0 <= k < p ==> lex_lt(#[trigger] old_names[k], name@),
        decreases n - p,
    {
        assert(old_names[p as int] == names[p as int]@);
        p = p + 1;
    }
    if p < n && names[p] == name {
        assert(old_names[p as int] == name@);
        return;
    }
    proof {
        if p < n {
            assert(old_names[p as int] == names[p as int]@);
            lemma_lex_total(old_names[p as int], name@);
            assert forall|k: int| p <= k < n implies lex_lt(name@, #[trigger] old_names[k]) by {
                if k > p {
                    lemma_lex_transitive(name@, old_names[p as int], old_names[k]);
                }
            }
        }
    }
    names.insert(p, name);
    proof {
        let new_names = names.deep_view();
        assert(new_names =~= old_names.insert(p as int, name@));
        assert forall|c: Seq<char>| #[trigger]
            new_names.contains(c) <==> (old_names.contains(c) || c == name@) by {
            if new_names.contains(c) {
                let k = choose|k: int| 0 <= k < new_names.len() && new_names[k] == c;
                if k < p {
                    assert(old_names[k] == c);
                } else if k > p {
                    assert(old_names[k - 1] == c);
                }
            }
            if old_names.contains(c) {
                let k = choose|k: int| 0 <= k < old_names.len() && old_names[k] == c;
                if k < p {
                    assert(new_names[k] == c);
                } else {
                    assert(new_names[k + 1] == c);
                }
            }
            if c == name@ {
                assert(new_names[p as int] == c);
            }
        }
        assert forall|i: int, j: int| 0 <= i < j < new_names.len() implies lex_lt(
            new_names[i],
            new_names[j],
        ) by {
            if j < p {
                assert(new_names[i] == old_names[i] && new_names[j] == old_names[j]);
            } else if j == p {
                assert(new_names[i] == old_names[i]);
            } else if i < p {
                assert(new_names[i] == old_names[i] && new_names[j] == old_names[j - 1]);
                lemma_lex_transitive(old_names[i], name@, old_names[j - 1]);
            } else if i == p {
                assert(new_names[j] == old_names[j - 1]);
            } else {
                assert(new_names[i] == old_names[i - 1] && new_names[j] == old_names[j - 1]);
            }
        }
    }
}

impl BookingTable {
    /// Whether the slot at `time` (of the class `classname`, for classes) is in the
    /// table, or why the table cannot answer.
    pub fn try_is_valid_timeslot(&self, time: &str, classname: Option<&str>) -> (res: Result<
        bool,
        TableFault,
    >)
        ensures
            res == match self.rows_view() {
                None => Err(TableFault::NotLoaded),
                Some(rows) => scan_timeslot(rows, 0, self.book_type, opt_str(classname), time@),
            },
    {
        let rows = match &self.rows {
            None => return Err(TableFault::NotLoaded),
            Some(r) => r,
        };
        let ghost rv = rows.deep_view();
        let ghost cv = opt_str(classname);
        let time_s = time.to_owned();
        let class_s: Option<String> = match classname {
            Some(c) => Some(c.to_owned()),
            None => None,
        };
        let n = rows.len();
        let mut i: usize = 0;
        while i < n
            invariant
                n == rows.len(),
                i <= n,
                rv == rows.deep_view(),
                self.rows_view() == Some(rv),
                time_s@ == time@,
                cv == opt_str(classname),
                match (class_s, cv) {
                    (Some(a), Some(b)) => a@ == b,
                    (None, None) => true,
                    _ => false,
                },
                scan_timeslot(rv, 0, self.book_type, cv, time@) == scan_timeslot(
                    rv,
                    i as int,
                    self.book_type,
                    cv,
                    time@,
                ),
            decreases n - i,
        {
            let cells = &rows[i];
            assert(rv[i as int] == cells.deep_view());
            if cells.len() < 6 {
                return Err(TableFault::ShortRow(cells.len()));
            }
            let row = BookingRow::from_cells(cells);
            let hit = match self.book_type {
                BookType::Gym => row.time == time_s,
                BookType::Classes => match &class_s {
                    None => return Err(TableFault::NoClassName),
                    Some(c) => row.class == *c && row.time == time_s,
                },
            };
            if hit {
                return Ok(true);
            }
            i = i + 1;
        }
        Ok(false)
    }

    /// Whether the slot at `time` (of the class `classname`, for classes) is in the table.
    pub fn is_valid_timeslot(&self, time: &str, classname: Option<&str>) -> (valid: bool)
        requires
            self.rows_view() matches Some(rows) && scan_timeslot(
                rows,
                0,
                self.book_type,
                opt_str(classname),
                time@,
            ) is Ok,
        ensures
            Ok::<bool, TableFault>(valid) == scan_timeslot(
                self.rows_view().unwrap(),
                0,
                self.book_type,
                opt_str(classname),
                time@,
            ),
    {
        match self.try_is_valid_timeslot(time, classname) {
            Ok(v) => v,
            Err(_) => false,
        }
    }

    /// Whether some row offers the class `classname` to the public, or why the
    /// table cannot answer.
    pub fn try_is_valid_class(&self, classname: &str) -> (res: Result<bool, TableFault>)
        ensures
            res == match self.rows_view() {
                None => Err(TableFault::NotLoaded),
                Some(rows) => scan_class(rows, 0, classname@),
            },
    {
        let rows = match &self.rows {
            None => return Err(TableFault::NotLoaded),
            Some(r) => r,
        };
        let ghost rv = rows.deep_view();
        let class_s = classname.to_owned();
        let member = String::from_str("Member");
        let n = rows.len();
        let mut i: usize = 0;
        while i < n
            invariant
                n == rows.len(),
                i <= n,
                rv == rows.deep_view(),
                self.rows_view() == Some(rv),
                class_s@ == classname@,
                member@ == "Member"@,
                scan_class(rv, 0, classname@) == scan_class(rv, i as int, classname@),
            decreases n - i,
        {
            let cells = &rows[i];
            assert(rv[i as int] == cells.deep_view());
            if cells.len() < 6 {
                return Err(TableFault::ShortRow(cells.len()));
            }
            let row = BookingRow::from_cells(cells);
            if row.class == class_s && row.class_type != member {
                return Ok(true);
            }
            i = i + 1;
        }
        Ok(false)
    }

    /// Whether some row offers the class `classname` to the public.
    pub fn is_valid_class(&self, classname: &str) -> (valid: bool)
        requires
            self.rows_view() matches Some(rows) && scan_class(rows, 0, classname@) is Ok,
        ensures
            Ok::<bool, TableFault>(valid) == scan_class(self.rows_view().unwrap(), 0, classname@),
    {
        match self.try_is_valid_class(classname) {
            Ok(v) => v,
            Err(_) => false,
        }
    }

    /// The times that can be booked, in the table's order, or why the table cannot answer.
    pub fn try_get_valid_timeslots(&self, classname: Option<&str>) -> (res: Result<
        Vec<String>,
        TableFault,
    >)
        ensures
            match (res, self.rows_view()) {
                (Err(f), None) => f == TableFault::NotLoaded,
                (Ok(_), None) => false,
                (Ok(times), Some(rows)) => timeslots_from(
                    rows,
                    0,
                    self.book_type,
                    opt_str(classname),
                ) == Ok::<Seq<Seq<char>>, TableFault>(times.deep_view()),
                (Err(f), Some(rows)) => timeslots_from(
                    rows,
                    0,
                    self.book_type,
                    opt_str(classname),
                ) == Err::<Seq<Seq<char>>, TableFault>(f),
            },
    {
        let rows = match &self.rows {
            None => return Err(TableFault::NotLoaded),
            Some(r) => r,
        };
        let ghost rv = rows.deep_view();
        let ghost cv = opt_str(classname);
        let class_s: Option<String> = match classname {
            Some(c) => Some(c.to_owned()),
            None => None,
        };
        let mut times: Vec<String> = Vec::new();
        let n = rows.len();
        let mut i: usize = 0;
        while i < n
            invariant
                n == rows.len(),
                i <= n,
                rv == rows.deep_view(),
                self.rows_view() == Some(rv),
                cv == opt_str(classname),
                match (class_s, cv) {
                    (Some(a), Some(b)) => a@ == b,
                    (None, None) => true,
                    _ => false,
                },
                timeslots_from(rv, 0, self.book_type, cv) == match timeslots_from(
                    rv,
                    i as int,
                    self.book_type,
                    cv,
                ) {
                    Ok(rest) => Ok(times.deep_view() + rest),
                    Err(f) => Err(f),
                },
            decreases n - i,
        {
            let cells = &rows[i];
            assert(rv[i as int] == cells.deep_view());
            if cells.len() < 6 {
                return Err(TableFault::ShortRow(cells.len()));
            }
            let row = BookingRow::from_cells(cells);
            let keep = match self.book_type {
                BookType::Gym => true,
                BookType::Classes => match &class_s {
                    None => return Err(TableFault::NoClassName),
                    Some(c) => row.class == *c,
                },
            };
            let ghost before = times.deep_view();
            if keep {
                times.push(row.time);
                proof {
                    assert(times.deep_view() =~= before.push(cell_text(rv[i as int], 0)));
                    match timeslots_from(rv, i + 1, self.book_type, cv) {
                        Ok(rest) => {
                            assert(before + (seq![cell_text(rv[i as int], 0)] + rest)
                                =~= times.deep_view() + rest);
                        },
                        Err(_) => {},
                    }
                }
            }
            i = i + 1;
        }
        proof {
            assert(times.deep_view() + Seq::<Seq<char>>::empty() =~= times.deep_view());
        }
        Ok(times)
    }

    /// The times that can be booked, in the table's order: every row's for the gym,
    /// the rows of the class `classname` for classes.
    pub fn get_valid_timeslots(&self, classname: Option<&str>) -> (times: Vec<String>)
        requires
            self.rows_view() matches Some(rows) && timeslots_from(
                rows,
                0,
                self.book_type,
                opt_str(classname),
            ) is Ok,
        ensures
            timeslots_from(self.rows_view().unwrap(), 0, self.book_type, opt_str(classname))
                == Ok::<Seq<Seq<char>>, TableFault>(times.deep_view()),
    {
        match self.try_get_valid_timeslots(classname) {
            Ok(t) => t,
            Err(_) => Vec::new(),
        }
    }

    /// The classes offered to the public, in increasing order without repeats, or
    /// why the table cannot answer (a row that cannot be read).
    pub fn try_get_valid_classes(&self) -> (res: Result<Vec<String>, TableFault>)
        ensures
            match (res, self.rows_view()) {
                (Err(f), None) => f == TableFault::NotLoaded,
                (Ok(_), None) => false,
                (Err(f), Some(rows)) => first_short_row(rows, 0) matches Some(l) && f
                    == TableFault::ShortRow(l as usize),
                (Ok(names), Some(rows)) => {
                    &&& first_short_row(rows, 0) is None
                    &&& strictly_sorted(names.deep_view())
                    &&& forall|c: Seq<char>| #[trigger]
                        names.deep_view().contains(c) <==> offered_class(rows, c)
                },
            },
    {
        let rows = match &self.rows {
            None => return Err(TableFault::NotLoaded),
            Some(r) => r,
        };
        let ghost rv = rows.deep_view();
        let mut names: Vec<String> = Vec::new();
        let n = rows.len();
        let mut i: usize = 0;
        while i < n
            invariant
                n == rows.len(),
                i <= n,
                rv == rows.deep_view(),
                self.rows_view() == Some(rv),
                first_short_row(rv, 0) == first_short_row(rv, i as int),
                strictly_sorted(names.deep_view()),
                forall|c: Seq<char>| #[trigger]
                    names.deep_view().contains(c) <==> (exists|j: int|
                        0 <= j < i && cell_text(#[trigger] rv[j], 1) == c && scan_class(rv, 0, c)
                            == Ok::<bool, TableFault>(true)),
            decreases n - i,
        {
            let cells = &rows[i];
            assert(rv[i as int] == cells.deep_view());
            if cells.len() < 6 {
                return Err(TableFault::ShortRow(cells.len()));
            }
            let class = cells[1].text.clone();
            assert(class@ == cell_text(rv[i as int], 1));
            proof {
                lemma_scan_class_fault(rv, 0, class@);
            }
            let valid = match self.try_is_valid_class(class.as_str()) {
                Ok(v) => v,
                Err(f) => return Err(f),
            };
            let ghost before = names.deep_view();
            if valid {
                insert_sorted_unique(&mut names, class);
            }
            assert forall|c: Seq<char>| #[trigger]
                names.deep_view().contains(c) <==> (exists|j: int|
                    0 <= j < i + 1 && cell_text(#[trigger] rv[j], 1) == c && scan_class(rv, 0, c)
                        == Ok::<bool, TableFault>(true)) by {
                if c == cell_text(rv[i as int], 1) && valid {
                    assert(0 <= i < i + 1 && cell_text(rv[i as int], 1) == c);
                }
                if before.contains(c) {
                    let j = choose|j: int|
                        0 <= j < i && cell_text(#[trigger] rv[j], 1) == c && scan_class(rv, 0, c)
                            == Ok::<bool, TableFault>(true);
                    assert(0 <= j < i + 1);
                }
            }
            i = i + 1;
        }
        proof {
            lemma_scan_class_fault(rv, 0, Seq::empty());
            assert forall|c: Seq<char>| #[trigger]
                names.deep_view().contains(c) <==> offered_class(rv, c) by {
                lemma_scan_class_fault(rv, 0, c);
                if offered_class(rv, c) {
                    let k = choose|k: int| 0 <= k < rv.len() && class_hit(c, #[trigger] rv[k]);
                    assert(cell_text(rv[k], 1) == c);
                }
            }
        }
        Ok(names)
    }

    /// The classes offered to the public, in increasing order without repeats.
    pub fn get_valid_classes(&self) -> (names: Vec<String>)
        requires
            self.rows_view() matches Some(rows) && first_short_row(rows, 0) is None,
        ensures
            strictly_sorted(names.deep_view()),
            forall|c: Seq<char>| #[trigger]
                names.deep_view().contains(c) <==> offered_class(self.rows_view().unwrap(), c),
    {
        match self.try_get_valid_classes() {
            Ok(v) => v,
            Err(_) => Vec::new(),
        }
    }
}

/// When every row of a page can be read, a class is among those that
/// `get_valid_classes` lists exactly when `is_valid_class` accepts it.
pub proof fn lemma_listed_classes_are_valid_classes(rows: Seq<Seq<CellView>>, c: Seq<char>)
    requires
        first_short_row(rows, 0) is None,
    ensures
        offered_class(rows, c) <==> scan_class(rows, 0, c) == Ok::<bool, TableFault>(true),
{
    lemma_scan_class_fault(rows, 0, c);
}

/// When the valid time slots can be listed, `is_valid_timeslot` has an answer too,
/// and a time is valid exactly when it is listed.
pub proof fn lemma_listed_timeslots_are_valid_timeslots(
    rows: Seq<Seq<CellView>>,
    book_type: BookType,
    classname: Option<Seq<char>>,
    time: Seq<char>,
)
    requires
        timeslots_from(rows, 0, book_type, classname) is Ok,
    ensures
        scan_timeslot(rows, 0, book_type, classname, time) == Ok::<bool, TableFault>(
            timeslots_from(rows, 0, book_type, classname).unwrap().contains(time),
        ),
{
    lemma_timeslots_scan(rows, 0, book_type, classname, time);
}

proof fn lemma_timeslots_scan(
    rows: Seq<Seq<CellView>>,
    i: int,
    book_type: BookType,
    classname: Option<Seq<char>>,
    time: Seq<char>,
)
    requires
        0 <= i,
        timeslots_from(rows, i, book_type, classname) is Ok,
    ensures
        scan_timeslot(rows, i, book_type, classname, time) == Ok::<bool, TableFault>(
            timeslots_from(rows, i, book_type, classname).unwrap().contains(time),
        ),
    decreases rows.len() - i,
{
    if i < rows.len() {
        lemma_timeslots_scan(rows, i + 1, book_type, classname, time);
        let rest = timeslots_from(rows, i + 1, book_type, classname).unwrap();
        let all = timeslots_from(rows, i, book_type, classname).unwrap();
        let t0 = cell_text(rows[i], 0);
        if all == seq![t0] + rest {
            assert(all[0] == t0);
            if rest.contains(time) {
                let k = choose|k: int| 0 <= k < rest.len() && rest[k] == time;
                assert(all[k + 1] == time);
            }
            if all.contains(time) && t0 != time {
                let k = choose|k: int| 0 <= k < all.len() && all[k] == time;
                assert(rest[k - 1] == time);
            }
        }
    } else {
        assert(timeslots_from(rows, i, book_type, classname).unwrap() =~= Seq::<Seq<char>>::empty());
    }
}

/// What the table says of the slot asked for.
#[derive(Debug, Clone, PartialEq, Eq)]
pub enum SlotStatus {
    /// The table has no rows at all.
    NoRows,
    /// No row is the slot asked for.
    NotListed,
    /// The first row that is the slot asked for is full.
    Full,
    /// The first row that is the slot asked for has no booking text or no booking link yet.
    LinkUnavailable,
    /// The first row that is the slot asked for can be booked at this address.
    Bookable(String),
}

/// Whether a row is the slot asked for: its time is `time` and, when a class is
/// named, its class is that class.
pub open spec fn row_is_slot(row: BookingRow, time: Seq<char>, class: Option<Seq<char>>) -> bool {
    &&& row.time@ == time
    &&& match class {
        Some(c) => row.class@ == c,
        None => true,
    }
}

/// What the rows from the `i`-th on say of the slot at `time` (of the class
/// `class`, when one is named).
pub open spec fn slot_from(rows: Seq<BookingRow>, i: int, time: Seq<char>, class: Option<Seq<char>>) -> SlotStatus
    decreases rows.len() - i,
{
    if i < 0 || i >= rows.len() {
        SlotStatus::NotListed
    } else if !row_is_slot(rows[i], time, class) {
        slot_from(rows, i + 1, time, class)
    } else if rows[i].book_text@ == "Full"@ {
        SlotStatus::Full
    } else if rows[i].book_text@.len() == 0 || rows[i].book_url@.len() == 0 {
        SlotStatus::LinkUnavailable
    } else {
        SlotStatus::Bookable(rows[i].book_url)
    }
}

/// What the rows say of the slot at `time` (of the class `class`, when one is named).
pub open spec fn slot_of(rows: Seq<BookingRow>, time: Seq<char>, class: Option<Seq<char>>) -> SlotStatus {
    if rows.len() == 0 {
        SlotStatus::NoRows
    } else {
        slot_from(rows, 0, time, class)
    }
}

/// `rows` are the booking rows read from the cells `cells`, one for one.
pub open spec fn rows_of_cells(rows: Seq<BookingRow>, cells: Seq<Seq<CellView>>) -> bool {
    &&& rows.len() == cells.len()
    &&& forall|i: int| 0 <= i < rows.len() ==> #[trigger] rows[i].of_cells(cells[i])
}

/// What the rows say of the slot at `time`, of the class `classname` when one is named.
pub fn slot_status(rows: &Vec<BookingRow>, time: &str, classname: Option<&str>) -> (status: SlotStatus)
    ensures
        match (status, slot_of(rows@, time@, opt_str(classname))) {
            (SlotStatus::Bookable(a), SlotStatus::Bookable(b)) => a@ == b@,
            (a, b) => a == b,
        },
{
    if rows.len() == 0 {
        return SlotStatus::NoRows;
    }
    let ghost cv = opt_str(classname);
    let time_s = time.to_owned();
    let class_s: Option<String> = match classname {
        Some(c) => Some(c.to_owned()),
        None => None,
    };
    let full = String::from_str("Full");
    let n = rows.len();
    let mut i: usize = 0;
    while i < n
        invariant
            n == rows.len(),
            i <= n,
            time_s@ == time@,
            full@ == "Full"@,
            cv == opt_str(classname),
            match (class_s, cv) {
                (Some(a), Some(b)) => a@ == b,
                (None, None) => true,
                _ => false,
            },
            slot_from(rows@, 0, time@, cv) == slot_from(rows@, i as int, time@, cv),
        decreases n - i,
    {
        let row = &rows[i];
        let class_ok = match &class_s {
            Some(c) => row.class == *c,
            None => true,
        };
        if row.time == time_s && class_ok {
            if row.book_text == full {
                return SlotStatus::Full;
            }
            if row.book_text.unicode_len() == 0 || row.book_url.unicode_len() == 0 {
                return SlotStatus::LinkUnavailable;
            }
            return SlotStatus::Bookable(row.book_url.clone());
        }
        i = i + 1;
    }
    SlotStatus::NotListed
}

impl BookingTable {
    /// All the rows of the loaded page, read one after the other, or why they
    /// cannot be read.
    pub fn read_rows(&self) -> (res: Result<Vec<BookingRow>, TableFault>)
        ensures
            match (res, self.rows_view()) {
                (Err(f), None) => f == TableFault::NotLoaded,
                (Ok(_), None) => false,
                (Err(f), Some(cells)) => first_short_row(cells, 0) matches Some(l) && f
                    == TableFault::ShortRow(l as usize),
                (Ok(rows), Some(cells)) => first_short_row(cells, 0) is None && rows_of_cells(
                    rows@,
                    cells,
                ),
            },
    {
        let cells = match &self.rows {
            None => return Err(TableFault::NotLoaded),
            Some(r) => r,
        };
        let ghost cv = cells.deep_view();
        let mut it = BookingRowIterator::new(cells);
        let mut rows: Vec<BookingRow> = Vec::new();
        let n = cells.len();
        while it.pos < n
            invariant
                n == cells.len(),
                it.element == cells,
                it.pos <= n,
                cv == cells.deep_view(),
                self.rows_view() == Some(cv),
                first_short_row(cv, 0) == first_short_row(cv, it.pos as int),
                rows.len() == it.pos,
                forall|i: int| 0 <= i < it.pos ==> #[trigger] rows@[i].of_cells(cv[i]),
            decreases n - it.pos,
        {
            let k = it.pos;
            let row_cells = &cells[k];
            assert(cv[k as int] == row_cells.deep_view());
            assert(cv[k as int].len() == row_cells.len());
            if row_cells.len() < 6 {
                return Err(TableFault::ShortRow(row_cells.len()));
            }
            match it.next() {
                Some(row) => rows.push(row),
                None => {},
            }
        }
        Ok(rows)
    }
}

/// The classes offered to the public, in increasing order without repeats.
pub open spec fn sorted_offered_classes(rows: Seq<Seq<CellView>>) -> Seq<Seq<char>> {
    choose|names: Seq<Seq<char>>|
        strictly_sorted(names) && forall|c: Seq<char>| #[trigger]
            names.contains(c) <==> offered_class(rows, c)
}

/// Two strictly increasing lists with the same elements are the same list.
pub proof fn lemma_strictly_sorted_unique(a: Seq<Seq<char>>, b: Seq<Seq<char>>)
    requires
        strictly_sorted(a),
        strictly_sorted(b),
        forall|c: Seq<char>| #[trigger] a.contains(c) <==> b.contains(c),
    ensures
        a == b,
    decreases a.len(),
{
    if a.len() == 0 {
        if b.len() > 0 {
            assert(b.contains(b[0]));
            assert(a.contains(b[0]));
        }
        assert(a =~= b);
    } else {
        assert(a.contains(a[0]));
        assert(b.contains(a[0]));
        let k = choose|k: int| 0 <= k < b.len() && b[k] == a[0];
        assert(b.len() > 0);
        assert(b.contains(b[0]));
        assert(a.contains(b[0]));
        let j = choose|j: int| 0 <= j < a.len() && a[j] == b[0];
        if k > 0 && j > 0 {
            assert(lex_lt(b[0], b[k]));
            assert(lex_lt(a[0], a[j]));
            lemma_lex_transitive(a[0], b[0], a[0]);
            lemma_lex_irreflexive(a[0]);
        }
        assert(a[0] == b[0]);
        let a1 = a.drop_first();
        let b1 = b.drop_first();
        assert forall|c: Seq<char>| #[trigger] a1.contains(c) <==> b1.contains(c) by {
            if a1.contains(c) {
                let i = choose|i: int| 0 <= i < a1.len() && a1[i] == c;
                assert(a[i + 1] == c);
                assert(a.contains(c));
                assert(b.contains(c));
                assert(lex_lt(a[0], a[i + 1]));
                lemma_lex_irreflexive(c);
                let m = choose|m: int| 0 <= m < b.len() && b[m] == c;
                assert(m != 0);
                assert(b1[m - 1] == c);
            }
            if b1.contains(c) {
                let i = choose|i: int| 0 <= i < b1.len() && b1[i] == c;
                assert(b[i + 1] == c);
                assert(b.contains(c));
                assert(a.contains(c));
                assert(lex_lt(b[0], b[i + 1]));
                lemma_lex_irreflexive(c);
                let m = choose|m: int| 0 <= m < a.len() && a[m] == c;
                assert(m != 0);
                assert(a1[m - 1] == c);
            }
        }
        lemma_strictly_sorted_unique(a1, b1);
        assert(a =~= seq![a[0]] + a1);
        assert(b =~= seq![b[0]] + b1);
    }
}

/// A strictly increasing list of exactly the offered classes is the one
/// `sorted_offered_classes` names.
pub proof fn lemma_is_sorted_offered_classes(rows: Seq<Seq<CellView>>, names: Seq<Seq<char>>)
    requires
        strictly_sorted(names),
        forall|c: Seq<char>| #[trigger] names.contains(c) <==> offered_class(rows, c),
    ensures
        names == sorted_offered_classes(rows),
{
    let s = sorted_offered_classes(rows);
    assert(strictly_sorted(s) && forall|c: Seq<char>| #[trigger]
        s.contains(c) <==> offered_class(rows, c));
    lemma_strictly_sorted_unique(names, s);
}

proof fn lemma_sorted_insert(names: Seq<Seq<char>>, x: Seq<char>) -> (out: Seq<Seq<char>>)
    requires
        strictly_sorted(names),
    ensures
        strictly_sorted(out),
        forall|c: Seq<char>| #[trigger] out.contains(c) <==> (names.contains(c) || c == x),
    decreases names.len(),
{
    if names.len() == 0 {
        let out = seq![x];
        assert forall|c: Seq<char>| #[trigger] out.contains(c) <==> (names.contains(c) || c == x) by {
            if c == x {
                assert(out[0] == c);
            }
        }
        out
    } else if names[0] == x {
        assert forall|c: Seq<char>| #[trigger] names.contains(c) <==> (names.contains(c) || c == x) by {
            if c == x {
                assert(names[0] == c);
            }
        }
        names
    } else if lex_lt(x, names[0]) {
        let out = seq![x] + names;
        assert forall|i: int, j: int| 0 <= i < j < out.len() implies lex_lt(out[i], out[j]) by {
            if i == 0 {
                assert(out[j] == names[j - 1]);
                if j > 1 {
                    assert(lex_lt(names[0], names[j - 1]));
                    lemma_lex_transitive(x, names[0], names[j - 1]);
                }
            } else {
                assert(out[i] == names[i - 1] && out[j] == names[j - 1]);
            }
        }
        assert forall|c: Seq<char>| #[trigger] out.contains(c) <==> (names.contains(c) || c == x) by {
            if out.contains(c) {
                let k = choose|k: int| 0 <= k < out.len() && out[k] == c;
                if k > 0 {
                    assert(names[k - 1] == c);
                }
            }
            if names.contains(c) {
                let k = choose|k: int| 0 <= k < names.len() && names[k] == c;
                assert(out[k + 1] == c);
            }
            if c == x {
                assert(out[0] == c);
            }
        }
        out
    } else {
        lemma_lex_total(x, names[0]);
        let tail = names.drop_first();
        assert forall|i: int, j: int| 0 <= i < j < tail.len() implies lex_lt(tail[i], tail[j]) by {
            assert(tail[i] == names[i + 1] && tail[j] == names[j + 1]);
        }
        let rest = lemma_sorted_insert(tail, x);
        let out = seq![names[0]] + rest;
        assert forall|k: int| 0 <= k < rest.len() implies lex_lt(names[0], #[trigger] rest[k]) by {
            assert(rest.contains(rest[k]));
            if rest[k] != x {
                assert(tail.contains(rest[k]));
                let m = choose|m: int| 0 <= m < tail.len() && tail[m] == rest[k];
                assert(names[m + 1] == rest[k]);
            }
        }
        assert forall|i: int, j: int| 0 <= i < j < out.len() implies lex_lt(out[i], out[j]) by {
            if i == 0 {
                assert(out[j] == rest[j - 1]);
            } else {
                assert(out[i] == rest[i - 1] && out[j] == rest[j - 1]);
            }
        }
        assert forall|c: Seq<char>| #[trigger] out.contains(c) <==> (names.contains(c) || c == x) by {
            if out.contains(c) {
                let k = choose|k: int| 0 <= k < out.len() && out[k] == c;
                if k == 0 {
                    assert(names[0] == c);
                } else {
                    assert(rest[k - 1] == c);
                    assert(rest.contains(c));
                    if c != x {
                        assert(tail.contains(c));
                        let m = choose|m: int| 0 <= m < tail.len() && tail[m] == c;
                        assert(names[m + 1] == c);
                    }
                }
            }
            if names.contains(c) || c == x {
                if c == names[0] {
                    assert(out[0] == c);
                } else {
                    if c != x {
                        let m = choose|m: int| 0 <= m < names.len() && names[m] == c;
                        assert(m != 0);
                        assert(tail[m - 1] == c);
                        assert(tail.contains(c));
                    }
                    assert(rest.contains(c));
                    let k = choose|k: int| 0 <= k < rest.len() && rest[k] == c;
                    assert(out[k + 1] == c);
                }
            }
        }
        out
    }
}

proof fn lemma_offered_prefix(rows: Seq<Seq<CellView>>, i: int) -> (names: Seq<Seq<char>>)
    requires
        0 <= i <= rows.len(),
    ensures
        strictly_sorted(names),
        forall|c: Seq<char>| #[trigger] names.contains(c) <==> exists|k: int|
            0 <= k < i && class_hit(c, #[trigger] rows[k]),
    decreases i,
{
    if i == 0 {
        let names = Seq::<Seq<char>>::empty();
        assert forall|c: Seq<char>| #[trigger] names.contains(c) <==> exists|k: int|
            0 <= k < i && class_hit(c, #[trigger] rows[k]) by {}
        names
    } else {
        let prev = lemma_offered_prefix(rows, i - 1);
        let x = cell_text(rows[i - 1], 1);
        let public = cell_text(rows[i - 1], 4) != "Member"@;
        let names = if public {
            lemma_sorted_insert(prev, x)
        } else {
            prev
        };
        assert forall|c: Seq<char>| #[trigger] names.contains(c) <==> exists|k: int|
            0 <= k < i && class_hit(c, #[trigger] rows[k]) by {
            if names.contains(c) {
                if prev.contains(c) {
                    let k = choose|k: int| 0 <= k < i - 1 && class_hit(c, #[trigger] rows[k]);
                    assert(0 <= k < i);
                } else {
                    assert(class_hit(c, rows[i - 1]));
                }
            }
            if exists|k: int| 0 <= k < i && class_hit(c, #[trigger] rows[k]) {
                let k = choose|k: int| 0 <= k < i && class_hit(c, #[trigger] rows[k]);
                if k < i - 1 {
                    assert(prev.contains(c));
                }
            }
        }
        names
    }
}

/// `sorted_offered_classes` is what its name says: strictly increasing, and holding
/// exactly the classes that some row offers to the public.
pub proof fn lemma_sorted_offered_classes(rows: Seq<Seq<CellView>>)
    ensures
        strictly_sorted(sorted_offered_classes(rows)),
        forall|c: Seq<char>| #[trigger]
            sorted_offered_classes(rows).contains(c) <==> offered_class(rows, c),
{
    let names = lemma_offered_prefix(rows, rows.len() as int);
    lemma_is_sorted_offered_classes(rows, names);
}

} // verus!
