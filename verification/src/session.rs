use vstd::prelude::*;
use vstd::string::*;
use crate::book_type::BookType;
use crate::booking::{BookGym, GymStage, book_gym, gym_next};
use crate::clock::{
    BookWait, WaitStage, HOUR_MINUTE_FORMAT, NANOS_PER_DAY, NANOS_PER_MILLI, hour_minute_of, local_time_of_day, parse_hour_minute,
    sleep_until_book_time, time_of_day, wait_accepts, wait_next,
};
use crate::book_type::{NANOS_PER_HOUR, NANOS_PER_MINUTE};
use crate::protocol::{
    Action, ActionView, Event, EventView, Step, StepView, act, act_with_note, fetch_error_message,
    fetch_error_text, quiet,
};
use crate::row::{BookingRow, LINK_CSS, cell_text, row_book_url, row_readable};
use crate::scrape::{CellView, scraped_table};
use crate::table::{
    BookingTable, SlotStatus, TableFault, first_short_row, invalid_selector_text, lemma_is_sorted_offered_classes,
    lemma_sorted_offered_classes, strictly_sorted,
    class_hit, opt_str, rows_of_cells, scan_class, scan_timeslot, slot_from, slot_status, timeslot_hit,
    sorted_offered_classes, timeslots_from,
};
use crate::text::{decimal, to_decimal};

verus! {

/// The line written when the slot is listed but cannot be booked yet.
pub const LINK_NOTE: &'static str = "Booking link not available. Trying again...";
/// The lines written when the slot can be booked.
pub const FOUND_NOTE: &'static str = "Found time slot.\nTrying to book...";

/// `list` joined with `sep` between each two.
pub open spec fn seq_join(list: Seq<Seq<char>>, sep: Seq<char>) -> Seq<char>
    decreases list.len(),
{
    if list.len() == 0 {
        Seq::empty()
    } else if list.len() == 1 {
        list[0]
    } else {
        seq_join(list.drop_last(), sep) + sep + list.last()
    }
}

/// `list` joined with `sep` between each two.
pub fn join_names(list: &Vec<String>, sep: &str) -> (joined: String)
    ensures
        joined@ == seq_join(list.deep_view(), sep@),
{
    let ghost v = list.deep_view();
    let mut joined = String::new();
    let n = list.len();
    let mut i: usize = 0;
    while i < n
        invariant
            n == list.len(),
            i <= n,
            v == list.deep_view(),
            joined@ == seq_join(v.take(i as int), sep@),
        decreases n - i,
    {
        let ghost before = joined@;
        assert(v.take(i + 1).drop_last() =~= v.take(i as int));
        assert(v.take(i + 1).last() == list[i as int]@);
        if i != 0 {
            joined.append(sep);
        } else {
            assert(v.take(0) =~= Seq::<Seq<char>>::empty());
        }
        joined.append(list[i].as_str());
        proof {
            if i == 0 {
                assert(joined@ =~= list[0]@);
            }
        }
        i = i + 1;
    }
    assert(v.take(n as int) =~= v);
    joined
}

/// The message with which the run stops when the table cannot answer; `listing`
/// tells whether a list was being made.
pub open spec fn fault_text(f: TableFault, listing: bool) -> Seq<char> {
    match f {
        TableFault::NotLoaded => "Html is not load. Call `BookingTable::load_html`."@,
        TableFault::ShortRow(n) => "index out of bounds: the len is "@ + decimal(n as nat)
            + " but the index is "@ + decimal(n as nat),
        TableFault::NoClassName => if listing {
            "Expected  Some(&str) but found None"@
        } else {
            "Expected Some(&str) but found `None`"@
        },
    }
}

/// The message with which the run stops when the table cannot answer.
pub fn fault_message(f: TableFault, listing: bool) -> (msg: String)
    ensures
        msg@ == fault_text(f, listing),
{
    match f {
        TableFault::NotLoaded => String::from_str("Html is not load. Call `BookingTable::load_html`."),
        TableFault::ShortRow(n) => {
            let digits = to_decimal(n as u64);
            let mut msg = String::from_str("index out of bounds: the len is ");
            msg.append(digits.as_str());
            msg.append(" but the index is ");
            msg.append(digits.as_str());
            msg
        },
        TableFault::NoClassName => if listing {
            String::from_str("Expected  Some(&str) but found None")
        } else {
            String::from_str("Expected Some(&str) but found `None`")
        },
    }
}

/// The answer to a class that is not offered, with the classes that are.
pub open spec fn class_error_text(c: Seq<char>, valid: Seq<Seq<char>>) -> Seq<char> {
    "Class '"@ + c + "' is not a valid class.\n"@ + if valid.len() > 0 {
        "Valid classes: "@ + seq_join(valid, ", "@)
    } else {
        "Too late idiot! No more available classes today."@
    }
}

/// The answer to a time that is not a slot, with the times that are.
pub open spec fn timeslot_error_text(time: Seq<char>, valid: Seq<Seq<char>>) -> Seq<char> {
    "Time '"@ + time + "' is not a valid time slot.\n"@ + if valid.len() > 0 {
        "Valid time slots: "@ + seq_join(valid, ", "@)
    } else {
        "Too late idiot! No more available time slots today."@
    }
}

/// The answer to a class that is not offered, with the classes that are.
pub fn class_error_message(c: &str, valid: &Vec<String>) -> (msg: String)
    ensures
        msg@ == class_error_text(c@, valid.deep_view()),
{
    let mut msg = String::from_str("Class '");
    msg.append(c);
    msg.append("' is not a valid class.\n");
    if valid.len() > 0 {
        msg.append("Valid classes: ");
        let joined = join_names(valid, ", ");
        msg.append(joined.as_str());
    } else {
        msg.append("Too late idiot! No more available classes today.");
    }
    msg
}

/// The answer to a time that is not a slot, with the times that are.
pub fn timeslot_error_message(time: &str, valid: &Vec<String>) -> (msg: String)
    ensures
        msg@ == timeslot_error_text(time@, valid.deep_view()),
{
    let mut msg = String::from_str("Time '");
    msg.append(time);
    msg.append("' is not a valid time slot.\n");
    if valid.len() > 0 {
        msg.append("Valid time slots: ");
        let joined = join_names(valid, ", ");
        msg.append(joined.as_str());
    } else {
        msg.append("Too late idiot! No more available time slots today.");
    }
    msg
}

/// What the rows of a page say of the slot at a given time, as views.
pub enum SlotView {
    NoRows,
    NotListed,
    Full,
    LinkUnavailable,
    Bookable(Seq<char>),
}

/// Whether a row, read from its cells, is the slot asked for: its time is `time`
/// and, when a class is named, its class is that class.
pub open spec fn cells_are_slot(cells: Seq<CellView>, time: Seq<char>, class: Option<Seq<char>>) -> bool {
    &&& cell_text(cells, 0) == time
    &&& match class {
        Some(c) => cell_text(cells, 1) == c,
        None => true,
    }
}

/// What the rows from the `i`-th on say of the slot at `time` (of the class `class`,
/// when one is named), read from their cells.
pub open spec fn cells_slot_from(
    cells: Seq<Seq<CellView>>,
    i: int,
    time: Seq<char>,
    class: Option<Seq<char>>,
) -> SlotView
    decreases cells.len() - i,
{
    if i < 0 || i >= cells.len() {
        SlotView::NotListed
    } else if !cells_are_slot(cells[i], time, class) {
        cells_slot_from(cells, i + 1, time, class)
    } else if cell_text(cells[i], 5) == "Full"@ {
        SlotView::Full
    } else if cell_text(cells[i], 5).len() == 0 || row_book_url(cells[i]).len() == 0 {
        SlotView::LinkUnavailable
    } else {
        SlotView::Bookable(row_book_url(cells[i]))
    }
}

/// What the rows of a page say of the slot at `time` (of the class `class`, when
/// one is named).
pub open spec fn cells_slot(cells: Seq<Seq<CellView>>, time: Seq<char>, class: Option<Seq<char>>) -> SlotView {
    if cells.len() == 0 {
        SlotView::NoRows
    } else {
        cells_slot_from(cells, 0, time, class)
    }
}

pub open spec fn slot_view(s: SlotStatus) -> SlotView {
    match s {
        SlotStatus::NoRows => SlotView::NoRows,
        SlotStatus::NotListed => SlotView::NotListed,
        SlotStatus::Full => SlotView::Full,
        SlotStatus::LinkUnavailable => SlotView::LinkUnavailable,
        SlotStatus::Bookable(u) => SlotView::Bookable(u@),
    }
}

proof fn lemma_slot_of_cells(
    rows: Seq<BookingRow>,
    cells: Seq<Seq<CellView>>,
    i: int,
    time: Seq<char>,
    class: Option<Seq<char>>,
)
    requires
        rows_of_cells(rows, cells),
        0 <= i,
    ensures
        slot_view(slot_from(rows, i, time, class)) == cells_slot_from(cells, i, time, class),
    decreases rows.len() - i,
{
    if i < rows.len() {
        assert(rows[i].of_cells(cells[i]));
        lemma_slot_of_cells(rows, cells, i + 1, time, class);
    }
}

/// Where a booking run stands.
#[derive(Debug, Clone, Copy, PartialEq, Eq, Structural)]
pub enum SessionStage {
    /// The table's page was asked for.
    LoadTable,
    /// Waiting for the slot to open.
    Waiting,
    /// The table's page was asked for again, to find the booking link.
    Reload,
    /// The slot is being booked.
    Booking,
    /// The run is over.
    Done,
}

/// A run that books the slot at `time` for the member `id`.
pub struct Session {
    pub time: String,
    pub id: String,
    /// The slot's time of day, in nanoseconds since midnight.
    pub timeslot: i128,
    pub table: BookingTable,
    pub booking_enabled: bool,
    pub stage: SessionStage,
    pub wait: BookWait,
    pub gym: BookGym,
}

/// Whether the page just loaded stops the run before waiting, and how: a class
/// that is not offered, a time that is not a slot, or a table that cannot answer.
pub open spec fn load_verdict(
    rows: Seq<Seq<CellView>>,
    book_type: BookType,
    book_class: Option<Seq<char>>,
    time: Seq<char>,
) -> Option<StepView> {
    let class_stop: Option<StepView> = match book_class {
        None => None,
        Some(c) => match scan_class(rows, 0, c) {
            Err(f) => Some(StepView::Abort(fault_text(f, false), None)),
            Ok(true) => None,
            Ok(false) => match first_short_row(rows, 0) {
                Some(l) => Some(StepView::Abort(fault_text(TableFault::ShortRow(l as usize), true), None)),
                None => Some(StepView::Finish(Err(class_error_text(c, sorted_offered_classes(rows))))),
            },
        },
    };
    match class_stop {
        Some(st) => Some(st),
        None => match scan_timeslot(rows, 0, book_type, book_class, time) {
            Err(f) => Some(StepView::Abort(fault_text(f, false), None)),
            Ok(true) => None,
            Ok(false) => match timeslots_from(rows, 0, book_type, book_class) {
                Err(f) => Some(StepView::Abort(fault_text(f, true), None)),
                Ok(list) => Some(StepView::Finish(Err(timeslot_error_text(time, list)))),
            },
        },
    }
}

impl Session {
    pub open spec fn url(self) -> Seq<char> {
        self.table.book_type.spec_url()
    }

    pub open spec fn class_view(self) -> Option<Seq<char>> {
        match self.table.book_class {
            Some(c) => Some(c@),
            None => None,
        }
    }

    /// The bounds and links between the parts that every run keeps.
    pub open spec fn well_formed(self) -> bool {
        &&& 0 <= self.timeslot < NANOS_PER_DAY
        &&& self.wait.well_formed()
        &&& self.stage == SessionStage::Waiting ==> self.wait.stage != WaitStage::Done
        &&& self.stage == SessionStage::Booking ==> self.gym.stage != GymStage::Done
    }

    /// The events that the run takes in its stage.
    pub open spec fn accepts(self, e: EventView) -> bool {
        match self.stage {
            SessionStage::LoadTable | SessionStage::Reload | SessionStage::Booking => e is Page,
            SessionStage::Waiting => wait_accepts(self.wait.stage, e),
            SessionStage::Done => false,
        }
    }
}

/// The run after `s` took in the event `e` is `t`, and it asks for `a`.
pub open spec fn session_moves(s: Session, t: Session, e: EventView, a: ActionView) -> bool {
    &&& t.time == s.time
    &&& t.id == s.id
    &&& t.timeslot == s.timeslot
    &&& t.booking_enabled == s.booking_enabled
    &&& t.table.table_css_selector == s.table.table_css_selector
    &&& t.table.book_type == s.table.book_type
    &&& t.table.book_class == s.table.book_class
    &&& match (s.stage, e) {
        (SessionStage::LoadTable, EventView::Page(Err(f))) => t.stage == SessionStage::Done && a
            == quiet(StepView::Finish(Err(fetch_error_text(s.url(), f)))),
        (SessionStage::LoadTable, EventView::Page(Ok(body))) => match scraped_table(
            body,
            s.table.table_css_selector@,
            LINK_CSS@,
        ) {
            None => t.stage == SessionStage::Done && a == quiet(
                StepView::Finish(Err(invalid_selector_text(s.table.table_css_selector@))),
            ),
            Some(rows) => t.table.rows_view() == Some(rows) && match load_verdict(
                rows,
                s.table.book_type,
                s.class_view(),
                s.time@,
            ) {
                Some(step) => t.stage == SessionStage::Done && a == quiet(step),
                None => {
                    &&& t.stage == SessionStage::Waiting
                    &&& t.wait.timeslot == s.timeslot
                    &&& t.wait.open == s.table.book_type.spec_open_time()
                    &&& t.wait.stage == WaitStage::ClockForWait
                    &&& a == quiet(StepView::ReadClock)
                },
            },
        },
        (SessionStage::Waiting, e) => {
            let (ws, wa) = wait_next(s.wait.stage, s.wait.timeslot as int, s.wait.open as int, e);
            &&& t.table.rows == s.table.rows
            &&& t.wait.timeslot == s.wait.timeslot
            &&& t.wait.open == s.wait.open
            &&& t.wait.stage == ws
            &&& match wa {
                Some(x) => a == x && t.stage == (if ws == WaitStage::Done {
                    SessionStage::Done
                } else {
                    SessionStage::Waiting
                }),
                None => t.stage == SessionStage::Reload && a == quiet(StepView::Fetch(s.url())),
            }
        },
        (SessionStage::Reload, EventView::Page(Err(f))) => t.stage == SessionStage::Done && a
            == quiet(StepView::Finish(Err(fetch_error_text(s.url(), f)))),
        (SessionStage::Reload, EventView::Page(Ok(body))) => match scraped_table(
            body,
            s.table.table_css_selector@,
            LINK_CSS@,
        ) {
            None => t.stage == SessionStage::Done && a == quiet(
                StepView::Finish(Err(invalid_selector_text(s.table.table_css_selector@))),
            ),
            Some(rows) => t.table.rows_view() == Some(rows) && match first_short_row(rows, 0) {
                Some(l) => t.stage == SessionStage::Done && a == quiet(
                    StepView::Abort(fault_text(TableFault::ShortRow(l as usize), false), None),
                ),
                None => match cells_slot(rows, s.time@, s.class_view()) {
                    SlotView::NoRows => t.stage == SessionStage::Done && a == quiet(
                        StepView::Finish(Err("Unreachable (or not)! No rows found in book tabl!"@)),
                    ),
                    SlotView::Full => t.stage == SessionStage::Done && a == quiet(
                        StepView::Finish(
                            Err("The requested timeslot is Full! Next time pray to kapakoulak!"@),
                        ),
                    ),
                    SlotView::LinkUnavailable => t.stage == SessionStage::Reload && a
                        == ActionView { notes: seq![LINK_NOTE@], step: StepView::Fetch(s.url()) },
                    SlotView::NotListed => t.stage == SessionStage::Reload && a == quiet(
                        StepView::Fetch(s.url()),
                    ),
                    SlotView::Bookable(u) => {
                        &&& t.stage == SessionStage::Booking
                        &&& t.gym.stage == GymStage::FormPage
                        &&& t.gym.url@ == u
                        &&& t.gym.id@ == s.id@
                        &&& t.gym.booking_enabled == s.booking_enabled
                        &&& a == ActionView { notes: seq![FOUND_NOTE@], step: StepView::Fetch(u) }
                    },
                },
            },
        },
        (SessionStage::Booking, EventView::Page(p)) => {
            let (gs, gu, ga) = gym_next(
                s.gym.stage,
                s.gym.url@,
                s.gym.id@,
                s.gym.booking_enabled,
                p,
            );
            &&& t.table.rows == s.table.rows
            &&& t.gym.stage == gs
            &&& t.gym.url@ == gu
            &&& t.gym.id == s.gym.id
            &&& t.gym.booking_enabled == s.gym.booking_enabled
            &&& a == ga
            &&& t.stage == (if gs == GymStage::Done {
                SessionStage::Done
            } else {
                SessionStage::Booking
            })
        },
        _ => false,
    }
}

/// Starts a run that books the slot at `time` (`HH:MM`) for the member `id`, in
/// the class `classname` or, without one, in the gym; the confirmation is sent
/// only when `booking_enabled`. The first thing is to fetch the table's page,
/// unless the time does not parse.
pub fn main_loop(time: &str, id: &str, classname: Option<&str>, booking_enabled: bool) -> (res: (
    Session,
    Action,
))
    ensures
        res.0.well_formed(),
        res.0.time@ == time@,
        res.0.id@ == id@,
        res.0.booking_enabled == booking_enabled,
        res.0.table.rows is None,
        res.0.table.table_css_selector@ == crate::table::TABLE_CSS@,
        res.0.table.book_type == (if classname is Some {
            BookType::Classes
        } else {
            BookType::Gym
        }),
        res.0.class_view() == opt_str(classname),
        match hour_minute_of(time@) {
            None => res.0.stage == SessionStage::Done && res.1.deep_view() == quiet(
                StepView::Finish(Err("Cannot parse time '"@ + time@ + "'."@)),
            ),
            Some((h, m)) => {
                &&& res.0.stage == SessionStage::LoadTable
                &&& res.0.timeslot == time_of_day(h, m)
                &&& res.1.deep_view() == quiet(StepView::Fetch(res.0.url()))
            },
        },
{
    let table = BookingTable::new(classname);
    let (wait, _) = sleep_until_book_time(&table, 0);
    let (mut gym, _) = book_gym("", id, booking_enabled);
    gym.stage = GymStage::Done;
    let parsed = parse_hour_minute(time, HOUR_MINUTE_FORMAT);
    let (stage, timeslot, action) = match parsed {
        None => {
            let mut msg = String::from_str("Cannot parse time '");
            msg.append(time);
            msg.append("'.");
            (SessionStage::Done, 0i128, act(Step::Finish(Err(msg))))
        },
        Some((h, m)) => {
            let url = String::from_str(table.book_type.get_url());
            (
                SessionStage::LoadTable,
                (h as i128) * NANOS_PER_HOUR + (m as i128) * NANOS_PER_MINUTE,
                act(Step::Fetch(url)),
            )
        },
    };
    let session = Session {
        time: time.to_owned(),
        id: id.to_owned(),
        timeslot,
        table,
        booking_enabled,
        stage,
        wait,
        gym,
    };
    (session, action)
}

impl Session {
    fn finish(&mut self, action: Action) -> (a: Action)
        ensures
            *final(self) == (Session { stage: SessionStage::Done, ..*old(self) }),
            a == action,
    {
        self.stage = SessionStage::Done;
        action
    }

    /// The table's page has come: check the class and the time, then wait.
    fn on_table_page(&mut self, body: &str) -> (a: Action)
        requires
            old(self).stage == SessionStage::LoadTable,
            old(self).well_formed(),
        ensures
            final(self).well_formed(),
            session_moves(*old(self), *final(self), EventView::Page(Ok(body@)), a.deep_view()),
    {
        match self.table.load_html(body) {
            Err(msg) => return self.finish(act(Step::Finish(Err(msg)))),
            Ok(()) => {},
        }
        let ghost rows = self.table.rows_view().unwrap();
        let class: Option<String> = match &self.table.book_class {
            Some(c) => Some(c.clone()),
            None => None,
        };
        match &class {
            Some(c) => match self.table.try_is_valid_class(c.as_str()) {
                Err(f) => return self.finish(act(Step::Abort(fault_message(f, false), None))),
                Ok(true) => {},
                Ok(false) => match self.table.try_get_valid_classes() {
                    Err(f) => return self.finish(act(Step::Abort(fault_message(f, true), None))),
                    Ok(valid) => {
                        proof {
                            lemma_is_sorted_offered_classes(rows, valid.deep_view());
                        }
                        let msg = class_error_message(c.as_str(), &valid);
                        return self.finish(act(Step::Finish(Err(msg))));
                    },
                },
            },
            None => {},
        }
        let cn: Option<&str> = match &class {
            Some(c) => Some(c.as_str()),
            None => None,
        };
        assert(opt_str(cn) == self.class_view());
        match self.table.try_is_valid_timeslot(self.time.as_str(), cn) {
            Err(f) => return self.finish(act(Step::Abort(fault_message(f, false), None))),
            Ok(true) => {},
            Ok(false) => match self.table.try_get_valid_timeslots(cn) {
                Err(f) => return self.finish(act(Step::Abort(fault_message(f, true), None))),
                Ok(valid) => {
                    let msg = timeslot_error_message(self.time.as_str(), &valid);
                    return self.finish(act(Step::Finish(Err(msg))));
                },
            },
        }
        let (wait, a) = sleep_until_book_time(&self.table, self.timeslot);
        self.wait = wait;
        self.stage = SessionStage::Waiting;
        a
    }

    /// The table's page has come again: book the slot once it can be booked.
    fn on_reloaded_page(&mut self, body: &str) -> (a: Action)
        requires
            old(self).stage == SessionStage::Reload,
            old(self).well_formed(),
        ensures
            final(self).well_formed(),
            session_moves(*old(self), *final(self), EventView::Page(Ok(body@)), a.deep_view()),
    {
        match self.table.reload_html(body) {
            Err(msg) => return self.finish(act(Step::Finish(Err(msg)))),
            Ok(()) => {},
        }
        let ghost cells = self.table.rows_view().unwrap();
        let rows = match self.table.read_rows() {
            Err(f) => return self.finish(act(Step::Abort(fault_message(f, false), None))),
            Ok(rows) => rows,
        };
        let status = match &self.table.book_class {
            Some(c) => slot_status(&rows, self.time.as_str(), Some(c.as_str())),
            None => slot_status(&rows, self.time.as_str(), None),
        };
        proof {
            lemma_slot_of_cells(rows@, cells, 0, self.time@, self.class_view());
        }
        let url = String::from_str(self.table.book_type.get_url());
        match status {
            SlotStatus::NoRows => self.finish(act(Step::Finish(Err(String::from_str("Unreachable (or not)! No rows found in book tabl!"))))),
            SlotStatus::Full => self.finish(act(Step::Finish(Err(String::from_str("The requested timeslot is Full! Next time pray to kapakoulak!"))))),
            SlotStatus::LinkUnavailable => act_with_note(String::from_str(LINK_NOTE), Step::Fetch(url)),
            SlotStatus::NotListed => act(Step::Fetch(url)),
            SlotStatus::Bookable(book_url) => {
                let (gym, first) = book_gym(book_url.as_str(), self.id.as_str(), self.booking_enabled);
                self.gym = gym;
                self.stage = SessionStage::Booking;
                let step = first.step;
                act_with_note(String::from_str(FOUND_NOTE), step)
            },
        }
    }

    /// Takes in the event that the last action brought and says what to do next.
    pub fn step(&mut self, e: Event) -> (a: Action)
        requires
            old(self).well_formed(),
            old(self).accepts(e.deep_view()),
        ensures
            final(self).well_formed(),
            session_moves(*old(self), *final(self), e.deep_view(), a.deep_view()),
    {
        match self.stage {
            SessionStage::LoadTable => match e {
                Event::Page(Ok(body)) => self.on_table_page(body.as_str()),
                Event::Page(Err(f)) => {
                    let msg = fetch_error_message(self.table.book_type.get_url(), f);
                    self.finish(act(Step::Finish(Err(msg))))
                },
                _ => self.finish(act(Step::Finish(Ok(())))),
            },
            SessionStage::Reload => match e {
                Event::Page(Ok(body)) => self.on_reloaded_page(body.as_str()),
                Event::Page(Err(f)) => {
                    let msg = fetch_error_message(self.table.book_type.get_url(), f);
                    self.finish(act(Step::Finish(Err(msg))))
                },
                _ => self.finish(act(Step::Finish(Ok(())))),
            },
            SessionStage::Waiting => match self.wait.step(e) {
                Some(a) => {
                    if self.wait.stage == WaitStage::Done {
                        self.stage = SessionStage::Done;
                    }
                    a
                },
                None => {
                    self.stage = SessionStage::Reload;
                    act(Step::Fetch(String::from_str(self.table.book_type.get_url())))
                },
            },
            SessionStage::Booking => match e {
                Event::Page(p) => {
                    let a = self.gym.step(p);
                    if self.gym.stage == GymStage::Done {
                        self.stage = SessionStage::Done;
                    }
                    a
                },
                _ => self.finish(act(Step::Finish(Ok(())))),
            },
            SessionStage::Done => act(Step::Finish(Ok(()))),
        }
    }
}

/// A run ends in success only when the booking's confirmation page has come.
pub proof fn lemma_success_only_when_confirmed(s: Session, t: Session, e: EventView, a: ActionView)
    requires
        s.well_formed(),
        s.accepts(e),
        session_moves(s, t, e, a),
    ensures
        a.step == StepView::Finish(Ok(())) ==> s.stage == SessionStage::Booking && s.gym.stage
            == GymStage::ConfirmPage,
{
}

/// A run starts looking for the booking link only when the slot has opened: either
/// the first clock reading already showed the opening time (less a millisecond)
/// passed, or the waiting loop's reading reached its target.
pub proof fn lemma_looks_only_after_opening(s: Session, t: Session, e: EventView, a: ActionView)
    requires
        s.well_formed(),
        s.accepts(e),
        session_moves(s, t, e, a),
        s.stage == SessionStage::Waiting,
        t.stage == SessionStage::Reload,
    ensures
        e matches EventView::Clock(now) && match s.wait.stage {
            WaitStage::ClockForWait => local_time_of_day(now) matches Some(tod) && s.wait.timeslot
                - tod - s.wait.open + NANOS_PER_MILLI <= 0,
            WaitStage::Waiting(target, _) => now >= target,
            _ => false,
        },
{
}

proof fn lemma_bookable_row(cells: Seq<Seq<CellView>>, i: int, time: Seq<char>, class: Option<Seq<char>>)
    requires
        0 <= i,
    ensures
        cells_slot_from(cells, i, time, class) matches SlotView::Bookable(u) ==> exists|k: int|
            i <= k < cells.len() && cells_are_slot(#[trigger] cells[k], time, class) && row_book_url(
                cells[k],
            ) == u && cell_text(cells[k], 5) != "Full"@,
    decreases cells.len() - i,
{
    if i < cells.len() && !cells_are_slot(cells[i], time, class) {
        lemma_bookable_row(cells, i + 1, time, class);
    }
}

/// A run books only the slot asked for, for the member asked for: the booking
/// starts at the link of a row of the reloaded table that has the time asked for,
/// the class asked for when one was named, and is not full.
pub proof fn lemma_books_only_the_requested_slot(
    s: Session,
    t: Session,
    body: Seq<char>,
    a: ActionView,
)
    requires
        s.well_formed(),
        s.stage == SessionStage::Reload,
        session_moves(s, t, EventView::Page(Ok(body)), a),
        t.stage == SessionStage::Booking,
    ensures
        t.gym.id@ == s.id@,
        scraped_table(body, s.table.table_css_selector@, LINK_CSS@) matches Some(rows) && exists|
            k: int,
        |
            0 <= k < rows.len() && cell_text(#[trigger] rows[k], 0) == s.time@ && (s.class_view() matches Some(c) ==> cell_text(rows[k], 1) == c) && row_book_url(
                rows[k],
            ) == t.gym.url@ && cell_text(rows[k], 5) != "Full"@,
{
    match scraped_table(body, s.table.table_css_selector@, LINK_CSS@) {
        Some(rows) => {
            lemma_bookable_row(rows, 0, s.time@, s.class_view());
        },
        None => {},
    }
}

proof fn lemma_all_readable(rows: Seq<Seq<CellView>>, i: int)
    requires
        0 <= i,
        forall|k: int| i <= k < rows.len() ==> row_readable(#[trigger] rows[k]),
    ensures
        first_short_row(rows, i) is None,
    decreases rows.len() - i,
{
    if i < rows.len() {
        lemma_all_readable(rows, i + 1);
    }
}

proof fn lemma_scan_class_found(rows: Seq<Seq<CellView>>, i: int, c: Seq<char>)
    requires
        0 <= i,
    ensures
        scan_class(rows, i, c) == Ok::<bool, TableFault>(true) ==> exists|k: int|
            i <= k < rows.len() && row_readable(#[trigger] rows[k]) && class_hit(c, rows[k]),
        (forall|k: int| i <= k < rows.len() ==> row_readable(#[trigger] rows[k])) && (exists|k: int|
            i <= k < rows.len() && class_hit(c, #[trigger] rows[k])) ==> scan_class(rows, i, c)
            == Ok::<bool, TableFault>(true),
    decreases rows.len() - i,
{
    if i < rows.len() {
        lemma_scan_class_found(rows, i + 1, c);
        if scan_class(rows, i, c) == Ok::<bool, TableFault>(true) && row_readable(rows[i]) && class_hit(c, rows[i]) {
            assert(i <= i < rows.len() && row_readable(rows[i]) && class_hit(c, rows[i]));
        }
        if (forall|k: int| i <= k < rows.len() ==> row_readable(#[trigger] rows[k])) && (exists|k: int|
            i <= k < rows.len() && class_hit(c, #[trigger] rows[k])) {
            let k = choose|k: int| i <= k < rows.len() && class_hit(c, #[trigger] rows[k]);
            assert(row_readable(rows[i]));
            if !class_hit(c, rows[i]) {
                assert(k != i);
                assert(i + 1 <= k < rows.len() && class_hit(c, rows[k]));
                assert forall|j: int| i + 1 <= j < rows.len() implies row_readable(#[trigger] rows[j]) by {
                    assert(i <= j < rows.len());
                }
            }
        }
    }
}

proof fn lemma_scan_timeslot_found(
    rows: Seq<Seq<CellView>>,
    i: int,
    book_type: BookType,
    class: Option<Seq<char>>,
    time: Seq<char>,
)
    requires
        0 <= i,
    ensures
        scan_timeslot(rows, i, book_type, class, time) == Ok::<bool, TableFault>(true) ==> exists|
            k: int,
        | i <= k < rows.len() && row_readable(#[trigger] rows[k]) && timeslot_hit(book_type, class, time, rows[k])
            == Ok::<bool, TableFault>(true),
        (forall|k: int| i <= k < rows.len() ==> row_readable(#[trigger] rows[k])) && (exists|k: int|
            i <= k < rows.len() && timeslot_hit(book_type, class, time, #[trigger] rows[k])
                == Ok::<bool, TableFault>(true)) ==> scan_timeslot(rows, i, book_type, class, time)
            == Ok::<bool, TableFault>(true),
    decreases rows.len() - i,
{
    if i < rows.len() {
        lemma_scan_timeslot_found(rows, i + 1, book_type, class, time);
        if (forall|k: int| i <= k < rows.len() ==> row_readable(#[trigger] rows[k])) && (exists|k: int|
            i <= k < rows.len() && timeslot_hit(book_type, class, time, #[trigger] rows[k])
                == Ok::<bool, TableFault>(true)) {
            let k = choose|k: int|
                i <= k < rows.len() && timeslot_hit(book_type, class, time, #[trigger] rows[k])
                    == Ok::<bool, TableFault>(true);
            assert(row_readable(rows[i]));
            if timeslot_hit(book_type, class, time, rows[i]) != Ok::<bool, TableFault>(true) {
                assert(k != i);
                assert(i + 1 <= k < rows.len());
                assert forall|j: int| i + 1 <= j < rows.len() implies row_readable(#[trigger] rows[j]) by {
                    assert(i <= j < rows.len());
                }
            }
        }
    }
}

/// A run goes on to wait for its slot only when the table it loaded offers that slot:
/// for the gym, some row has the time asked for; for a class, some row of that class
/// is open to the public (its type is not "Member"), and some row has both that
/// class and the time asked for.
pub proof fn lemma_waits_only_for_an_offered_slot(
    s: Session,
    t: Session,
    body: Seq<char>,
    a: ActionView,
)
    requires
        s.well_formed(),
        s.stage == SessionStage::LoadTable,
        session_moves(s, t, EventView::Page(Ok(body)), a),
        t.stage == SessionStage::Waiting,
    ensures
        scraped_table(body, s.table.table_css_selector@, LINK_CSS@) matches Some(rows) && {
            &&& (s.class_view() matches Some(c) ==> exists|k: int|
                0 <= k < rows.len() && row_readable(#[trigger] rows[k]) && cell_text(rows[k], 1) == c
                    && cell_text(rows[k], 4) != "Member"@)
            &&& match s.table.book_type {
                BookType::Gym => exists|k: int|
                    0 <= k < rows.len() && row_readable(#[trigger] rows[k]) && cell_text(rows[k], 0)
                        == s.time@,
                BookType::Classes => s.class_view() matches Some(c) && exists|k: int|
                    0 <= k < rows.len() && row_readable(#[trigger] rows[k]) && cell_text(rows[k], 0)
                        == s.time@ && cell_text(rows[k], 1) == c,
            }
        },
{
    match scraped_table(body, s.table.table_css_selector@, LINK_CSS@) {
        Some(rows) => {
            match s.class_view() {
                Some(c) => {
                    lemma_scan_class_found(rows, 0, c);
                },
                None => {},
            }
            lemma_scan_timeslot_found(rows, 0, s.table.book_type, s.class_view(), s.time@);
        },
        None => {},
    }
}

/// When every row of the loaded table can be read, a gym run whose time some row
/// has, and a class run whose class some row offers to the public and whose time some
/// row of that class has, go on to wait for the slot, starting with a clock reading.
pub proof fn lemma_waits_for_an_offered_slot(s: Session, t: Session, body: Seq<char>, a: ActionView)
    requires
        s.well_formed(),
        s.stage == SessionStage::LoadTable,
        session_moves(s, t, EventView::Page(Ok(body)), a),
        scraped_table(body, s.table.table_css_selector@, LINK_CSS@) matches Some(rows) && (forall|
            k: int,
        | 0 <= k < rows.len() ==> row_readable(#[trigger] rows[k])) && match s.class_view() {
            None => s.table.book_type == BookType::Gym && exists|k: int|
                0 <= k < rows.len() && cell_text(#[trigger] rows[k], 0) == s.time@,
            Some(c) => {
                &&& s.table.book_type == BookType::Classes
                &&& exists|k: int|
                    0 <= k < rows.len() && cell_text(#[trigger] rows[k], 1) == c && cell_text(rows[k], 4)
                        != "Member"@
                &&& exists|k: int|
                    0 <= k < rows.len() && cell_text(#[trigger] rows[k], 0) == s.time@ && cell_text(
                        rows[k],
                        1,
                    ) == c
            },
        },
    ensures
        t.stage == SessionStage::Waiting,
        a == quiet(StepView::ReadClock),
{
    let rows = scraped_table(body, s.table.table_css_selector@, LINK_CSS@).unwrap();
    lemma_all_readable(rows, 0);
    match s.class_view() {
        Some(c) => {
            lemma_scan_class_found(rows, 0, c);
            let k = choose|k: int| 0 <= k < rows.len() && cell_text(#[trigger] rows[k], 1) == c && cell_text(rows[k], 4) != "Member"@;
            assert(class_hit(c, rows[k]));
            let j = choose|j: int| 0 <= j < rows.len() && cell_text(#[trigger] rows[j], 0) == s.time@ && cell_text(rows[j], 1) == c;
            assert(timeslot_hit(s.table.book_type, s.class_view(), s.time@, rows[j]) == Ok::<bool, TableFault>(true));
        },
        None => {
            let j = choose|j: int| 0 <= j < rows.len() && cell_text(#[trigger] rows[j], 0) == s.time@;
            assert(timeslot_hit(s.table.book_type, s.class_view(), s.time@, rows[j]) == Ok::<bool, TableFault>(true));
        },
    }
    lemma_scan_timeslot_found(rows, 0, s.table.book_type, s.class_view(), s.time@);
}

proof fn lemma_readable_scans(rows: Seq<Seq<CellView>>, i: int, book_type: BookType, class: Option<Seq<char>>, time: Seq<char>)
    requires
        0 <= i,
        forall|k: int| i <= k < rows.len() ==> row_readable(#[trigger] rows[k]),
        book_type == BookType::Gym || class is Some,
    ensures
        scan_timeslot(rows, i, book_type, class, time) is Ok,
        forall|c: Seq<char>| #[trigger] scan_class(rows, i, c) is Ok,
        timeslots_from(rows, i, book_type, class) matches Ok(l) && forall|x: Seq<char>| #[trigger]
            l.contains(x) <==> exists|k: int|
                i <= k < rows.len() && timeslot_hit(book_type, class, x, #[trigger] rows[k])
                    == Ok::<bool, TableFault>(true),
    decreases rows.len() - i,
{
    if i < rows.len() {
        lemma_readable_scans(rows, i + 1, book_type, class, time);
        assert forall|c: Seq<char>| #[trigger] scan_class(rows, i, c) is Ok by {
            assert(scan_class(rows, i + 1, c) is Ok);
        }
        let rest = timeslots_from(rows, i + 1, book_type, class).unwrap();
        let l = timeslots_from(rows, i, book_type, class).unwrap();
        let t0 = cell_text(rows[i], 0);
        assert forall|x: Seq<char>| #[trigger] l.contains(x) <==> exists|k: int|
            i <= k < rows.len() && timeslot_hit(book_type, class, x, #[trigger] rows[k])
                == Ok::<bool, TableFault>(true) by {
            let hit_i = timeslot_hit(book_type, class, x, rows[i]) == Ok::<bool, TableFault>(true);
            if l == seq![t0] + rest {
                if l.contains(x) {
                    let k = choose|k: int| 0 <= k < l.len() && l[k] == x;
                    if k == 0 {
                        assert(hit_i);
                    } else {
                        assert(rest[k - 1] == x);
                        assert(rest.contains(x));
                        let m = choose|m: int| i + 1 <= m < rows.len() && timeslot_hit(book_type, class, x, #[trigger] rows[m])
                            == Ok::<bool, TableFault>(true);
                        assert(i <= m);
                    }
                }
                if hit_i {
                    assert(l[0] == x);
                }
                if rest.contains(x) {
                    let k = choose|k: int| 0 <= k < rest.len() && rest[k] == x;
                    assert(l[k + 1] == x);
                }
            } else {
                if l.contains(x) {
                    let m = choose|m: int| i + 1 <= m < rows.len() && timeslot_hit(book_type, class, x, #[trigger] rows[m])
                        == Ok::<bool, TableFault>(true);
                    assert(i <= m);
                }
                assert(!hit_i);
            }
            if exists|k: int| i <= k < rows.len() && timeslot_hit(book_type, class, x, #[trigger] rows[k])
                == Ok::<bool, TableFault>(true) {
                let k = choose|k: int| i <= k < rows.len() && timeslot_hit(book_type, class, x, #[trigger] rows[k])
                    == Ok::<bool, TableFault>(true);
                if k > i {
                    assert(i + 1 <= k < rows.len());
                    assert(rest.contains(x));
                }
            }
        }
    } else {
        assert forall|x: Seq<char>| #[trigger] timeslots_from(rows, i, book_type, class).unwrap().contains(x)
            <==> exists|k: int|
                i <= k < rows.len() && timeslot_hit(book_type, class, x, #[trigger] rows[k])
                    == Ok::<bool, TableFault>(true) by {}
    }
}

/// When every row of the loaded table can be read, a run that the table turns away
/// at once says why and names what the table does offer: for a class that no row
/// offers to the public, the classes that rows do offer, in increasing order and
/// without repeats; for a time at which no row (of the class asked for) is, exactly
/// the times that rows (of that class) have.
pub proof fn lemma_rejections_name_the_offer(s: Session, t: Session, body: Seq<char>, a: ActionView)
    requires
        s.well_formed(),
        s.stage == SessionStage::LoadTable,
        session_moves(s, t, EventView::Page(Ok(body)), a),
        scraped_table(body, s.table.table_css_selector@, LINK_CSS@) matches Some(rows) && forall|
            k: int,
        | 0 <= k < rows.len() ==> row_readable(#[trigger] rows[k]),
        s.table.book_type == (if s.class_view() is Some {
            BookType::Classes
        } else {
            BookType::Gym
        }),
        t.stage == SessionStage::Done,
    ensures
        scraped_table(body, s.table.table_css_selector@, LINK_CSS@) matches Some(rows)
            && a.step matches StepView::Finish(Err(m)) && {
            ||| s.class_view() matches Some(c) && !(exists|k: int|
                0 <= k < rows.len() && cell_text(#[trigger] rows[k], 1) == c && cell_text(rows[k], 4)
                    != "Member"@) && exists|names: Seq<Seq<char>>|
                strictly_sorted(names) && (forall|x: Seq<char>| #[trigger]
                    names.contains(x) <==> exists|k: int|
                        0 <= k < rows.len() && cell_text(#[trigger] rows[k], 1) == x && cell_text(
                            rows[k],
                            4,
                        ) != "Member"@) && m == class_error_text(c, names)
            ||| !(exists|k: int|
                0 <= k < rows.len() && cell_text(#[trigger] rows[k], 0) == s.time@ && (
                s.class_view() matches Some(c) ==> cell_text(rows[k], 1) == c)) && exists|
                times: Seq<Seq<char>>,
            |
                (forall|x: Seq<char>| #[trigger]
                    times.contains(x) <==> exists|k: int|
                        0 <= k < rows.len() && cell_text(#[trigger] rows[k], 0) == x && (
                        s.class_view() matches Some(c) ==> cell_text(rows[k], 1) == c)) && m
                    == timeslot_error_text(s.time@, times)
        },
{
    let rows = scraped_table(body, s.table.table_css_selector@, LINK_CSS@).unwrap();
    let cls = s.class_view();
    lemma_all_readable(rows, 0);
    lemma_readable_scans(rows, 0, s.table.book_type, cls, s.time@);
    lemma_scan_timeslot_found(rows, 0, s.table.book_type, cls, s.time@);
    let times = timeslots_from(rows, 0, s.table.book_type, cls).unwrap();
    assert forall|x: Seq<char>| #[trigger] times.contains(x) <==> exists|k: int|
        0 <= k < rows.len() && cell_text(#[trigger] rows[k], 0) == x && (
        cls matches Some(c) ==> cell_text(rows[k], 1) == c) by {
        if times.contains(x) {
            let k = choose|k: int| 0 <= k < rows.len() && timeslot_hit(s.table.book_type, cls, x, #[trigger] rows[k])
                == Ok::<bool, TableFault>(true);
            assert(cell_text(rows[k], 0) == x && (cls matches Some(c) ==> cell_text(rows[k], 1) == c));
        }
        if exists|k: int| 0 <= k < rows.len() && cell_text(#[trigger] rows[k], 0) == x && (
            cls matches Some(c) ==> cell_text(rows[k], 1) == c) {
            let k = choose|k: int| 0 <= k < rows.len() && cell_text(#[trigger] rows[k], 0) == x && (
                cls matches Some(c) ==> cell_text(rows[k], 1) == c);
            assert(timeslot_hit(s.table.book_type, cls, x, rows[k]) == Ok::<bool, TableFault>(true));
        }
    }
    if exists|k: int| 0 <= k < rows.len() && cell_text(#[trigger] rows[k], 0) == s.time@ && (
        cls matches Some(c) ==> cell_text(rows[k], 1) == c) {
        let k = choose|k: int| 0 <= k < rows.len() && cell_text(#[trigger] rows[k], 0) == s.time@ && (
            cls matches Some(c) ==> cell_text(rows[k], 1) == c);
        assert(timeslot_hit(s.table.book_type, cls, s.time@, rows[k]) == Ok::<bool, TableFault>(true));
    }
    match cls {
        Some(c) => {
            lemma_scan_class_found(rows, 0, c);
            lemma_sorted_offered_classes(rows);
            let names = sorted_offered_classes(rows);
            assert forall|x: Seq<char>| #[trigger] names.contains(x) <==> exists|k: int|
                0 <= k < rows.len() && cell_text(#[trigger] rows[k], 1) == x && cell_text(rows[k], 4)
                    != "Member"@ by {
                if names.contains(x) {
                    let k = choose|k: int| 0 <= k < rows.len() && class_hit(x, #[trigger] rows[k]);
                    assert(cell_text(rows[k], 1) == x);
                }
                if exists|k: int| 0 <= k < rows.len() && cell_text(#[trigger] rows[k], 1) == x && cell_text(rows[k], 4)
                    != "Member"@ {
                    let k = choose|k: int| 0 <= k < rows.len() && cell_text(#[trigger] rows[k], 1) == x && cell_text(rows[k], 4)
                        != "Member"@;
                    assert(class_hit(x, rows[k]));
                }
            }
            if exists|k: int| 0 <= k < rows.len() && cell_text(#[trigger] rows[k], 1) == c && cell_text(rows[k], 4)
                != "Member"@ {
                let k = choose|k: int| 0 <= k < rows.len() && cell_text(#[trigger] rows[k], 1) == c && cell_text(rows[k], 4)
                    != "Member"@;
                assert(class_hit(c, rows[k]));
            }
        },
        None => {},
    }
}

} // verus!
