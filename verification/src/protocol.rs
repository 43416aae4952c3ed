use vstd::prelude::*;
use vstd::string::*;

verus! {

/// Why fetching a page failed.
#[derive(Debug, Clone, Copy, PartialEq, Eq, Structural)]
pub enum FetchFailure {
    /// The server did not answer.
    NoResponse,
    /// The answer's body could not be read.
    UnreadableBody,
}

/// What the caller does next, after writing the notes of the action.
#[derive(Debug)]
pub enum Step {
    /// Fetch the page at this address and hand back what came.
    Fetch(String),
    /// Read the clock and hand back the instant, in nanoseconds since 1970 (UTC).
    ReadClock,
    /// Sleep this many nanoseconds, then hand back that it is done.
    Sleep(i128),
    /// The run is over, with this outcome.
    Finish(Result<(), String>),
    /// The run cannot go on: stop it with this message and, when there is one,
    /// the detail that the message refers to.
    Abort(String, Option<String>),
}

/// The lines to write, then what to do.
#[derive(Debug)]
pub struct Action {
    pub notes: Vec<String>,
    pub step: Step,
}

/// What the caller hands back after carrying out an action.
#[derive(Debug)]
pub enum Event {
    /// The page that was asked for, or why it could not be had.
    Page(Result<String, FetchFailure>),
    /// The instant the clock showed, in nanoseconds since 1970 (UTC).
    Clock(i128),
    /// The sleep is over.
    Slept,
}

pub enum StepView {
    Fetch(Seq<char>),
    ReadClock,
    Sleep(int),
    Finish(Result<(), Seq<char>>),
    Abort(Seq<char>, Option<Seq<char>>),
}

pub struct ActionView {
    pub notes: Seq<Seq<char>>,
    pub step: StepView,
}

pub enum EventView {
    Page(Result<Seq<char>, FetchFailure>),
    Clock(int),
    Slept,
}

impl DeepView for Step {
    type V = StepView;

    open spec fn deep_view(&self) -> StepView {
        match self {
            Step::Fetch(u) => StepView::Fetch(u@),
            Step::ReadClock => StepView::ReadClock,
            Step::Sleep(d) => StepView::Sleep(*d as int),
            Step::Finish(Ok(())) => StepView::Finish(Ok(())),
            Step::Finish(Err(e)) => StepView::Finish(Err(e@)),
            Step::Abort(m, Some(d)) => StepView::Abort(m@, Some(d@)),
            Step::Abort(m, None) => StepView::Abort(m@, None),
        }
    }
}

impl DeepView for Action {
    type V = ActionView;

    open spec fn deep_view(&self) -> ActionView {
        ActionView { notes: self.notes.deep_view(), step: self.step.deep_view() }
    }
}

impl DeepView for Event {
    type V = EventView;

    open spec fn deep_view(&self) -> EventView {
        match self {
            Event::Page(Ok(p)) => EventView::Page(Ok(p@)),
            Event::Page(Err(f)) => EventView::Page(Err(*f)),
            Event::Clock(t) => EventView::Clock(*t as int),
            Event::Slept => EventView::Slept,
        }
    }
}

/// The view of a fetched page or of why it failed.
pub open spec fn page_view(page: Result<String, FetchFailure>) -> Result<Seq<char>, FetchFailure> {
    match page {
        Ok(p) => Ok(p@),
        Err(f) => Err(f),
    }
}

/// The message for a page at `url` that could not be had.
pub open spec fn fetch_error_text(url: Seq<char>, failure: FetchFailure) -> Seq<char> {
    match failure {
        FetchFailure::NoResponse => url + " did not respond"@,
        FetchFailure::UnreadableBody => "Could not read response body from "@ + url,
    }
}

/// The message for a page at `url` that could not be had.
pub fn fetch_error_message(url: &str, failure: FetchFailure) -> (msg: String)
    ensures
        msg@ == fetch_error_text(url@, failure),
{
    match failure {
        FetchFailure::NoResponse => {
            let mut msg = url.to_owned();
            msg.append(" did not respond");
            msg
        },
        FetchFailure::UnreadableBody => {
            let mut msg = String::from_str("Could not read response body from ");
            msg.append(url);
            msg
        },
    }
}

/// An action with no notes.
pub open spec fn quiet(step: StepView) -> ActionView {
    ActionView { notes: Seq::empty(), step }
}

pub(crate) fn act(step: Step) -> (a: Action)
    ensures
        a.deep_view() == quiet(step.deep_view()),
{
    let a = Action { notes: Vec::new(), step };
    assert(a.notes.deep_view() =~= Seq::<Seq<char>>::empty());
    a
}

pub(crate) fn act_with_note(note: String, step: Step) -> (a: Action)
    ensures
        a.deep_view() == (ActionView { notes: seq![note@], step: step.deep_view() }),
{
    let mut notes = Vec::new();
    notes.push(note);
    let a = Action { notes, step };
    assert(a.notes.deep_view() =~= seq![note@]);
    a
}

} // verus!
