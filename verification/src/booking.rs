use vstd::prelude::*;
use vstd::string::*;
use vstd::utf8::{encode_utf8, valid_utf8, decode_utf8};
use crate::book_type::BASE_URL;
use crate::protocol::{Action, ActionView, FetchFailure, Step, StepView, act, act_with_note, fetch_error_message, fetch_error_text, page_view, quiet};
use crate::redirect::{find_redirect_url, redirect_target, utf8_to_string, REFRESH_PATTERN};
use crate::row::get_href_url;
use crate::scrape::{AttrLookup, scrape_attr, scrape_attr_below_root, scraped_attr, scraped_attr_below_root};
use crate::text::{decimal, to_decimal};

verus! {

/// The field of the booking form that holds the booking's parameters.
pub const MEMBER_FORM_CSS: &'static str = ".panel-body > form:nth-child(1) > input:nth-child(3)";
/// The "Confirm Booking" button.
pub const CONFIRM_CSS: &'static str = "a.menubutton:nth-child(9)";
/// The cheer that ends a booking.
pub const CHEER: &'static str = "Remember to snort your creatine and pay your respects to the One, kapakoulak! Or he will be waiting for you!";

/// Where the conversation with the site stands: which page was asked for last.
#[derive(Debug, Clone, Copy, PartialEq, Eq, Structural)]
pub enum GymStage {
    /// The booking form of the slot.
    FormPage,
    /// The answer to the member number.
    MemberPage,
    /// The page that the member page redirects to.
    RedirectPage,
    /// The confirmation.
    ConfirmPage,
    /// The conversation is over.
    Done,
}

/// The booking of one slot for the member `id`.
pub struct BookGym {
    pub id: String,
    /// The address asked for last.
    pub url: String,
    pub stage: GymStage,
    /// Whether the confirmation is sent; without it the booking stops before it.
    pub booking_enabled: bool,
}

/// The address that sends the member number `id` along with the form's parameters `p`.
pub open spec fn member_query_url(p: Seq<char>, id: Seq<char>) -> Seq<char> {
    BASE_URL@ + "!W_HU_REPORTING.P_RUN_SQL?"@ + ("p_query=SW-GYMANON&p_confirmed=Y&p_parameters="@
        + p + "&MEMBER_NO="@ + id)
}

/// How the run stops when one of the site's selectors does not parse.
pub open spec fn bad_selector_abort(css: Seq<char>) -> ActionView {
    quiet(StepView::Abort("invalid CSS selector"@, Some(css)))
}

/// What comes after the page `page` in the stage `stage`: the next stage, the
/// address asked for last, and the action.
pub open spec fn gym_next(
    stage: GymStage,
    url: Seq<char>,
    id: Seq<char>,
    enabled: bool,
    page: Result<Seq<char>, FetchFailure>,
) -> (GymStage, Seq<char>, ActionView) {
    match (stage, page) {
        (GymStage::FormPage, Err(f)) => (
            GymStage::Done,
            url,
            quiet(StepView::Abort("Unable to get booking reponse"@, Some(fetch_error_text(url, f)))),
        ),
        (GymStage::FormPage, Ok(body)) => match scraped_attr(body, MEMBER_FORM_CSS@, "value"@) {
            None => (GymStage::Done, url, bad_selector_abort(MEMBER_FORM_CSS@)),
            Some(None) => (
                GymStage::Done,
                url,
                quiet(StepView::Abort("p_parameters element does not exist."@, None)),
            ),
            Some(Some(None)) => (
                GymStage::Done,
                url,
                quiet(StepView::Abort("Value of p_parameters does not exist"@, None)),
            ),
            Some(Some(Some(p))) => (
                GymStage::MemberPage,
                member_query_url(p, id),
                ActionView {
                    notes: seq!["Sending member ID..."@],
                    step: StepView::Fetch(member_query_url(p, id)),
                },
            ),
        },
        (GymStage::MemberPage, Ok(body)) => match redirect_target(encode_utf8(body)) {
            None => (
                GymStage::Done,
                url,
                quiet(StepView::Finish(Err("Could not find redirect URL."@))),
            ),
            Some(t) => if valid_utf8(t) {
                (GymStage::RedirectPage, BASE_URL@ + decode_utf8(t), quiet(StepView::Fetch(BASE_URL@ + decode_utf8(t))))
            } else {
                (
                    GymStage::Done,
                    url,
                    quiet(
                        StepView::Abort(
                            "byte index "@ + decimal(REFRESH_PATTERN.spec_bytes().len())
                                + " is not a char boundary"@,
                            None,
                        ),
                    ),
                )
            },
        },
        (GymStage::RedirectPage, Ok(body)) => match scraped_attr_below_root(body, CONFIRM_CSS@, "href"@) {
            None => (GymStage::Done, url, bad_selector_abort(CONFIRM_CSS@)),
            Some(Some(Some(h))) => if enabled {
                (GymStage::ConfirmPage, BASE_URL@ + h, quiet(StepView::Fetch(BASE_URL@ + h)))
            } else {
                (GymStage::Done, url, quiet(StepView::Finish(Err("Booking failed."@))))
            },
            Some(_) => (
                GymStage::Done,
                url,
                quiet(StepView::Finish(Err("Cound not find 'Confirm Booking' button. Aborting."@))),
            ),
        },
        (GymStage::ConfirmPage, Ok(_)) => (
            GymStage::Done,
            url,
            ActionView { notes: seq!["Booked!"@, CHEER@], step: StepView::Finish(Ok(())) },
        ),
        (_, Err(f)) => (GymStage::Done, url, quiet(StepView::Finish(Err(fetch_error_text(url, f))))),
        (GymStage::Done, Ok(_)) => (GymStage::Done, url, quiet(StepView::Finish(Ok(())))),
    }
}

/// Starts booking the slot whose booking form is at `url` for the member `id`: the
/// first thing is to fetch the form.
pub fn book_gym(url: &str, id: &str, booking_enabled: bool) -> (res: (BookGym, Action))
    ensures
        res.0.stage == GymStage::FormPage,
        res.0.url@ == url@,
        res.0.id@ == id@,
        res.0.booking_enabled == booking_enabled,
        res.1.deep_view() == quiet(StepView::Fetch(url@)),
{
    let gym = BookGym {
        id: id.to_owned(),
        url: url.to_owned(),
        stage: GymStage::FormPage,
        booking_enabled,
    };
    (gym, act(Step::Fetch(url.to_owned())))
}

impl BookGym {
    fn move_on(&mut self, stage: GymStage, url: String, action: Action) -> (a: Action)
        ensures
            final(self).stage == stage,
            final(self).url == url,
            final(self).id == old(self).id,
            final(self).booking_enabled == old(self).booking_enabled,
            a == action,
    {
        self.stage = stage;
        self.url = url;
        action
    }

    fn stop(&mut self, action: Action) -> (a: Action)
        ensures
            final(self).stage == GymStage::Done,
            final(self).url == old(self).url,
            final(self).id == old(self).id,
            final(self).booking_enabled == old(self).booking_enabled,
            a == action,
    {
        self.stage = GymStage::Done;
        action
    }

    /// The booking form: sends the member number with the form's parameters.
    fn fill_id_and_redirect(&mut self, body: &str) -> (a: Action)
        requires
            old(self).stage == GymStage::FormPage,
        ensures
            (final(self).stage, final(self).url@, a.deep_view()) == gym_next(
                old(self).stage,
                old(self).url@,
                old(self).id@,
                old(self).booking_enabled,
                Ok(body@),
            ),
            final(self).id == old(self).id,
            final(self).booking_enabled == old(self).booking_enabled,
    {
        match scrape_attr(body, MEMBER_FORM_CSS, "value") {
            None => self.stop(act(Step::Abort(String::from_str("invalid CSS selector"), Some(String::from_str(MEMBER_FORM_CSS))))),
            Some(AttrLookup::NoElement) => self.stop(act(Step::Abort(String::from_str("p_parameters element does not exist."), None))),
            Some(AttrLookup::NoAttr) => self.stop(act(Step::Abort(String::from_str("Value of p_parameters does not exist"), None))),
            Some(AttrLookup::Value(p)) => {
                let mut post_url = String::from_str(BASE_URL);
                post_url.append("!W_HU_REPORTING.P_RUN_SQL?");
                post_url.append("p_query=SW-GYMANON&p_confirmed=Y&p_parameters=");
                post_url.append(p.as_str());
                post_url.append("&MEMBER_NO=");
                post_url.append(self.id.as_str());
                assert(post_url@ =~= member_query_url(p@, self.id@));
                let next = post_url.clone();
                let a = act_with_note(String::from_str("Sending member ID..."), Step::Fetch(post_url));
                self.move_on(GymStage::MemberPage, next, a)
            },
        }
    }

    /// The answer to the member number: follows the redirect it holds.
    fn follow_redirect(&mut self, body: &str) -> (a: Action)
        requires
            old(self).stage == GymStage::MemberPage,
        ensures
            (final(self).stage, final(self).url@, a.deep_view()) == gym_next(
                old(self).stage,
                old(self).url@,
                old(self).id@,
                old(self).booking_enabled,
                Ok(body@),
            ),
            final(self).id == old(self).id,
            final(self).booking_enabled == old(self).booking_enabled,
    {
        match find_redirect_url(body) {
            None => self.stop(act(Step::Finish(Err(String::from_str("Could not find redirect URL."))))),
            Some(target) => match utf8_to_string(target) {
                None => {
                    let mut msg = String::from_str("byte index ");
                    let digits = to_decimal(REFRESH_PATTERN.as_bytes().len() as u64);
                    msg.append(digits.as_str());
                    msg.append(" is not a char boundary");
                    self.stop(act(Step::Abort(msg, None)))
                },
                Some(r) => {
                    let mut next = String::from_str(BASE_URL);
                    next.append(r.as_str());
                    let url = next.clone();
                    self.move_on(GymStage::RedirectPage, url, act(Step::Fetch(next)))
                },
            },
        }
    }

    /// The page after the redirect: presses "Confirm Booking" when booking is enabled.
    fn confirm_booking(&mut self, body: &str) -> (a: Action)
        requires
            old(self).stage == GymStage::RedirectPage,
        ensures
            (final(self).stage, final(self).url@, a.deep_view()) == gym_next(
                old(self).stage,
                old(self).url@,
                old(self).id@,
                old(self).booking_enabled,
                Ok(body@),
            ),
            final(self).id == old(self).id,
            final(self).booking_enabled == old(self).booking_enabled,
    {
        let found = match scrape_attr_below_root(body, CONFIRM_CSS, "href") {
            None => return self.stop(act(Step::Abort(String::from_str("invalid CSS selector"), Some(String::from_str(CONFIRM_CSS))))),
            Some(found) => found,
        };
        match get_href_url(&found, CONFIRM_CSS) {
            Err(_) => self.stop(act(Step::Finish(Err(String::from_str("Cound not find 'Confirm Booking' button. Aborting."))))),
            Ok(confirm_url) => {
                if self.booking_enabled {
                    let url = confirm_url.clone();
                    self.move_on(GymStage::ConfirmPage, url, act(Step::Fetch(confirm_url)))
                } else {
                    self.stop(act(Step::Finish(Err(String::from_str("Booking failed.")))))
                }
            },
        }
    }

    /// Takes in the page that the last action asked for (or why it could not be
    /// had) and says what to do next.
    pub fn step(&mut self, page: Result<String, FetchFailure>) -> (a: Action)
        requires
            old(self).stage != GymStage::Done,
        ensures
            (final(self).stage, final(self).url@, a.deep_view()) == gym_next(
                old(self).stage,
                old(self).url@,
                old(self).id@,
                old(self).booking_enabled,
                page_view(page),
            ),
            final(self).id == old(self).id,
            final(self).booking_enabled == old(self).booking_enabled,
    {
        match page {
            Err(f) => {
                let msg = fetch_error_message(self.url.as_str(), f);
                if self.stage == GymStage::FormPage {
                    self.stop(act(Step::Abort(String::from_str("Unable to get booking reponse"), Some(msg))))
                } else {
                    self.stop(act(Step::Finish(Err(msg))))
                }
            },
            Ok(body) => match self.stage {
                GymStage::FormPage => self.fill_id_and_redirect(body.as_str()),
                GymStage::MemberPage => self.follow_redirect(body.as_str()),
                GymStage::RedirectPage => self.confirm_booking(body.as_str()),
                _ => {
                    let mut notes: Vec<String> = Vec::new();
                    notes.push(String::from_str("Booked!"));
                    notes.push(String::from_str(CHEER));
                    let a = Action { notes, step: Step::Finish(Ok(())) };
                    assert(a.notes.deep_view() =~= seq!["Booked!"@, CHEER@]);
                    self.stop(a)
                },
            },
        }
    }
}

/// Without booking enabled, the confirmation is never asked for: the
/// conversation never reaches the confirmation page.
pub proof fn lemma_disabled_never_confirms(
    stage: GymStage,
    url: Seq<char>,
    id: Seq<char>,
    page: Result<Seq<char>, FetchFailure>,
)
    ensures
        gym_next(stage, url, id, false, page).0 != GymStage::ConfirmPage,
{
}

/// A booking succeeds only on the page that the confirmation brings.
pub proof fn lemma_success_only_after_confirmation(
    stage: GymStage,
    url: Seq<char>,
    id: Seq<char>,
    enabled: bool,
    page: Result<Seq<char>, FetchFailure>,
)
    requires
        stage != GymStage::Done,
    ensures
        gym_next(stage, url, id, enabled, page).2.step == StepView::Finish(Ok(())) ==> stage
            == GymStage::ConfirmPage && page is Ok,
{
}

} // verus!
