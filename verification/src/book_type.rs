use vstd::prelude::*;

verus! {

/// Where the booking pages live.
pub const BASE_URL: &'static str = "https://hub.ucd.ie/usis/";
/// The page that lists the gym's time slots.
pub const GYM_URL: &'static str = "https://hub.ucd.ie/usis/W_HU_MENU.P_PUBLISH?p_tag=GYMBOOK";
/// The page that lists the fitness classes.
pub const CLASSES_URL: &'static str = "https://hub.ucd.ie/usis/W_HU_MENU.P_PUBLISH?p_tag=GYMKIOSK";

/// Nanoseconds in a second, a minute and an hour.
pub const NANOS_PER_SECOND: i128 = 1_000_000_000i128;
pub const NANOS_PER_MINUTE: i128 = 60_000_000_000i128;
pub const NANOS_PER_HOUR: i128 = 3_600_000_000_000i128;

/// What is being booked: a slot in the gym, or a place in a class.
#[derive(Debug, Clone, Copy, PartialEq, Eq, Structural)]
pub enum BookType {
    Gym,
    Classes,
}

impl BookType {
    /// The page that lists what can be booked.
    pub open spec fn spec_url(self) -> Seq<char> {
        match self {
            BookType::Gym => GYM_URL@,
            BookType::Classes => CLASSES_URL@,
        }
    }

    /// How long before its start a slot opens for booking, in nanoseconds:
    /// two hours for the gym, fifteen minutes for a class.
    pub open spec fn spec_open_time(self) -> int {
        match self {
            BookType::Gym => 2 * NANOS_PER_HOUR,
            BookType::Classes => 15 * NANOS_PER_MINUTE,
        }
    }

    pub fn get_url(&self) -> (url: &'static str)
        ensures
            url@ == self.spec_url(),
    {
        match self {
            BookType::Gym => GYM_URL,
            BookType::Classes => CLASSES_URL,
        }
    }

    pub fn open_time(&self) -> (nanos: i128)
        ensures
            nanos == self.spec_open_time(),
    {
        match self {
            BookType::Gym => 2 * NANOS_PER_HOUR,
            BookType::Classes => 15 * NANOS_PER_MINUTE,
        }
    }
}

} // verus!
