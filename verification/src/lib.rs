//! Booking logic for the university gym and fitness classes: what the booking
//! page's table holds, which time slots and classes may be booked, how the
//! booking conversation with the site proceeds, and when to start it.

pub mod text;
pub mod book_type;
pub mod scrape;
pub mod row;
pub mod table;
pub mod clock;
pub mod redirect;
pub mod protocol;
pub mod booking;
pub mod session;
pub mod settings;
