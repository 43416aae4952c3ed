# gymbooking

Books a slot in the university's poolside gym, or a place in a fitness class, the
moment it opens for booking.

The library (`src/`) is verified with Verus. It holds the booking logic as state
machines that never touch the network or the clock themselves:

- `table`, `row`, `scrape`: the booking page's table, which time slots and classes
  it offers, and what it says of a slot;
- `clock`: local time in Dublin, the opening time of a slot and the waiting loop;
- `redirect`, `booking`: the conversation with the site that books a slot;
- `session`: a whole run, from loading the table to the booking's confirmation;
- `protocol`: the actions a run asks for and the events it is handed back;
- `settings`, `text`, `book_type`: the window's settings, member number checks,
  strings and constants.

`app/` is the command-line program: it reads the arguments, fetches the pages,
reads the clock and sleeps as the run asks, and prints what it reports. It also
keeps the window's settings and log.
