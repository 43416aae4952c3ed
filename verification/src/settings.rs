use vstd::prelude::*;
use vstd::string::*;

verus! {

/// The picture behind the booking window.
#[derive(Debug, Clone, Copy, PartialEq, Eq, Structural)]
pub enum Background {
    Grizzly,
    Ronnie,
}

impl Background {
    /// The picture's number in the window's list of pictures.
    pub fn index(&self) -> (i: i32)
        ensures
            i == (match self {
                Background::Grizzly => 0i32,
                Background::Ronnie => 1i32,
            }),
    {
        match self {
            Background::Grizzly => 0,
            Background::Ronnie => 1,
        }
    }
}

/// The window's settings.
#[derive(Debug, Clone, Copy, PartialEq, Eq, Structural)]
pub struct Settings {
    pub backround: Background,
    pub audio: bool,
}

impl Default for Settings {
    fn default() -> (s: Self)
        ensures
            s == (Settings { backround: Background::Grizzly, audio: false }),
    {
        Settings { backround: Background::Grizzly, audio: false }
    }
}

/// The picture that the name `name` chooses: an unknown name chooses the grizzly.
pub open spec fn background_named(name: Seq<char>) -> Background {
    if name == "Ronnie"@ {
        Background::Ronnie
    } else {
        Background::Grizzly
    }
}

impl Settings {
    /// The settings the window starts with: the grizzly, and no sound.
    pub fn new() -> (s: Self)
        ensures
            s == (Settings { backround: Background::Grizzly, audio: false }),
    {
        Settings::default()
    }

    /// Chooses the picture by its name.
    pub fn set_background(&mut self, background: &str)
        ensures
            final(self).backround == background_named(background@),
            final(self).audio == old(self).audio,
    {
        let ronnie = String::from_str("Ronnie");
        let grizzly = String::from_str("Grizzly");
        let name = background.to_owned();
        proof {
            reveal_strlit("Grizzly");
            reveal_strlit("Ronnie");
            assert("Grizzly"@[0] != "Ronnie"@[0]);
        }
        self.backround = if name == grizzly {
            Background::Grizzly
        } else if name == ronnie {
            Background::Ronnie
        } else {
            Background::Grizzly
        };
    }
}

/// What the window remembers of the last booking.
#[derive(Debug, Clone, PartialEq, Eq)]
pub struct BookedData {
    pub student_number: String,
}

impl BookedData {
    pub fn new() -> (d: Self)
        ensures
            d.student_number@ == Seq::<char>::empty(),
    {
        BookedData { student_number: String::new() }
    }
}

/// The characters that have Unicode's White_Space property, which `char::is_whitespace`
/// tests and `str::trim` removes.
pub open spec fn is_white_space(c: char) -> bool {
    let u = c as int;
    ||| 9 <= u <= 13
    ||| u == 32
    ||| u == 0x85
    ||| u == 0xA0
    ||| u == 0x1680
    ||| 0x2000 <= u <= 0x200A
    ||| u == 0x2028
    ||| u == 0x2029
    ||| u == 0x202F
    ||| u == 0x205F
    ||| u == 0x3000
}

fn white_space(c: char) -> (w: bool)
    ensures
        w == is_white_space(c),
{
    let u = c as u32;
    (9 <= u && u <= 13) || u == 32 || u == 0x85 || u == 0xA0 || u == 0x1680 || (0x2000 <= u && u
        <= 0x200A) || u == 0x2028 || u == 0x2029 || u == 0x202F || u == 0x205F || u == 0x3000
}

/// Whether every character of `s` is an ASCII decimal digit, as `char::is_digit(10)` tests.
pub open spec fn all_digits(s: Seq<char>) -> bool {
    forall|k: int| 0 <= k < s.len() ==> '0' <= #[trigger] s[k] && s[k] <= '9'
}

/// Where `s` starts once the white space from `i` on is skipped.
pub open spec fn trim_lo(s: Seq<char>, i: int) -> int
    decreases s.len() - i,
{
    if i < 0 || i >= s.len() || !is_white_space(s[i]) {
        i
    } else {
        trim_lo(s, i + 1)
    }
}

/// Where `s[..j]` ends once the white space at its end, down to `lo`, is dropped.
pub open spec fn trim_hi(s: Seq<char>, lo: int, j: int) -> int
    decreases j - lo,
{
    if j <= lo || !is_white_space(s[j - 1]) {
        j
    } else {
        trim_hi(s, lo, j - 1)
    }
}

/// `s` without the white space at its start and at its end, as `str::trim` gives it.
pub open spec fn trimmed(s: Seq<char>) -> Seq<char> {
    let lo = trim_lo(s, 0);
    s.subrange(lo, trim_hi(s, lo, s.len() as int))
}

fn all_digit_chars(s: &str) -> (ok: bool)
    ensures
        ok == all_digits(s@),
{
    let n = s.unicode_len();
    let mut i: usize = 0;
    while i < n
        invariant
            n == s@.len(),
            i <= n,
            forall|k: int| 0 <= k < i ==> '0' <= #[trigger] s@[k] && s@[k] <= '9',
        decreases n - i,
    {
        let c = s.get_char(i);
        if !('0' <= c && c <= '9') {
            return false;
        }
        i = i + 1;
    }
    true
}

/// Checks the member number given on the command line: it must be made of digits only.
pub fn check_member_id(id: &str) -> (res: Result<(), String>)
    ensures
        match res {
            Ok(()) => all_digits(id@),
            Err(m) => !all_digits(id@) && m@ == "Student number is not a number!"@,
        },
{
    if all_digit_chars(id) {
        Ok(())
    } else {
        Err(String::from_str("Student number is not a number!"))
    }
}

/// The member number without the white space around it.
pub fn trim_member_number(s: &str) -> (t: String)
    ensures
        t@ == trimmed(s@),
{
    let n = s.unicode_len();
    let mut lo: usize = 0;
    while lo < n && white_space(s.get_char(lo))
        invariant
            n == s@.len(),
            lo <= n,
            trim_lo(s@, 0) == trim_lo(s@, lo as int),
        decreases n - lo,
    {
        lo = lo + 1;
    }
    let mut hi: usize = n;
    while hi > lo && white_space(s.get_char(hi - 1))
        invariant
            n == s@.len(),
            lo <= hi <= n,
            lo == trim_lo(s@, 0),
            trim_hi(s@, lo as int, n as int) == trim_hi(s@, lo as int, hi as int),
        decreases hi - lo,
    {
        hi = hi - 1;
    }
    s.substring_char(lo, hi).to_owned()
}

/// The answer to pressing "submit" in the window: it fails while a booking runs,
/// or when the member number is empty or not a number once trimmed.
pub open spec fn submission_verdict(already_running: bool, student_number: Seq<char>) -> Result<
    (),
    Seq<char>,
> {
    if already_running {
        Err("You already submitted!"@)
    } else if trimmed(student_number).len() == 0 {
        Err("ERROR: Student number is empty!"@)
    } else if !all_digits(trimmed(student_number)) {
        Err("ERROR: Student number is not a number!"@)
    } else {
        Ok(())
    }
}

/// Checks a booking asked for from the window.
pub fn check_submission(already_running: bool, student_number: &str) -> (res: Result<(), String>)
    ensures
        match (res, submission_verdict(already_running, student_number@)) {
            (Ok(()), Ok(())) => true,
            (Err(a), Err(b)) => a@ == b,
            _ => false,
        },
{
    if already_running {
        return Err(String::from_str("You already submitted!"));
    }
    let trimmed_sn = trim_member_number(student_number);
    if trimmed_sn.unicode_len() == 0 {
        return Err(String::from_str("ERROR: Student number is empty!"));
    }
    if !all_digit_chars(trimmed_sn.as_str()) {
        return Err(String::from_str("ERROR: Student number is not a number!"));
    }
    Ok(())
}

/// The lines that announce a booking: what is booked, the time and the member number.
pub open spec fn banner_lines(classname: Option<Seq<char>>, time: Seq<char>, id: Seq<char>) -> Seq<
    Seq<char>,
> {
    seq![
        match classname {
            Some(c) => "Booking "@ + c + " class:"@,
            None => "Booking Poolside gym:"@,
        },
        "    Time: "@ + time,
        "    Student number: "@ + id,
    ]
}

/// The lines that announce a booking.
pub fn booking_banner(classname: Option<&str>, time: &str, id: &str) -> (lines: Vec<String>)
    ensures
        lines.deep_view() == banner_lines(
            match classname {
                Some(c) => Some(c@),
                None => None,
            },
            time@,
            id@,
        ),
{
    let first = match classname {
        Some(c) => {
            let mut l = String::from_str("Booking ");
            l.append(c);
            l.append(" class:");
            l
        },
        None => String::from_str("Booking Poolside gym:"),
    };
    let mut second = String::from_str("    Time: ");
    second.append(time);
    let mut third = String::from_str("    Student number: ");
    third.append(id);
    let mut lines: Vec<String> = Vec::new();
    lines.push(first);
    lines.push(second);
    lines.push(third);
    let ghost c = match classname {
        Some(c) => Some(c@),
        None => None::<Seq<char>>,
    };
    assert(lines.deep_view() =~= banner_lines(c, time@, id@));
    lines
}

} // verus!
