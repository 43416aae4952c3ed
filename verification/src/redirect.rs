use vstd::prelude::*;
use vstd::string::*;
use vstd::utf8::{valid_utf8, decode_utf8};

verus! {

/// What the member page's answer writes before the address it redirects to.
pub const REFRESH_PATTERN: &'static str = "<meta http-equiv=\"refresh\" content=\"0;url=";

pub open spec fn is_newline(b: u8) -> bool {
    b == 10
}

/// The index of the first line feed at or after `start`, or the end of the text.
pub open spec fn line_end(b: Seq<u8>, start: int) -> int
    decreases b.len() - start,
{
    if start < 0 || start >= b.len() {
        b.len() as int
    } else if is_newline(b[start]) {
        start
    } else {
        line_end(b, start + 1)
    }
}

/// The line from `start` to `end` (a line feed or the end of the text), without its
/// line ending: a carriage return before the line feed goes with the ending.
pub open spec fn line_content(b: Seq<u8>, start: int, end: int) -> Seq<u8> {
    if end < b.len() && end > start && b[end - 1] == 13 {
        b.subrange(start, end - 1)
    } else {
        b.subrange(start, end)
    }
}

/// Whether `pat` occurs in `s`.
pub open spec fn occurs_in(pat: Seq<u8>, s: Seq<u8>) -> bool {
    exists|i: int| 0 <= i <= s.len() - pat.len() && #[trigger] s.subrange(i, i + pat.len()) == pat
}

/// `s` without its double quotes and greater-than signs.
pub open spec fn strip_marks(s: Seq<u8>) -> Seq<u8>
    decreases s.len(),
{
    if s.len() == 0 {
        s
    } else {
        let rest = strip_marks(s.drop_last());
        if s.last() == 34 || s.last() == 62 {
            rest
        } else {
            rest.push(s.last())
        }
    }
}

/// Looking through the lines of `b` from the one that starts at `start`, for the
/// first that contains `pat`: what follows the first `pat.len()` bytes of that line,
/// without quotes and greater-than signs.
pub open spec fn redirect_from(b: Seq<u8>, start: int, pat: Seq<u8>) -> Option<Seq<u8>>
    decreases b.len() - start,
    via redirect_from_decreases
{
    if start < 0 || start >= b.len() {
        None
    } else {
        let end = line_end(b, start);
        let line = line_content(b, start, end);
        if occurs_in(pat, line) {
            Some(strip_marks(line.skip(pat.len() as int)))
        } else if end >= b.len() {
            None
        } else {
            redirect_from(b, end + 1, pat)
        }
    }
}

/// The redirect target that the page `page` holds, as bytes.
pub open spec fn redirect_target(page: Seq<u8>) -> Option<Seq<u8>> {
    redirect_from(page, 0, REFRESH_PATTERN.spec_bytes())
}

/// A line ends at or after its start, at a line feed or at the end of the text.
pub proof fn lemma_line_end_bounds(b: Seq<u8>, start: int)
    requires
        0 <= start <= b.len(),
    ensures
        start <= line_end(b, start) <= b.len(),
        line_end(b, start) < b.len() ==> is_newline(b[line_end(b, start)]),
        forall|k: int| start <= k < line_end(b, start) ==> !is_newline(#[trigger] b[k]),
    decreases b.len() - start,
{
    if start < b.len() && !is_newline(b[start]) {
        lemma_line_end_bounds(b, start + 1);
    }
}

#[via_fn]
proof fn redirect_from_decreases(b: Seq<u8>, start: int, pat: Seq<u8>) {
    if 0 <= start < b.len() {
        lemma_line_end_bounds(b, start);
    }
}

/// Whether `pat` occurs in `s[from..to]`.
fn occurs_between(pat: &[u8], s: &[u8], from: usize, to: usize) -> (found: bool)
    requires
        from <= to <= s.len(),
    ensures
        found == occurs_in(pat@, s@.subrange(from as int, to as int)),
{
    let ghost line = s@.subrange(from as int, to as int);
    let m = pat.len();
    if to - from < m {
        assert forall|i: int| 0 <= i <= line.len() - m implies #[trigger] line.subrange(i, i + m)
            != pat@ by {}
        return false;
    }
    let last = to - m;
    let mut i: usize = from;
    while i <= last
        invariant
            from <= i <= last + 1,
            last + m == to,
            to <= s.len(),
            m == pat.len(),
            line == s@.subrange(from as int, to as int),
            forall|k: int| 0 <= k < i - from ==> #[trigger] line.subrange(k, k + m) != pat@,
        decreases last + 1 - i,
    {
        let mut j: usize = 0;
        while j < m && s[i + j] == pat[j]
            invariant
                j <= m,
                i + m <= s.len(),
                m == pat.len(),
                forall|t: int| 0 <= t < j ==> s@[i + t] == pat@[t],
            decreases m - j,
        {
            j = j + 1;
        }
        if j == m {
            assert(line.subrange(i - from, i - from + m) =~= pat@);
            return true;
        }
        assert(line.subrange(i - from, i - from + m)[j as int] != pat@[j as int]);
        i = i + 1;
    }
    false
}

/// The address that the member page `page` redirects to, as bytes: after the first
/// line that contains the refresh pattern has lost as many bytes from its start as
/// the pattern has, and its double quotes and greater-than signs.
pub fn find_redirect_url(page: &str) -> (target: Option<Vec<u8>>)
    ensures
        match target {
            Some(t) => redirect_target(page.spec_bytes()) == Some(t@),
            None => redirect_target(page.spec_bytes()) is None,
        },
{
    let b = page.as_bytes();
    let pat = REFRESH_PATTERN.as_bytes();
    let ghost pv = pat@;
    let n = b.len();
    let mut start: usize = 0;
    while start < n
        invariant
            n == b@.len(),
            start <= n,
            pv == pat@,
            pv == REFRESH_PATTERN.spec_bytes(),
            b@ == page.spec_bytes(),
            redirect_from(b@, 0, pv) == redirect_from(b@, start as int, pv),
        decreases n - start,
    {
        proof {
            lemma_line_end_bounds(b@, start as int);
        }
        let mut end = start;
        while end < n && b[end] != 10u8
            invariant
                start <= end <= n,
                n == b@.len(),
                forall|k: int| start <= k < end ==> !is_newline(#[trigger] b@[k]),
                line_end(b@, start as int) == line_end(b@, end as int),
            decreases n - end,
        {
            end = end + 1;
        }
        assert(end == line_end(b@, end as int));
        let stop = if end < n && end > start && b[end - 1] == 13u8 {
            end - 1
        } else {
            end
        };
        assert(line_content(b@, start as int, end as int) == b@.subrange(start as int, stop as int));
        if occurs_between(pat, b, start, stop) {
            let mut out: Vec<u8> = Vec::new();
            let mut k = start + pat.len();
            let ghost tail = b@.subrange(start as int, stop as int).skip(pat.len() as int);
            assert(k <= stop);
            while k < stop
                invariant
                    start + pat.len() <= k <= stop,
                    stop <= n,
                    n == b@.len(),
                    tail == b@.subrange(start as int, stop as int).skip(pat.len() as int),
                    out@ == strip_marks(tail.subrange(0, k - start - pat.len())),
                decreases stop - k,
            {
                let ghost prefix = tail.subrange(0, k - start - pat.len());
                let ghost next = tail.subrange(0, k + 1 - start - pat.len());
                assert(next.drop_last() =~= prefix);
                assert(next.last() == b@[k as int]);
                let c = b[k];
                if c != 34u8 && c != 62u8 {
                    out.push(c);
                }
                k = k + 1;
            }
            assert(tail.subrange(0, tail.len() as int) =~= tail);
            return Some(out);
        }
        if end >= n {
            return None;
        }
        start = end + 1;
    }
    None
}

/// Turns bytes into a string with std's `String::from_utf8`, which succeeds exactly
/// when the bytes are valid UTF-8 and then holds the characters they encode.
#[verifier::external_body]
pub(crate) fn utf8_to_string(bytes: Vec<u8>) -> (s: Option<String>)
    ensures
        s is Some <==> valid_utf8(bytes@),
        s matches Some(t) ==> t@ == decode_utf8(bytes@),
{
    String::from_utf8(bytes).ok()
}

/// The redirect target never holds a double quote or a greater-than sign.
pub proof fn lemma_strip_marks_clean(s: Seq<u8>)
    ensures
        forall|k: int| 0 <= k < strip_marks(s).len() ==> #[trigger] strip_marks(s)[k] != 34
            && strip_marks(s)[k] != 62,
    decreases s.len(),
{
    if s.len() > 0 {
        lemma_strip_marks_clean(s.drop_last());
        let rest = strip_marks(s.drop_last());
        assert forall|k: int| 0 <= k < strip_marks(s).len() implies #[trigger] strip_marks(s)[k]
            != 34 && strip_marks(s)[k] != 62 by {
            if k < rest.len() {
                assert(strip_marks(s)[k] == rest[k]);
            }
        }
    }
}

} // verus!
