//! Time synchronisation status, as `timedatectl show` reports it.
//!
//! `timedatectl show` prints one `Key=value` setting per line. Of these, the
//! boolean settings `LocalRTC`, `CanNTP`, `NTP` and `NTPSynchronized` are
//! read; `yes` means true and anything else false. Other keys are ignored.
use vstd::prelude::*;
use vstd::utf8::{decode_utf8, valid_utf8};

use crate::text::{
    char_is_whitespace, find_char, index_of, is_whitespace, lemma_index_of, lines, range_equals,
    split_once, str_from_utf8, str_to_chars, strip_cr, trim, trim_end, trim_start,
};

verus! {

/// The clock settings that `timedatectl show` reports.
#[derive(Clone, Copy, Debug, PartialEq, Eq)]
pub struct TimeDateCtlStatus {
    pub local_rtc: bool,
    pub can_ntp: bool,
    pub ntp: bool,
    pub ntp_synchronized: bool,
}

impl Default for TimeDateCtlStatus {
    /// Every setting false.
    fn default() -> (r: Self)
        ensures
            r == unset_status(),
    {
        TimeDateCtlStatus { local_rtc: false, can_ntp: false, ntp: false, ntp_synchronized: false }
    }
}

/// The status before any setting has been read: every setting false.
pub open spec fn unset_status() -> TimeDateCtlStatus {
    TimeDateCtlStatus { local_rtc: false, can_ntp: false, ntp: false, ntp_synchronized: false }
}

/// Ways in which the output of `timedatectl show` is not understood.
#[derive(Clone, Copy, Debug, PartialEq, Eq)]
pub enum TimedatectlError {
    /// The output is not UTF-8 text.
    InvalidUtf8,
    /// A line holds no `=`.
    UnexpectedOutput,
}

pub open spec fn key_local_rtc() -> Seq<char> {
    seq!['L', 'o', 'c', 'a', 'l', 'R', 'T', 'C']
}

pub open spec fn key_can_ntp() -> Seq<char> {
    seq!['C', 'a', 'n', 'N', 'T', 'P']
}

pub open spec fn key_ntp() -> Seq<char> {
    seq!['N', 'T', 'P']
}

pub open spec fn key_ntp_synchronized() -> Seq<char> {
    seq!['N', 'T', 'P', 'S', 'y', 'n', 'c', 'h', 'r', 'o', 'n', 'i', 'z', 'e', 'd']
}

pub open spec fn word_yes() -> Seq<char> {
    seq!['y', 'e', 's']
}

/// The status after the setting `key=value`.
pub open spec fn apply_setting(
    st: TimeDateCtlStatus,
    key: Seq<char>,
    value: Seq<char>,
) -> TimeDateCtlStatus {
    let b = value == word_yes();
    if key == key_local_rtc() {
        TimeDateCtlStatus { local_rtc: b, ..st }
    } else if key == key_can_ntp() {
        TimeDateCtlStatus { can_ntp: b, ..st }
    } else if key == key_ntp() {
        TimeDateCtlStatus { ntp: b, ..st }
    } else if key == key_ntp_synchronized() {
        TimeDateCtlStatus { ntp_synchronized: b, ..st }
    } else {
        st
    }
}

/// The status after the settings on `lines`, in order, starting from `st`;
/// `None` where a line holds no `=`.
pub open spec fn apply_lines(lines: Seq<Seq<char>>, st: TimeDateCtlStatus) -> Option<
    TimeDateCtlStatus,
>
    decreases lines.len(),
{
    if lines.len() == 0 {
        Some(st)
    } else {
        match split_once(lines[0], '=') {
            None => None,
            Some((key, value)) => apply_lines(lines.drop_first(), apply_setting(st, key, value)),
        }
    }
}

/// What the output `stdout` of `timedatectl show` says.
pub open spec fn timedatectl_model(stdout: Seq<u8>) -> Result<TimeDateCtlStatus, TimedatectlError> {
    if !valid_utf8(stdout) {
        Err(TimedatectlError::InvalidUtf8)
    } else {
        match apply_lines(lines(trim(decode_utf8(stdout))), unset_status()) {
            Some(st) => Ok(st),
            None => Err(TimedatectlError::UnexpectedOutput),
        }
    }
}

/// The bounds of `chars` without leading and trailing whitespace.
fn trim_bounds(chars: &Vec<char>) -> (r: (usize, usize))
    ensures
        r.0 <= r.1 <= chars@.len(),
        trim(chars@) == chars@.subrange(r.0 as int, r.1 as int),
{
    let ghost s = chars@;
    let len = chars.len();
    let mut a: usize = 0;
    assert(s.subrange(0, len as int) =~= s);
    while a < len && char_is_whitespace(chars[a])
        invariant
            s == chars@,
            len == s.len(),
            a <= len,
            trim_start(s.subrange(a as int, len as int)) == trim_start(s),
        decreases len - a,
    {
        assert(s.subrange(a as int, len as int).drop_first() =~= s.subrange(a + 1, len as int));
        a = a + 1;
    }
    assert(trim_start(s) == s.subrange(a as int, len as int));
    let ghost t = s.subrange(a as int, len as int);
    let mut b: usize = len;
    while b > a && char_is_whitespace(chars[b - 1])
        invariant
            s == chars@,
            len == s.len(),
            t == s.subrange(a as int, len as int),
            a <= b <= len,
            trim_end(s.subrange(a as int, b as int)) == trim_end(t),
        decreases b - a,
    {
        assert(s.subrange(a as int, b as int).drop_last() =~= s.subrange(a as int, b - 1));
        b = b - 1;
    }
    (a, b)
}

/// The status after the setting on the line `chars[from..to]`, or `None`
/// where the line holds no `=`.
fn apply_line(chars: &Vec<char>, from: usize, to: usize, st: TimeDateCtlStatus) -> (r: Option<
    TimeDateCtlStatus,
>)
    requires
        from <= to <= chars@.len(),
    ensures
        r == (match split_once(chars@.subrange(from as int, to as int), '=') {
            None => None,
            Some((key, value)) => Some(apply_setting(st, key, value)),
        }),
{
    let ghost line = chars@.subrange(from as int, to as int);
    let eq = find_char(chars, from, to, '=');
    if eq == to {
        return None;
    }
    proof {
        assert(line.subrange(0, eq - from) =~= chars@.subrange(from as int, eq as int));
        assert(line.subrange(eq - from + 1, line.len() as int) =~= chars@.subrange(
            eq + 1,
            to as int,
        ));
    }
    let mut st = st;
    let yes = range_equals(chars, eq + 1, to, &['y', 'e', 's']);
    if range_equals(chars, from, eq, &['L', 'o', 'c', 'a', 'l', 'R', 'T', 'C']) {
        st.local_rtc = yes;
    } else if range_equals(chars, from, eq, &['C', 'a', 'n', 'N', 'T', 'P']) {
        st.can_ntp = yes;
    } else if range_equals(chars, from, eq, &['N', 'T', 'P']) {
        st.ntp = yes;
    } else if range_equals(
        chars,
        from,
        eq,
        &['N', 'T', 'P', 'S', 'y', 'n', 'c', 'h', 'r', 'o', 'n', 'i', 'z', 'e', 'd'],
    ) {
        st.ntp_synchronized = yes;
    }
    Some(st)
}

/// The first of the lines of a nonempty text, and the text after it.
proof fn lemma_first_line(s: Seq<char>)
    requires
        s.len() > 0,
    ensures
        ({
            let i = index_of(s, '\n');
            let line = if i < s.len() {
                strip_cr(s.subrange(0, i))
            } else {
                s
            };
            let tail = if i < s.len() {
                lines(s.subrange(i + 1, s.len() as int))
            } else {
                Seq::<Seq<char>>::empty()
            };
            &&& lines(s)[0] == line
            &&& lines(s).len() > 0
            &&& lines(s).drop_first() == tail
        }),
{
    lemma_index_of(s, '\n');
    let i = index_of(s, '\n');
    if i < s.len() {
        let line = strip_cr(s.subrange(0, i));
        let tail = lines(s.subrange(i + 1, s.len() as int));
        assert((seq![line] + tail).drop_first() =~= tail);
    } else {
        assert(seq![s].drop_first() =~= Seq::<Seq<char>>::empty());
    }
}

/// Reads the output of `timedatectl show`: decodes it as UTF-8, trims it,
/// and applies the settings line by line.
pub fn parse_timedatectl_output(stdout: &[u8]) -> (r: Result<TimeDateCtlStatus, TimedatectlError>)
    ensures
        r == timedatectl_model(stdout@),
{
    let text = match str_from_utf8(stdout) {
        Some(text) => text,
        None => {
            return Err(TimedatectlError::InvalidUtf8);
        },
    };
    let chars = str_to_chars(text);
    let ghost s = chars@;
    let (a, b) = trim_bounds(&chars);
    let mut st = TimeDateCtlStatus::default();
    let mut pos = a;
    while pos < b
        invariant
            s == chars@,
            s == decode_utf8(stdout@),
            valid_utf8(stdout@),
            a <= pos <= b <= s.len(),
            apply_lines(lines(s.subrange(pos as int, b as int)), st) == apply_lines(
                lines(trim(s)),
                unset_status(),
            ),
        decreases b - pos,
    {
        let ghost rest = s.subrange(pos as int, b as int);
        let nl = find_char(&chars, pos, b, '\n');
        let line_end = if nl < b && nl > pos && chars[nl - 1] == '\r' {
            nl - 1
        } else {
            nl
        };
        proof {
            lemma_first_line(rest);
            if nl < b {
                assert(rest.subrange(0, nl - pos) =~= s.subrange(pos as int, nl as int));
                assert(strip_cr(s.subrange(pos as int, nl as int)) =~= s.subrange(
                    pos as int,
                    line_end as int,
                ));
                assert(rest.subrange(nl - pos + 1, rest.len() as int) =~= s.subrange(
                    nl + 1,
                    b as int,
                ));
            } else {
                assert(s.subrange(pos as int, line_end as int) =~= rest);
            }
        }
        match apply_line(&chars, pos, line_end, st) {
            None => {
                return Err(TimedatectlError::UnexpectedOutput);
            },
            Some(next) => {
                st = next;
            },
        }
        pos = if nl < b {
            nl + 1
        } else {
            b
        };
        proof {
            if nl >= b {
                assert(s.subrange(pos as int, b as int) =~= Seq::<char>::empty());
            }
        }
    }
    assert(s.subrange(pos as int, b as int) =~= Seq::<char>::empty());
    Ok(st)
}

/// What to do after reading the time synchronisation status.
#[derive(Clone, Copy, Debug, PartialEq, Eq)]
pub enum SyncCheck {
    /// The clock is synchronised.
    Synchronized,
    /// NTP is disabled, so the clock will never be synchronised.
    NtpDisabled,
    /// Not synchronised yet; ask again later.
    Pending,
}

/// Decides, from one status reading, whether waiting for time
/// synchronisation is over.
pub fn check_time_sync(status: &TimeDateCtlStatus) -> (r: SyncCheck)
    ensures
        status.ntp_synchronized ==> r == SyncCheck::Synchronized,
        !status.ntp_synchronized && !status.ntp ==> r == SyncCheck::NtpDisabled,
        !status.ntp_synchronized && status.ntp ==> r == SyncCheck::Pending,
{
    if status.ntp_synchronized {
        SyncCheck::Synchronized
    } else if !status.ntp {
        SyncCheck::NtpDisabled
    } else {
        SyncCheck::Pending
    }
}

/// Whether a poll read a status that says the clock is synchronised (`None`
/// where reading the status failed).
pub open spec fn poll_says_synced(status: Option<TimeDateCtlStatus>) -> bool {
    status matches Some(st) && st.ntp_synchronized
}

/// The sensors' record of synchronisation after one more poll.
pub open spec fn next_time_synced(synced: bool, status: Option<TimeDateCtlStatus>) -> bool {
    synced || poll_says_synced(status)
}

/// The sensors' record of synchronisation after the polls `polls`, in
/// order, starting from not synchronised.
pub open spec fn time_synced_after(polls: Seq<Option<TimeDateCtlStatus>>) -> bool
    decreases polls.len(),
{
    if polls.len() == 0 {
        false
    } else {
        next_time_synced(time_synced_after(polls.drop_last()), polls.last())
    }
}

/// Whether the sensors record the clock as synchronised after one poll: it
/// stays so once it is, and becomes so when the poll read a status that says
/// it is synchronised.
pub fn update_time_synced(synced: bool, status: Option<TimeDateCtlStatus>) -> (r: bool)
    ensures
        r == next_time_synced(synced, status),
{
    if synced {
        true
    } else {
        match status {
            Some(st) => st.ntp_synchronized,
            None => false,
        }
    }
}

/// Over a run of polls, the recorded synchronisation starts false, is never
/// reset once set, and is set exactly after the first poll that read a
/// status saying the clock is synchronised.
pub proof fn lemma_time_synced_sticky(polls: Seq<Option<TimeDateCtlStatus>>, i: int, j: int)
    requires
        0 <= i <= j <= polls.len(),
    ensures
        !time_synced_after(polls.take(0)),
        time_synced_after(polls.take(i)) ==> time_synced_after(polls.take(j)),
        time_synced_after(polls.take(j)) <==> exists|k: int|
            0 <= k < j && #[trigger] poll_says_synced(polls[k]),
    decreases j,
{
    if j > 0 {
        let prev = polls.take(j - 1);
        assert(polls.take(j).drop_last() =~= prev);
        assert(polls.take(j).last() == polls[j - 1]);
        if i < j {
            lemma_time_synced_sticky(polls, i, j - 1);
        }
        lemma_time_synced_sticky(polls, j - 1, j - 1);
        if time_synced_after(prev) {
            let k = choose|k: int| 0 <= k < j - 1 && #[trigger] poll_says_synced(polls[k]);
            assert(0 <= k < j && poll_says_synced(polls[k]));
        }
    } else {
        assert(polls.take(0) =~= Seq::<Option<TimeDateCtlStatus>>::empty());
    }
}

} // verus!
