//! Idle watchdog logic: parsing the player count out of the admin
//! channel's `list` reply, and the decisions of the watchdog's loops.  The
//! caller owns the admin connection and the clock; it feeds replies,
//! elapsed times and error counts in, and performs the actions handed
//! back.

use vstd::prelude::*;
use vstd::string::StrSliceExecFns;

verus! {

/// A decimal digit.
pub open spec fn is_digit(c: char) -> bool {
    48 <= (c as u32) <= 57
}

/// The numeric value of a digit character.
pub open spec fn digit_of(c: char) -> int {
    (c as u32) - 48
}

/// The value of a decimal digit string.
pub open spec fn digits_val(ds: Seq<char>) -> int
    decreases ds.len(),
{
    if ds.len() == 0 {
        0
    } else {
        10 * digits_val(ds.drop_last()) + digit_of(ds.last())
    }
}

/// The player-count reply pattern `There are (digits) of a max` occurs at
/// position `i` with a capture of `k` digits.
pub open spec fn count_match_at(s: Seq<char>, i: int, k: int) -> bool {
    &&& 0 <= i
    &&& 1 <= k
    &&& i + 10 + k + 9 <= s.len()
    &&& s.subrange(i, i + 10) == "There are "@
    &&& (forall|j: int| i + 10 <= j < i + 10 + k ==> is_digit(s[j]))
    &&& s.subrange(i + 10 + k, i + 10 + k + 9) == " of a max"@
}

/// Whether the reply matches the player-count pattern anywhere.
pub open spec fn has_count_match(s: Seq<char>) -> bool {
    exists|i: int, k: int| count_match_at(s, i, k)
}

/// The match at `i` with `k` digits is the one a leftmost-first search
/// finds.
pub open spec fn is_leftmost_match(s: Seq<char>, i: int, k: int) -> bool {
    &&& count_match_at(s, i, k)
    &&& forall|i2: int, k2: int| count_match_at(s, i2, k2) ==> i <= i2
}

/// The captured digits of the leftmost match.
pub open spec fn count_digits(s: Seq<char>) -> Seq<char> {
    let p = choose|p: (int, int)| is_leftmost_match(s, p.0, p.1);
    s.subrange(p.0 + 10, p.0 + 10 + p.1)
}

/// The player count read from a `list` reply: the captured digits of the
/// leftmost match, read as a 32-bit number; no match anywhere, or a
/// capture too large for 32 bits, means zero.
pub open spec fn player_count_of(s: Seq<char>) -> u32 {
    if has_count_match(s) {
        let v = digits_val(count_digits(s));
        if 0 <= v <= u32::MAX {
            v as u32
        } else {
            0u32
        }
    } else {
        0u32
    }
}

/// Relies on regex::Regex::captures with the pattern
/// `There are ([0-9]+) of a max`: it yields the leftmost match, whose
/// single capture group is the maximal digit run, and `None` exactly when
/// the pattern occurs nowhere.
#[verifier::external_body]
fn capture_player_count(response: &str) -> (r: Option<String>)
    ensures
        match r {
            Option::Some(digits) => exists|i: int, k: int|
                is_leftmost_match(response@, i, k) && digits@ == response@.subrange(
                    i + 10,
                    i + 10 + k,
                ),
            Option::None => !has_count_match(response@),
        },
{
    let re = regex::Regex::new("There are ([0-9]+) of a max").unwrap();
    match re.captures(response) {
        Some(caps) => caps.get(1).map(|m| m.as_str().to_string()),
        None => None,
    }
}

/// At one position, only one digit count can complete a match: the
/// character after the capture is a space, which is no digit.
proof fn lemma_match_k_unique(s: Seq<char>, i: int, k1: int, k2: int)
    requires
        count_match_at(s, i, k1),
        count_match_at(s, i, k2),
    ensures
        k1 == k2,
{
    reveal_strlit(" of a max");
    if k1 < k2 {
        assert(s.subrange(i + 10 + k1, i + 10 + k1 + 9)[0] == s[i + 10 + k1]);
        assert(s[i + 10 + k1] == ' ');
        assert(is_digit(s[i + 10 + k1]));
    }
    if k2 < k1 {
        assert(s.subrange(i + 10 + k2, i + 10 + k2 + 9)[0] == s[i + 10 + k2]);
        assert(s[i + 10 + k2] == ' ');
        assert(is_digit(s[i + 10 + k2]));
    }
}

/// The captured digits of any leftmost match are `count_digits`.
proof fn lemma_count_digits_agree(s: Seq<char>, i: int, k: int)
    requires
        is_leftmost_match(s, i, k),
    ensures
        count_digits(s) == s.subrange(i + 10, i + 10 + k),
        forall|j: int| 0 <= j < count_digits(s).len() ==> is_digit(count_digits(s)[j]),
{
    let p = choose|p: (int, int)| is_leftmost_match(s, p.0, p.1);
    assert(is_leftmost_match(s, ((i, k)).0, ((i, k)).1));
    assert(is_leftmost_match(s, p.0, p.1));
    assert(p.0 == i);
    lemma_match_k_unique(s, i, p.1, k);
    assert(count_digits(s) =~= s.subrange(i + 10, i + 10 + k));
    assert forall|j: int| 0 <= j < count_digits(s).len() implies is_digit(count_digits(s)[j]) by {
        assert(count_digits(s)[j] == s[i + 10 + j]);
    }
}

/// A digit string's value does not fall when digits are appended.
proof fn lemma_digits_val_prefix_le(ds: Seq<char>, m: int)
    requires
        0 <= m <= ds.len(),
        forall|j: int| 0 <= j < ds.len() ==> is_digit(ds[j]),
    ensures
        digits_val(ds.take(m)) <= digits_val(ds),
        digits_val(ds.take(m)) >= 0,
    decreases ds.len() - m,
{
    if m == ds.len() {
        assert(ds.take(m) =~= ds);
        lemma_digits_val_nonneg(ds.take(m), ds);
    } else {
        lemma_digits_val_prefix_le(ds, m + 1);
        let t = ds.take(m + 1);
        assert(t.drop_last() =~= ds.take(m));
        assert(t.last() == ds[m]);
        assert(digits_val(t) == 10 * digits_val(ds.take(m)) + digit_of(ds[m]));
        lemma_digits_val_nonneg(ds.take(m), ds);
        assert(digit_of(ds[m]) >= 0);
    }
}

/// A digit string's value is non-negative.
proof fn lemma_digits_val_nonneg(t: Seq<char>, ds: Seq<char>)
    requires
        forall|j: int| 0 <= j < ds.len() ==> is_digit(ds[j]),
        exists|m: int| 0 <= m <= ds.len() && t == ds.take(m),
    ensures
        digits_val(t) >= 0,
    decreases t.len(),
{
    if t.len() > 0 {
        let m = choose|m: int| 0 <= m <= ds.len() && t == ds.take(m);
        assert(t.drop_last() =~= ds.take(m - 1));
        lemma_digits_val_nonneg(t.drop_last(), ds);
        assert(t.last() == ds[m - 1]);
        assert(digit_of(t.last()) >= 0);
    }
}

/// Read the player count out of a `list` reply.
pub fn parse_player_count(response: &str) -> (count: u32)
    ensures
        count == player_count_of(response@),
{
    let captured = capture_player_count(response);
    match captured {
        Option::None => 0,
        Option::Some(digits) => {
            proof {
                let (i, k) = choose|i: int, k: int|
                    is_leftmost_match(response@, i, k) && digits@ == response@.subrange(
                        i + 10,
                        i + 10 + k,
                    );
                lemma_count_digits_agree(response@, i, k);
            }
            let ds = digits.as_str();
            let n: usize = ds.unicode_len();
            let mut acc: u64 = 0;
            let mut idx: usize = 0;
            while idx < n
                invariant
                    idx <= n,
                    n == ds@.len(),
                    ds@ == count_digits(response@),
                    has_count_match(response@),
                    forall|j: int| 0 <= j < ds@.len() ==> is_digit(ds@[j]),
                    acc == digits_val(ds@.take(idx as int)),
                    acc <= u32::MAX,
                decreases n - idx,
            {
                let c = ds.get_char(idx);
                let d: u32 = (c as u32) - 48;
                acc = acc * 10 + (d as u64);
                proof {
                    let t = ds@.take(idx as int + 1);
                    assert(t.drop_last() =~= ds@.take(idx as int));
                    assert(t.last() == ds@[idx as int]);
                    assert(digits_val(t) == 10 * digits_val(ds@.take(idx as int)) + digit_of(
                        ds@[idx as int],
                    ));
                }
                idx = idx + 1;
                if acc > 0xffff_ffff {
                    proof {
                        lemma_digits_val_prefix_le(ds@, idx as int);
                        assert(ds@.take(n as int) =~= ds@);
                    }
                    return 0;
                }
            }
            proof {
                assert(ds@.take(n as int) =~= ds@);
            }
            acc as u32
        },
    }
}

/// What one poll tick decides.
#[derive(Debug, Clone, Copy, PartialEq, Eq, Structural)]
pub enum PollAction {
    /// Players are online: remember this instant as last seen occupied.
    MarkOccupied,
    /// Empty long enough: send the stop command and exit the watchdog.
    SendStop,
    /// Empty, but the idle timeout has not elapsed yet: keep polling.
    KeepWaiting,
}

/// Decide one poll tick from the player count, the time since the server
/// was last seen occupied, and the idle timeout (both in the same unit).
pub fn poll_decision(player_count: u32, idle_elapsed_millis: u64, idle_timeout_millis: u64) -> (a:
    PollAction)
    ensures
        player_count > 0 ==> a == PollAction::MarkOccupied,
        player_count == 0 && idle_elapsed_millis >= idle_timeout_millis ==> a
            == PollAction::SendStop,
        player_count == 0 && idle_elapsed_millis < idle_timeout_millis ==> a
            == PollAction::KeepWaiting,
{
    if player_count > 0 {
        PollAction::MarkOccupied
    } else if idle_elapsed_millis >= idle_timeout_millis {
        PollAction::SendStop
    } else {
        PollAction::KeepWaiting
    }
}

/// Decide whether a failed attempt to open the admin connection is retried
/// (after a one-second pause) or surfaced: retries go on until 600 seconds
/// have elapsed since the watchdog started.
pub fn connect_retry_decision(elapsed_secs: u64) -> (retry: bool)
    ensures
        retry == (elapsed_secs <= 600),
{
    elapsed_secs <= 600
}

/// Decide whether a failed admin command is retried: up to five
/// consecutive failures are, with a one-second backoff; the sixth exits
/// the watchdog with an error.
pub fn command_retry_decision(consecutive_errors: u32) -> (retry: bool)
    ensures
        retry == (consecutive_errors < 5),
{
    consecutive_errors < 5
}

} // verus!
