//! Channel names and command text for the notification protocol.
//!
//! Every endpoint and every idle connection subscribes to a channel named
//! `thread_<id>`.  The library builds these names, and the exact command
//! strings that subscribe to a channel and signal one, so that what goes on
//! the wire is pinned down to the character.

use vstd::prelude::*;
use vstd::string::*;

verus! {

/// The character for one decimal digit.
pub open spec fn digit_char(d: int) -> char {
    if d == 0 {
        '0'
    } else if d == 1 {
        '1'
    } else if d == 2 {
        '2'
    } else if d == 3 {
        '3'
    } else if d == 4 {
        '4'
    } else if d == 5 {
        '5'
    } else if d == 6 {
        '6'
    } else if d == 7 {
        '7'
    } else if d == 8 {
        '8'
    } else {
        '9'
    }
}

/// The decimal digits of `n`, most significant first, without leading
/// zeroes (except for `n == 0` itself).
pub open spec fn decimal_digits(n: nat) -> Seq<char>
    decreases n,
{
    if n < 10 {
        seq![digit_char(n as int)]
    } else {
        decimal_digits(n / 10).push(digit_char((n % 10) as int))
    }
}

/// The one-character string for a decimal digit.
fn digit_str(d: u64) -> (r: &'static str)
    requires
        d < 10,
    ensures
        r@ == seq![digit_char(d as int)],
{
    proof {
        reveal_strlit("0");
        reveal_strlit("1");
        reveal_strlit("2");
        reveal_strlit("3");
        reveal_strlit("4");
        reveal_strlit("5");
        reveal_strlit("6");
        reveal_strlit("7");
        reveal_strlit("8");
        reveal_strlit("9");
    }
    match d {
        0 => "0",
        1 => "1",
        2 => "2",
        3 => "3",
        4 => "4",
        5 => "5",
        6 => "6",
        7 => "7",
        8 => "8",
        _ => "9",
    }
}

/// `n` in decimal.
pub fn u64_to_string(n: u64) -> (r: String)
    ensures
        r@ == decimal_digits(n as nat),
    decreases n,
{
    if n < 10 {
        String::from_str(digit_str(n))
    } else {
        let prefix = u64_to_string(n / 10);
        let r = prefix.concat(digit_str(n % 10));
        proof {
            assert(r@ =~= decimal_digits((n / 10) as nat).push(digit_char((n % 10) as int)));
        }
        r
    }
}

/// The channel name of endpoint or idle connection number `id`.
pub open spec fn spec_channel_name(id: nat) -> Seq<char> {
    "thread_"@ + decimal_digits(id)
}

/// Builds the channel name `thread_<id>`.
pub fn channel_name(id: u64) -> (r: String)
    ensures
        r@ == spec_channel_name(id as nat),
{
    let digits = u64_to_string(id);
    let r = String::from_str("thread_").concat(digits.as_str());
    r
}

/// The command that subscribes the issuing connection to `channel`.
pub open spec fn spec_listen_command(channel: Seq<char>) -> Seq<char> {
    "LISTEN "@ + channel
}

/// Builds the subscribe command for `channel`.
pub fn listen_command(channel: &String) -> (r: String)
    ensures
        r@ == spec_listen_command(channel@),
{
    String::from_str("LISTEN ").concat(channel.as_str())
}

/// The command that sends one zero-payload signal to `channel`.
pub open spec fn spec_notify_command(channel: Seq<char>) -> Seq<char> {
    "SELECT pg_notify('"@ + channel + "', NULL)"@
}

/// Builds the zero-payload signal command for `channel`.
pub fn notify_command(channel: &String) -> (r: String)
    ensures
        r@ == spec_notify_command(channel@),
{
    let r = String::from_str("SELECT pg_notify('").concat(channel.as_str()).concat("', NULL)");
    proof {
        assert(r@ =~= spec_notify_command(channel@));
    }
    r
}

} // verus!
