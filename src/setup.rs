//! Startup checks on the exchange's trading rules, and request timestamps.
use vstd::prelude::*;
use crate::text::text_eq;
use crate::decode::SymbolInfo;

verus! {

/// Why the configured pair cannot be traded.
#[derive(Clone, Copy, Debug, PartialEq, Eq, Structural)]
pub enum SetupError {
    UnknownPair,
    NotTrading,
    NoLimitOrders,
    NoPostOnly,
}

/// Index of the first symbol entry named `pair`.
pub open spec fn first_symbol(s: Seq<SymbolInfo>, pair: Seq<char>) -> Option<int>
    decreases s.len(),
{
    if s.len() == 0 {
        None
    } else {
        match first_symbol(s.drop_last(), pair) {
            Some(i) => Some(i),
            None => if s.last().symbol@ == pair { Some(s.len() - 1) } else { None },
        }
    }
}

pub open spec fn lists(v: Seq<String>, t: Seq<char>) -> bool {
    exists|i: int| 0 <= i < v.len() && (#[trigger] v[i])@ == t
}

/// The outcome of the startup check for `pair`.
pub open spec fn symbol_check(s: Seq<SymbolInfo>, pair: Seq<char>) -> Result<usize, SetupError> {
    match first_symbol(s, pair) {
        None => Err(SetupError::UnknownPair),
        Some(i) => if s[i].status@ != "TRADING"@ {
            Err(SetupError::NotTrading)
        } else if !lists(s[i].order_types@, "LIMIT"@) {
            Err(SetupError::NoLimitOrders)
        } else if !lists(s[i].time_in_force@, "GTX"@) {
            Err(SetupError::NoPostOnly)
        } else {
            Ok(i as usize)
        },
    }
}


fn contains_text(v: &Vec<String>, t: &str) -> (r: bool)
    ensures
        r == lists(v@, t@),
{
    let mut i: usize = 0;
    while i < v.len()
        invariant
            i <= v@.len(),
            forall|j: int| 0 <= j < i ==> (#[trigger] v@[j])@ != t@,
        decreases v@.len() - i,
    {
        if text_eq(&v[i], t) {
            return true;
        }
        i = i + 1;
    }
    false
}

proof fn lemma_first_symbol_prefix(s: Seq<SymbolInfo>, pair: Seq<char>, k: int, j: int)
    requires
        0 < k <= s.len(),
        first_symbol(s.take(k), pair) == Some(j),
    ensures
        first_symbol(s, pair) == Some(j),
    decreases s.len() - k,
{
    if k < s.len() {
        assert(s.take(k + 1).drop_last() =~= s.take(k));
        assert(first_symbol(s.take(k + 1), pair) == Some(j));
        lemma_first_symbol_prefix(s, pair, k + 1, j);
    } else {
        assert(s.take(k) =~= s);
    }
}

/// Finds the configured pair among the exchange's symbols and checks that it
/// trades, takes limit orders and takes post-only (GTX) orders; gives the
/// index of its entry.
pub fn check_symbol(symbols: &Vec<SymbolInfo>, pair: &String) -> (r: Result<usize, SetupError>)
    ensures
        r == symbol_check(symbols@, pair@),
{
    let mut i: usize = 0;
    while i < symbols.len()
        invariant
            i <= symbols@.len(),
            first_symbol(symbols@.take(i as int), pair@) is None,
        decreases symbols@.len() - i,
    {
        assert(symbols@.take(i as int + 1).drop_last() =~= symbols@.take(i as int));
        if *pair == symbols[i].symbol {
            proof {
                lemma_first_symbol_prefix(symbols@, pair@, i as int + 1, i as int);
            }
            let s = &symbols[i];
            if !text_eq(&s.status, "TRADING") {
                return Err(SetupError::NotTrading);
            }
            if !contains_text(&s.order_types, "LIMIT") {
                return Err(SetupError::NoLimitOrders);
            }
            if !contains_text(&s.time_in_force, "GTX") {
                return Err(SetupError::NoPostOnly);
            }
            return Ok(i);
        }
        i = i + 1;
    }
    assert(symbols@.take(symbols@.len() as int) =~= symbols@);
    Err(SetupError::UnknownPair)
}

/// Milliseconds of clock-skew slack taken off every request timestamp.
pub const TIMESTAMP_SLACK_MS: u128 = 1000;

pub open spec fn skewed(ms: u128) -> u128 {
    if ms >= TIMESTAMP_SLACK_MS { (ms - TIMESTAMP_SLACK_MS) as u128 } else { 0 }
}

/// Relies on `SystemTime::now().duration_since(UNIX_EPOCH)`: the wall clock
/// in milliseconds since the epoch, or `0` for a clock set before it.
#[verifier::external_body]
fn now_millis() -> u128 {
    std::time::SystemTime::now().duration_since(std::time::UNIX_EPOCH).map(|d| d.as_millis()).unwrap_or(0)
}

/// A clock reading in milliseconds, one second in the past.
pub fn timestamp_from_millis(ms: u128) -> (r: u128)
    ensures
        r == skewed(ms),
{
    if ms >= TIMESTAMP_SLACK_MS { ms - TIMESTAMP_SLACK_MS } else { 0 }
}

/// The request timestamp: now, in milliseconds, one second in the past.
pub fn get_timestamp() -> (r: u128)
    ensures
        exists|ms: u128| r == skewed(ms),
{
    timestamp_from_millis(now_millis())
}


/// Code of a settings call that succeeded.
pub const SUCCESS_CODE: i64 = 200;

/// A settings call (position mode, margin mode, ...) succeeded, or reported
/// that the setting was already in place.
pub fn settings_code_ok(code: i64, already_set: i64) -> (r: bool)
    ensures
        r == (code == SUCCESS_CODE || code == already_set),
{
    code == SUCCESS_CODE || code == already_set
}

/// A command read from the chat relay.
#[derive(Clone, Copy, Debug, PartialEq, Eq, Structural)]
pub enum Command {
    /// Stop the process.
    Kill,
    /// Stop opening positions; keep managing closes.
    CloseOnly,
    /// Any other message.
    Nothing,
}

pub open spec fn command_of(text: Seq<char>) -> Command {
    if text == "kill"@ {
        Command::Kill
    } else if text == "close"@ {
        Command::CloseOnly
    } else {
        Command::Nothing
    }
}

/// Recognises the two commands of the chat relay.
pub fn parse_command(text: &str) -> (r: Command)
    ensures
        r == command_of(text@),
{
    let t = String::from_str(text);
    if text_eq(&t, "kill") {
        Command::Kill
    } else if text_eq(&t, "close") {
        Command::CloseOnly
    } else {
        Command::Nothing
    }
}

} // verus!
