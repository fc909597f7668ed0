use vstd::prelude::*;
use crate::config::Config;
use crate::text::{decimal, lemma_parse_i32_of_decimal, lemma_parse_negative_decimal, parse_i32, parse_i32_spec};

verus! {

/// The timeout that a duration text sets: what `str::parse::<i32>` reads from it, where an
/// unparseable text counts as 0, and 0 means no timeout.
pub open spec fn parsed_timeout_spec(duration: Seq<char>) -> Option<i32> {
    match parse_i32_spec(duration) {
        Some(v) => if v == 0 { None } else { Some(v) },
        None => None,
    }
}

/// The two configurations agree on everything but the timeout.
pub open spec fn same_but_timeout(a: Config, b: Config) -> bool {
    a.default_folder == b.default_folder && a.ignored_folders == b.ignored_folders
}

/// Reads a timeout in seconds: an unparseable duration is treated as 0 rather than rejected,
/// and 0 means no timeout (`None`).
pub fn parsed_timeout(duration: &str) -> (r: Option<i32>)
    ensures
        r == parsed_timeout_spec(duration@),
{
    let value: i32 = match parse_i32(duration) {
        Some(v) => v,
        None => 0,
    };
    if value == 0 {
        None
    } else {
        Some(value)
    }
}

/// Sets the configured timeout from a duration text, leaving the other settings as they were.
pub fn set_timeout_at(config: &mut Config, duration: &str)
    ensures
        final(config).time_out == parsed_timeout_spec(duration@),
        same_but_timeout(*final(config), *old(config)),
{
    config.time_out = parsed_timeout(duration);
}

/// Clears the configured timeout, leaving the other settings as they were.
pub fn unset_timeout_at(config: &mut Config)
    ensures
        final(config).time_out is None,
        same_but_timeout(*final(config), *old(config)),
{
    config.time_out = None;
}

/// `rat cfg to <duration>` only changes the configuration when a duration was given; with an
/// empty one the caller reminds the user instead and leaves the file alone.
pub fn duration_given(duration: &str) -> (r: bool)
    ensures
        r == (duration@.len() > 0),
{
    !duration.is_empty()
}

/// `rat cfg nto`: clears the configured timeout.
pub fn unset_timeout(config: &mut Config)
    ensures
        final(config).time_out is None,
        same_but_timeout(*final(config), *old(config)),
{
    unset_timeout_at(config);
}

/// A timeout that is set is never 0: 0 always means that there is none.
pub proof fn lemma_parsed_timeout_never_zero(duration: Seq<char>)
    ensures
        parsed_timeout_spec(duration) != Some(0i32),
{
}

/// `rat cfg to N` with N written in decimal stores N seconds, for every positive `i32` N.
pub proof fn lemma_decimal_duration_is_stored(n: i32)
    requires
        n > 0,
    ensures
        parsed_timeout_spec(decimal(n as nat)) == Some(n),
{
    lemma_parse_i32_of_decimal(n);
}

/// A negative duration is kept as given: `rat cfg to -N` stores -N.
pub proof fn lemma_negative_duration_is_stored(n: nat)
    requires
        0 < n <= 2147483648,
    ensures
        parsed_timeout_spec(seq!['-'] + decimal(n)) == Some((-n) as i32),
{
    lemma_parse_negative_decimal(n);
}

/// A duration that does not read as an `i32` clears the timeout instead of being rejected.
pub proof fn lemma_unreadable_duration_clears(duration: Seq<char>)
    requires
        parse_i32_spec(duration) is None,
    ensures
        parsed_timeout_spec(duration) is None,
{
}

/// The setters change nothing but the timeout: two configurations that agree apart from the
/// timeout, and on the timeout too, are the same configuration.
pub proof fn lemma_only_the_timeout_differs(a: Config, b: Config)
    requires
        same_but_timeout(a, b),
        a.time_out == b.time_out,
    ensures
        a == b,
{
}

} // verus!
