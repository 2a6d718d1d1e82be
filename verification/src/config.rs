//! Service configuration: required and optional settings and their parsing.

use vstd::prelude::*;
use vstd::string::*;
use crate::text::is_ascii_digit;

verus! {

/// The port used when none is configured.
pub const DEFAULT_PORT: u16 = 3000;

/// Settings the service starts with.
#[derive(Debug)]
pub struct Config {
    pub database_url: String,
    pub port: u16,
}

/// Why the configuration is unusable.
#[derive(Debug)]
pub enum ConfigError {
    /// A required variable is not set.
    Missing(&'static str),
    /// A variable is set to something unusable.
    Invalid { name: &'static str, value: String },
}

/// The value of a run of decimal digits.
pub open spec fn decimal_value(d: Seq<char>) -> nat
    decreases d.len(),
{
    if d.len() == 0 {
        0
    } else {
        (decimal_value(d.drop_last()) * 10 + (d.last() as nat - 48)) as nat
    }
}

/// The digits of an unsigned decimal: an optional `+`, then at least one digit.
pub open spec fn unsigned_digits(s: Seq<char>) -> Option<Seq<char>> {
    if digits_part(s).len() > 0 && all_digits(digits_part(s)) {
        Some(digits_part(s))
    } else {
        None
    }
}

/// `s` without a leading `+`.
pub open spec fn digits_part(s: Seq<char>) -> Seq<char> {
    if s.len() > 0 && s[0] == '+' {
        s.drop_first()
    } else {
        s
    }
}

/// Only ASCII digits.
pub open spec fn all_digits(d: Seq<char>) -> bool {
    forall|i: int| 0 <= i < d.len() ==> is_ascii_digit(#[trigger] d[i])
}

/// `s` as a `u16` the way `str::parse` reads it: an optional `+`, one or
/// more ASCII digits, a value up to 65535.
pub open spec fn parsed_u16(s: Seq<char>) -> Option<u16> {
    match unsigned_digits(s) {
        Some(d) => if decimal_value(d) <= u16::MAX {
            Some(decimal_value(d) as u16)
        } else {
            None
        },
        None => None,
    }
}

proof fn lemma_value_monotone(d: Seq<char>, c: char)
    requires
        is_ascii_digit(c),
    ensures
        decimal_value(d.push(c)) == decimal_value(d) * 10 + (c as nat - 48),
        decimal_value(d.push(c)) >= decimal_value(d),
{
    assert(d.push(c).drop_last() =~= d);
}

/// Parses a port number.
pub fn parse_u16(s: &str) -> (r: Option<u16>)
    ensures
        r == parsed_u16(s@),
{
    let cs = crate::text::chars_of(s);
    let start: usize = if cs.len() > 0 && cs[0] == '+' {
        1
    } else {
        0
    };
    let ghost d = digits_part(s@);
    assert(d =~= cs@.skip(start as int));
    if start >= cs.len() {
        return None;
    }
    let mut value: u32 = 0;
    let mut overflow = false;
    let mut i: usize = start;
    while i < cs.len()
        invariant
            start <= i <= cs@.len(),
            cs@ == s@,
            d == cs@.skip(start as int),
            d == digits_part(s@),
            forall|j: int| start <= j < i ==> is_ascii_digit(#[trigger] cs@[j]),
            !overflow ==> value == decimal_value(cs@.subrange(start as int, i as int)),
            overflow ==> decimal_value(cs@.subrange(start as int, i as int)) > u16::MAX,
            value <= u16::MAX,
        decreases cs.len() - i,
    {
        let c = cs[i];
        if !crate::text::is_digit(c) {
            assert(d[i - start] == c);
            assert(!is_ascii_digit(d[i - start]));
            assert(!all_digits(d));
            return None;
        }
        let ghost prev = cs@.subrange(start as int, i as int);
        assert(cs@.subrange(start as int, i as int + 1) =~= prev.push(c));
        proof {
            lemma_value_monotone(prev, c);
        }
        if !overflow {
            let next: u32 = value * 10 + ((c as u32) - 48);
            if next > 65535 {
                overflow = true;
            } else {
                value = next;
            }
        }
        i = i + 1;
    }
    assert(cs@.subrange(start as int, cs@.len() as int) =~= d);
    assert forall|j: int| 0 <= j < d.len() implies is_ascii_digit(#[trigger] d[j]) by {
        assert(d[j] == cs@[j + start]);
    }
    if overflow {
        None
    } else {
        Some(value as u16)
    }
}

/// The port: the default when unset, the parsed value, or an error naming
/// the bad value.
pub fn port_from(raw: Option<String>) -> (r: Result<u16, ConfigError>)
    ensures
        match raw {
            None => r matches Ok(p) && p == DEFAULT_PORT,
            Some(v) => match parsed_u16(v@) {
                Some(p) => r matches Ok(q) && q == p,
                None => r matches Err(ConfigError::Invalid { name, value }) && name@ == "PORT"@ && value@ == v@,
            },
        },
{
    match raw {
        None => Ok(DEFAULT_PORT),
        Some(v) => match parse_u16(v.as_str()) {
            Some(p) => Ok(p),
            None => Err(ConfigError::Invalid { name: "PORT", value: v }),
        },
    }
}

/// The configuration from the `DATABASE_URL` and `PORT` settings, if set.
pub fn config_from(database_url: Option<String>, port: Option<String>) -> (r: Result<Config, ConfigError>)
    ensures
        database_url is None ==> (r matches Err(ConfigError::Missing(n)) && n@ == "DATABASE_URL"@),
        database_url matches Some(url) ==> match port {
            None => r matches Ok(c) && c.database_url == url && c.port == DEFAULT_PORT,
            Some(v) => match parsed_u16(v@) {
                Some(p) => r matches Ok(c) && c.database_url == url && c.port == p,
                None => r matches Err(ConfigError::Invalid { name, value }) && name@ == "PORT"@ && value@ == v@,
            },
        },
{
    let database_url = match database_url {
        Some(u) => u,
        None => return Err(ConfigError::Missing("DATABASE_URL")),
    };
    let port = port_from(port)?;
    Ok(Config { database_url, port })
}

} // verus!
