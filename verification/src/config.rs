//! The proxy's configuration and how its port is chosen.
use vstd::prelude::*;

use crate::text::{chars_of, decimal, digit_char};

verus! {

/// Port used when neither the environment nor the configuration names one.
pub const DEFAULT_PORT: u16 = 8888;

/// The settings read from `config.json` that the library works with.
pub struct Config {
    pub port: Option<u16>,
    /// Service label to color name, in file order.
    pub colors: Vec<(String, String)>,
}

impl Config {
    /// A configuration with nothing set.
    pub fn empty() -> (c: Config)
        ensures
            c.port is None,
            c.colors@.len() == 0,
    {
        Config { port: None, colors: Vec::new() }
    }
}

/// Whether a character is an ASCII decimal digit.
pub open spec fn is_digit(c: char) -> bool {
    '0' <= c && c <= '9'
}

/// The number a run of decimal digits denotes.
pub open spec fn digits_value(s: Seq<char>) -> nat
    decreases s.len(),
{
    if s.len() == 0 {
        0
    } else {
        digits_value(s.drop_last()) * 10 + ((s.last() as u32) - ('0' as u32)) as nat
    }
}

/// The digits of a port text: without one leading `+`.
pub open spec fn port_digits(s: Seq<char>) -> Seq<char> {
    if s.len() > 0 && s[0] == '+' {
        s.drop_first()
    } else {
        s
    }
}

/// The port a text denotes, as `u16` parsing reads it: an optional `+`,
/// then at least one decimal digit, with a value of at most 65535.
pub open spec fn parsed_port(s: Seq<char>) -> Option<u16> {
    let d = port_digits(s);
    if d.len() > 0 && (forall|i: int| 0 <= i < d.len() ==> is_digit(#[trigger] d[i]))
        && digits_value(d) <= 65535 {
        Some(digits_value(d) as u16)
    } else {
        None
    }
}

proof fn lemma_decimal_digits(n: nat)
    ensures
        decimal(n).len() > 0,
        forall|i: int| 0 <= i < decimal(n).len() ==> is_digit(#[trigger] decimal(n)[i]),
        digits_value(decimal(n)) == n,
    decreases n,
{
    let d = digit_char(n % 10);
    assert(d as u32 == (n % 10) + 48) by {
        assert((((n % 10) + 48) as u8) as char as u32 == (n % 10) + 48);
    }
    if n < 10 {
        let s = decimal(n);
        assert(s == seq![d]);
        assert(s.drop_last() =~= Seq::<char>::empty());
        assert(digits_value(Seq::<char>::empty()) == 0);
    } else {
        lemma_decimal_digits(n / 10);
        let s = decimal(n);
        assert(s == decimal(n / 10).push(d));
        assert(s.drop_last() =~= decimal(n / 10));
        assert forall|i: int| 0 <= i < s.len() implies is_digit(#[trigger] s[i]) by {
            if i < s.len() - 1 {
                assert(s[i] == decimal(n / 10)[i]);
            }
        }
        assert((n / 10) * 10 + n % 10 == n);
    }
}

/// A port written in decimal, as the environment would hold it, reads
/// back as the same port.
pub proof fn law_port_text_round_trip(p: u16)
    ensures
        parsed_port(decimal(p as nat)) == Some(p),
{
    lemma_decimal_digits(p as nat);
    assert(decimal(p as nat)[0] != '+');
    assert(port_digits(decimal(p as nat)) == decimal(p as nat));
}

/// Reads a port number from text.
pub fn parse_port(s: &str) -> (r: Option<u16>)
    ensures
        r == parsed_port(s@),
{
    let cs = chars_of(s);
    let n = cs.len();
    let mut start: usize = 0;
    if n > 0 && cs[0] == '+' {
        start = 1;
    }
    let ghost d = port_digits(cs@);
    assert(d == cs@.subrange(start as int, n as int));
    if start == n {
        return None;
    }
    let mut value: u32 = 0;
    let mut i: usize = start;
    while i < n
        invariant
            start <= i <= n,
            n == cs@.len(),
            cs@ == s@,
            d == port_digits(s@),
            d == cs@.subrange(start as int, n as int),
            forall|j: int| start <= j < i ==> is_digit(#[trigger] cs@[j]),
            value as nat == if digits_value(cs@.subrange(start as int, i as int)) < 65536 {
                digits_value(cs@.subrange(start as int, i as int))
            } else {
                65536
            },
        decreases n - i,
    {
        let c = cs[i];
        if !('0' <= c && c <= '9') {
            assert(!is_digit(d[i - start]));
            return None;
        }
        let digit: u32 = (c as u32) - ('0' as u32);
        let ghost prev = cs@.subrange(start as int, i as int);
        let ghost next = cs@.subrange(start as int, i + 1);
        assert(next.drop_last() == prev);
        assert(next.last() == c);
        let wide: u32 = value * 10 + digit;
        value = if wide < 65536 { wide } else { 65536 };
        i = i + 1;
    }
    assert(cs@.subrange(start as int, n as int) == d);
    if value < 65536 {
        Some(value as u16)
    } else {
        None
    }
}

/// The port the proxy listens on: the `PORT` variable when it parses as a
/// port, else the configured port, else 8888.
pub open spec fn chosen_port(env_port: Option<Seq<char>>, config_port: Option<u16>) -> u16 {
    let from_env = match env_port {
        Some(p) => parsed_port(p),
        None => None,
    };
    match from_env {
        Some(p) => p,
        None => match config_port {
            Some(p) => p,
            None => 8888,
        },
    }
}

/// Chooses the port from the value of the `PORT` variable, if it is set,
/// and the configuration.
pub fn resolve_port(env_port: Option<&str>, config: &Config) -> (r: u16)
    ensures
        r == chosen_port(
            match env_port {
                Some(p) => Some(p@),
                None => None,
            },
            config.port,
        ),
{
    let from_env = match env_port {
        Some(p) => parse_port(p),
        None => None,
    };
    match from_env {
        Some(p) => p,
        None => match config.port {
            Some(p) => p,
            None => DEFAULT_PORT,
        },
    }
}

} // verus!
