//! Startup configuration: where the records are and how long a time slice
//! lasts, read from the general section of an ini text.
use vstd::prelude::*;
use ini::{Ini, ParseError};

verus! {

#[verifier::external_type_specification]
#[verifier::external_body]
pub struct ExIni(Ini);

#[verifier::external_type_specification]
#[verifier::external_body]
pub struct ExParseError(ParseError);

/// Whether rust-ini accepts `text` as ini.
pub uninterp spec fn ini_accepts(text: Seq<char>) -> bool;

/// The entries of the general (unnamed) section of an ini document: each
/// key with its first value, taken from the first such section.
pub uninterp spec fn ini_general(c: Ini) -> Map<Seq<char>, Seq<char>>;

/// Relies on `Ini::load_from_str`: parses `text`, failing where it is not ini.
#[verifier::external_body]
fn parse_ini(text: &str) -> (r: Result<Ini, ParseError>)
    ensures
        r is Ok <==> ini_accepts(text@),
{
    Ini::load_from_str(text)
}

/// Relies on `Ini::get_from` with no section name: the first value of `key`
/// in the general section.
#[verifier::external_body]
fn general_value(c: &Ini, key: &str) -> (r: Option<String>)
    ensures
        match r {
            Some(v) => ini_general(*c).contains_key(key@) && ini_general(*c)[key@] == v@,
            None => !ini_general(*c).contains_key(key@),
        },
{
    c.get_from(None::<String>, key).map(|v| v.to_string())
}

/// The validated startup settings.
#[derive(Clone, Debug, PartialEq, Eq)]
pub struct Config {
    pub fortunes_path: String,
    pub time_slice_seconds: u64,
}

/// Why the configuration is unusable.
#[derive(Clone, Copy, Debug, PartialEq, Eq)]
pub enum ConfigError {
    /// The text is not ini.
    Syntax,
    /// `fortunes_path` is not set in the general section.
    MissingFortunesPath,
    /// `time_slice_seconds` is not set in the general section.
    MissingTimeSlice,
    /// `time_slice_seconds` is not a positive integer that fits 64 bits.
    InvalidTimeSlice,
}

pub open spec fn is_digit(c: char) -> bool {
    '0' <= c <= '9'
}

/// The number that a sequence of decimal digits writes.
pub open spec fn digits_value(s: Seq<char>) -> nat
    decreases s.len(),
{
    if s.len() == 0 {
        0
    } else {
        digits_value(s.drop_last()) * 10 + (s.last() as nat - '0' as nat) as nat
    }
}

/// The digits of an unsigned decimal, without its optional leading `+`.
pub open spec fn unsigned_digits(s: Seq<char>) -> Seq<char> {
    if s.len() > 0 && s[0] == '+' {
        s.drop_first()
    } else {
        s
    }
}

/// The value of an unsigned decimal (an optional `+`, then one or more
/// digits) where it fits 64 bits.
pub open spec fn decimal_u64(s: Seq<char>) -> Option<u64> {
    let d = unsigned_digits(s);
    if d.len() > 0 && (forall|i: int| 0 <= i < d.len() ==> is_digit(#[trigger] d[i]))
        && digits_value(d) <= u64::MAX {
        Some(digits_value(d) as u64)
    } else {
        None
    }
}

proof fn lemma_digits_prefix(d: Seq<char>, i: int)
    requires
        0 <= i <= d.len(),
    ensures
        digits_value(d.take(i)) <= digits_value(d),
    decreases d.len(),
{
    if i < d.len() {
        assert(d.drop_last().take(i) =~= d.take(i));
        lemma_digits_prefix(d.drop_last(), i);
    } else {
        assert(d.take(i) =~= d);
    }
}

/// Reads an unsigned decimal: an optional `+`, then decimal digits only.
pub fn parse_decimal_u64(s: &str) -> (r: Option<u64>)
    ensures
        r == decimal_u64(s@),
{
    let n = s.unicode_len();
    let mut i: usize = 0;
    if n > 0 && s.get_char(0) == '+' {
        i = 1;
    }
    let start = i;
    let ghost d = unsigned_digits(s@);
    assert(d =~= s@.subrange(start as int, n as int));
    if i == n {
        return None;
    }
    let mut acc: u64 = 0;
    while i < n
        invariant
            start <= i <= n,
            n == s@.len(),
            d =~= s@.subrange(start as int, n as int),
            d == unsigned_digits(s@),
            forall|k: int| 0 <= k < i - start ==> is_digit(#[trigger] d[k]),
            acc == digits_value(d.take(i - start)),
        decreases n - i,
    {
        let c = s.get_char(i);
        let ghost k = i - start;
        assert(d[k] == c);
        if c < '0' || c > '9' {
            assert(!is_digit(d[k]));
            return None;
        }
        assert(d.take(k + 1).drop_last() =~= d.take(k));
        assert(d.take(k + 1).last() == c);
        let digit = (c as u32 - '0' as u32) as u64;
        match acc.checked_mul(10) {
            Some(m) => match m.checked_add(digit) {
                Some(v) => {
                    acc = v;
                },
                None => {
                    proof {
                        assert(m + digit > u64::MAX);
                        lemma_digits_prefix(d, k + 1);
                    }
                    return None;
                },
            },
            None => {
                proof {
                    assert(acc * 10 > u64::MAX);
                    lemma_digits_prefix(d, k + 1);
                }
                return None;
            },
        }
        i += 1;
    }
    assert(d.take(i - start) =~= d);
    Some(acc)
}

/// The configuration that the general entries `m` give, or the first
/// reason why they give none.
pub open spec fn config_of(m: Map<Seq<char>, Seq<char>>) -> Result<(Seq<char>, u64), ConfigError> {
    if !m.contains_key("fortunes_path"@) {
        Err(ConfigError::MissingFortunesPath)
    } else if !m.contains_key("time_slice_seconds"@) {
        Err(ConfigError::MissingTimeSlice)
    } else {
        match decimal_u64(m["time_slice_seconds"@]) {
            Some(v) if v > 0 => Ok((m["fortunes_path"@], v)),
            _ => Err(ConfigError::InvalidTimeSlice),
        }
    }
}

pub open spec fn config_view(r: Result<Config, ConfigError>) -> Result<(Seq<char>, u64), ConfigError> {
    match r {
        Ok(c) => Ok((c.fortunes_path@, c.time_slice_seconds)),
        Err(e) => Err(e),
    }
}

impl Config {
    /// Reads `fortunes_path` and `time_slice_seconds` from the general
    /// section of a parsed ini document.
    pub fn from_ini(c: &Ini) -> (r: Result<Config, ConfigError>)
        ensures
            config_view(r) == config_of(ini_general(*c)),
    {
        let fortunes_path = match general_value(c, "fortunes_path") {
            Some(p) => p,
            None => return Err(ConfigError::MissingFortunesPath),
        };
        let seconds = match general_value(c, "time_slice_seconds") {
            Some(t) => t,
            None => return Err(ConfigError::MissingTimeSlice),
        };
        match parse_decimal_u64(seconds.as_str()) {
            Some(v) => {
                if v > 0 {
                    Ok(Config { fortunes_path, time_slice_seconds: v })
                } else {
                    Err(ConfigError::InvalidTimeSlice)
                }
            },
            None => Err(ConfigError::InvalidTimeSlice),
        }
    }

    /// Parses an ini text and reads the configuration from it.
    pub fn parse(text: &str) -> (r: Result<Config, ConfigError>)
        ensures
            r == Err::<Config, ConfigError>(ConfigError::Syntax) <==> !ini_accepts(text@),
            ini_accepts(text@) ==> exists|c: Ini|
                config_view(r) == #[trigger] config_of(ini_general(c)),
    {
        match parse_ini(text) {
            Ok(c) => Config::from_ini(&c),
            Err(_) => Err(ConfigError::Syntax),
        }
    }
}

} // verus!
