//! The server's configuration grammar: `key=value` lines naming the port,
//! the host and the initial coin count.
//!
//! A line is trimmed of surrounding whitespace and split at its first
//! `=`; a line without one rejects the whole configuration. Unknown keys
//! are ignored, a repeated key keeps its last value, and the three known
//! keys must all be present, with numeric values that fit their types.
//! Reading the file is the embedding program's job; this module gives the
//! contents their meaning.

use vstd::prelude::*;
use vstd::string::StrSliceExecFns;
use crate::text::spec_trim;
use crate::text::trim_str;
use crate::text::first_index_from;
use crate::text::lemma_first_index_from;
use crate::text::find_char;
use crate::text::str_eq_chars;
use crate::traits::Config;

verus! {

pub open spec fn is_digit_char(c: char) -> bool {
    48 <= c as u32 <= 57
}

pub open spec fn all_digit_chars(s: Seq<char>) -> bool {
    forall|i: int| 0 <= i < s.len() ==> is_digit_char(#[trigger] s[i])
}

/// The numeric value of a string of decimal digits.
pub open spec fn digits_value(s: Seq<char>) -> int
    decreases s.len(),
{
    if s.len() == 0 {
        0
    } else {
        digits_value(s.drop_last()) * 10 + (s.last() as u32 - 48)
    }
}

/// What `from_str` makes of an unsigned decimal value: an optional
/// leading `+`, then one or more digits, whose value must fit below `max`.
pub open spec fn spec_parse_uint(s: Seq<char>, max: int) -> Option<int> {
    let digits = if s.len() > 0 && s[0] == '+' {
        s.subrange(1, s.len() as int)
    } else {
        s
    };
    if digits.len() > 0 && all_digit_chars(digits) && digits_value(digits) <= max {
        Some(digits_value(digits))
    } else {
        None
    }
}

pub proof fn lemma_digits_value_nonneg(s: Seq<char>)
    requires
        all_digit_chars(s),
    ensures
        0 <= digits_value(s),
    decreases s.len(),
{
    if s.len() > 0 {
        assert(forall|i: int|
            0 <= i < s.len() - 1 ==> #[trigger] s.drop_last()[i] == s[i]);
        lemma_digits_value_nonneg(s.drop_last());
    }
}

/// Appending digits never shrinks the value: every prefix is worth at
/// most the whole.
pub proof fn lemma_digits_value_prefix_le(s: Seq<char>, i: int)
    requires
        all_digit_chars(s),
        0 <= i <= s.len(),
    ensures
        digits_value(s.subrange(0, i)) <= digits_value(s),
    decreases s.len(),
{
    if i == s.len() {
        assert(s.subrange(0, i) =~= s);
    } else {
        assert(forall|j: int|
            0 <= j < s.len() - 1 ==> #[trigger] s.drop_last()[j] == s[j]);
        lemma_digits_value_prefix_le(s.drop_last(), i);
        assert(s.drop_last().subrange(0, i) =~= s.subrange(0, i));
        lemma_digits_value_nonneg(s.drop_last());
    }
}

/// Parses an unsigned decimal value of at most `max`, accepting exactly
/// what `from_str` accepts.
pub fn parse_uint(s: &str, max: u32) -> (r: Option<u32>)
    ensures
        match r {
            Some(v) => spec_parse_uint(s@, max as int) == Some(v as int) && v <= max,
            None => spec_parse_uint(s@, max as int) is None,
        },
{
    let n = s.unicode_len();
    if n == 0 {
        return None;
    }
    let start: usize = if s.get_char(0) == '+' {
        1
    } else {
        0
    };
    if n == start {
        return None;
    }
    let ghost digits = if start == 1 {
        s@.subrange(1, n as int)
    } else {
        s@
    };
    let mut i: usize = start;
    let mut acc: u64 = 0;
    while i < n
        invariant
            start <= i <= n,
            start == 0 || start == 1,
            n == s@.len(),
            n > start,
            (start == 1) == (s@[0] == '+'),
            digits == if start == 1 {
                s@.subrange(1, n as int)
            } else {
                s@
            },
            all_digit_chars(digits.subrange(0, i - start)),
            acc == digits_value(digits.subrange(0, i - start)),
            acc <= max,
        decreases n - i,
    {
        let c = s.get_char(i);
        let cv = c as u32;
        if cv < 48 || cv > 57 {
            proof {
                assert(digits[i - start] == c);
                assert(!all_digit_chars(digits));
            }
            return None;
        }
        proof {
            let pre = digits.subrange(0, i - start);
            let ext = digits.subrange(0, i + 1 - start);
            assert(ext.drop_last() =~= pre);
            assert(ext.last() == c);
        }
        let acc2: u64 = acc * 10 + (cv - 48) as u64;
        if acc2 > max as u64 {
            proof {
                if all_digit_chars(digits) {
                    lemma_digits_value_prefix_le(digits, i + 1 - start);
                }
            }
            return None;
        }
        acc = acc2;
        i = i + 1;
    }
    proof {
        assert(digits.subrange(0, n - start) =~= digits);
        assert(digits.len() > 0);
    }
    Some(acc as u32)
}

pub open spec fn port_key() -> Seq<char> {
    "port"@
}

pub open spec fn host_key() -> Seq<char> {
    "host"@
}

pub open spec fn coins_key() -> Seq<char> {
    "initial_coins_count"@
}

/// What one line means: the trimmed line split at its first `=`; a line
/// without one is malformed.
pub open spec fn spec_parse_line(line: Seq<char>) -> Option<(Seq<char>, Seq<char>)> {
    let t = spec_trim(line);
    let e = first_index_from(t, '=', 0);
    if e == t.len() {
        None
    } else {
        Some((t.subrange(0, e), t.subrange(e + 1, t.len() as int)))
    }
}

/// Folds the lines from position `i` on into the three key slots, last
/// value winning; a malformed line rejects everything.
pub open spec fn spec_scan(
    s: Seq<char>,
    i: int,
    port: Option<Seq<char>>,
    host: Option<Seq<char>>,
    coins: Option<Seq<char>>,
) -> Option<(Option<Seq<char>>, Option<Seq<char>>, Option<Seq<char>>)>
    decreases s.len() - i,
        via spec_scan_decreases
{
    if i < 0 || i >= s.len() {
        Some((port, host, coins))
    } else {
        let j = first_index_from(s, '\n', i);
        let line = s.subrange(i, j);
        match spec_parse_line(line) {
            None => None,
            Some(kv) => {
                let port2 = if kv.0 == port_key() {
                    Some(kv.1)
                } else {
                    port
                };
                let host2 = if kv.0 == host_key() {
                    Some(kv.1)
                } else {
                    host
                };
                let coins2 = if kv.0 == coins_key() {
                    Some(kv.1)
                } else {
                    coins
                };
                spec_scan(
                    s,
                    if j == s.len() {
                        j
                    } else {
                        j + 1
                    },
                    port2,
                    host2,
                    coins2,
                )
            },
        }
    }
}

#[via_fn]
proof fn spec_scan_decreases(
    s: Seq<char>,
    i: int,
    port: Option<Seq<char>>,
    host: Option<Seq<char>>,
    coins: Option<Seq<char>>,
) {
    if 0 <= i < s.len() {
        lemma_first_index_from(s, '\n', i);
    }
}

/// What a whole configuration text means: every line well-formed, the
/// three keys present, the two counts numeric and in range.
pub open spec fn spec_parse_config(s: Seq<char>) -> Option<(u16, Seq<char>, u32)> {
    match spec_scan(s, 0, None, None, None) {
        None => None,
        Some(slots) => match slots {
            (Some(ps), Some(hs), Some(cs)) => match (
                spec_parse_uint(ps, u16::MAX as int),
                spec_parse_uint(cs, u32::MAX as int),
            ) {
                (Some(pv), Some(cv)) => Some((pv as u16, hs, cv as u32)),
                _ => None,
            },
            _ => None,
        },
    }
}

/// The server's configuration: where to listen and how many coins the
/// machine starts with.
#[derive(Debug, Clone)]
pub struct FileConfig {
    port: u16,
    host: String,
    initial_coins_count: u32,
}

pub open spec fn opt_view(o: &Option<String>) -> Option<Seq<char>> {
    match o {
        None => None,
        Some(x) => Some(x@),
    }
}

/// Splits one trimmed line at its first `=`.
fn parse_line(line: &str) -> (r: Option<(String, String)>)
    ensures
        match spec_parse_line(line@) {
            None => r is None,
            Some(kv) => r is Some && r->Some_0.0@ == kv.0 && r->Some_0.1@ == kv.1,
        },
{
    let t = trim_str(line);
    let tn = t.unicode_len();
    let e = find_char(t, '=', 0);
    proof {
        lemma_first_index_from(t@, '=', 0);
    }
    if e == tn {
        return None;
    }
    let key = t.substring_char(0, e).to_owned();
    let value = t.substring_char(e + 1, tn).to_owned();
    Some((key, value))
}

impl FileConfig {
    pub closed spec fn spec_port(&self) -> u16 {
        self.port
    }

    pub closed spec fn spec_host(&self) -> Seq<char> {
        self.host@
    }

    pub closed spec fn spec_coins(&self) -> u32 {
        self.initial_coins_count
    }

    /// Gives a configuration text its meaning; `None` exactly when the
    /// grammar rejects it.
    pub fn new_from_file(contents: &str) -> (r: Option<FileConfig>)
        ensures
            match r {
                None => spec_parse_config(contents@) is None,
                Some(c) => spec_parse_config(contents@) == Some(
                    (c.spec_port(), c.spec_host(), c.spec_coins()),
                ),
            },
    {
        let n = contents.unicode_len();
        let mut i: usize = 0;
        let mut port_s: Option<String> = None;
        let mut host_s: Option<String> = None;
        let mut coins_s: Option<String> = None;
        while i < n
            invariant
                0 <= i <= n,
                n == contents@.len(),
                spec_scan(contents@, i as int, opt_view(&port_s), opt_view(&host_s), opt_view(&coins_s))
                    == spec_scan(contents@, 0, None, None, None),
            decreases n - i,
        {
            let ghost i0 = i as int;
            let ghost p0 = opt_view(&port_s);
            let ghost h0 = opt_view(&host_s);
            let ghost c0 = opt_view(&coins_s);
            let j = find_char(contents, '\n', i);
            proof {
                lemma_first_index_from(contents@, '\n', i as int);
            }
            let line = contents.substring_char(i, j);
            proof {
                assert(line@ == contents@.subrange(i0, j as int));
            }
            match parse_line(line) {
                None => {
                    proof {
                        assert(spec_scan(contents@, i0, p0, h0, c0) is None);
                    }
                    return None;
                },
                Some((key, value)) => {
                    let is_p = str_eq_chars(key.as_str(), "port");
                    let is_h = str_eq_chars(key.as_str(), "host");
                    let is_c = str_eq_chars(key.as_str(), "initial_coins_count");
                    if is_p {
                        port_s = Some(value.clone());
                    }
                    if is_h {
                        host_s = Some(value.clone());
                    }
                    if is_c {
                        coins_s = Some(value);
                    }
                },
            }
            if j == n {
                i = n;
            } else {
                i = j + 1;
            }
            proof {
                let kv = spec_parse_line(contents@.subrange(i0, j as int))->Some_0;
                assert(opt_view(&port_s) == if kv.0 == port_key() {
                    Some(kv.1)
                } else {
                    p0
                });
                assert(opt_view(&host_s) == if kv.0 == host_key() {
                    Some(kv.1)
                } else {
                    h0
                });
                assert(opt_view(&coins_s) == if kv.0 == coins_key() {
                    Some(kv.1)
                } else {
                    c0
                });
                assert(spec_scan(contents@, i0, p0, h0, c0) == spec_scan(
                    contents@,
                    i as int,
                    opt_view(&port_s),
                    opt_view(&host_s),
                    opt_view(&coins_s),
                ));
            }
        }
        let port_str = match port_s {
            Some(x) => x,
            None => {
                return None;
            },
        };
        let host_str = match host_s {
            Some(x) => x,
            None => {
                return None;
            },
        };
        let coins_str = match coins_s {
            Some(x) => x,
            None => {
                return None;
            },
        };
        let port_v = match parse_uint(port_str.as_str(), 65535) {
            Some(v) => v,
            None => {
                return None;
            },
        };
        let coins_v = match parse_uint(coins_str.as_str(), u32::MAX) {
            Some(v) => v,
            None => {
                return None;
            },
        };
        Some(FileConfig { port: port_v as u16, host: host_str, initial_coins_count: coins_v })
    }
}

impl Config for FileConfig {
    fn port(&self) -> (r: u16)
        ensures
            r == self.spec_port(),
    {
        self.port
    }

    fn host(&self) -> (r: &str)
        ensures
            r@ == self.spec_host(),
    {
        self.host.as_str()
    }

    fn initial_coins_count(&self) -> (r: u32)
        ensures
            r == self.spec_coins(),
    {
        self.initial_coins_count
    }
}

} // verus!
