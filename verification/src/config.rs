//! Parsing the process configuration.
//!
//! The configuration text holds `name: value` lines; the recognized names
//! are `port`, `key`, `username` and `password`, the last occurrence of a
//! name wins, and every other line is ignored.  All four values are
//! required, and the port must be a decimal number no greater than 65535;
//! anything else is a fatal startup error, reported as the exact
//! `ConfigError` the contracts name.

use vstd::prelude::*;
use vstd::string::*;

use crate::registrar::{spec_lines, strip_cr};
use crate::request::colon_space;
use crate::split::{spec_split_once, split_once_str, str_eq};

verus! {

/// A decimal digit.
pub open spec fn is_digit(c: char) -> bool {
    '0' <= c && c <= '9'
}

/// Every character of `s` is a decimal digit.
pub open spec fn all_digits(s: Seq<char>) -> bool {
    forall|i: int| 0 <= i < s.len() ==> is_digit(#[trigger] s[i])
}

/// The numeric value of a digit string, leading zeroes allowed.
pub open spec fn digits_val(s: Seq<char>) -> int
    decreases s.len(),
{
    if s.len() == 0 {
        0
    } else {
        digits_val(s.drop_last()) * 10 + (s.last() as int - 48)
    }
}

/// What parsing a port value yields: the numeric value of a nonempty
/// all-digit string that fits a `u16`; anything else fails.
pub open spec fn spec_parse_u16(s: Seq<char>) -> Option<u16> {
    if s.len() > 0 && all_digits(s) && digits_val(s) <= 65535 {
        Some(digits_val(s) as u16)
    } else {
        None
    }
}

proof fn lemma_digits_val_nonneg(s: Seq<char>)
    requires
        all_digits(s),
    ensures
        digits_val(s) >= 0,
    decreases s.len(),
{
    if s.len() > 0 {
        assert(all_digits(s.drop_last()));
        lemma_digits_val_nonneg(s.drop_last());
    }
}

proof fn lemma_digits_val_mono(s: Seq<char>, k: int)
    requires
        0 <= k <= s.len(),
        all_digits(s),
    ensures
        digits_val(s) >= digits_val(s.subrange(0, k)),
    decreases s.len() - k,
{
    if k == s.len() {
        assert(s.subrange(0, k) =~= s);
    } else {
        assert(all_digits(s.drop_last()));
        assert(s.drop_last().subrange(0, k) =~= s.subrange(0, k));
        lemma_digits_val_mono(s.drop_last(), k);
        lemma_digits_val_nonneg(s.drop_last());
    }
}

/// Parses a decimal port number, exactly as `spec_parse_u16` describes.
#[verifier::loop_isolation(false)]
pub fn parse_u16(s: &str) -> (r: Option<u16>)
    ensures
        r == spec_parse_u16(s@),
{
    let n = s.unicode_len();
    if n == 0 {
        return None;
    }
    let mut value: u32 = 0;
    let mut i: usize = 0;
    while i < n
        invariant
            i <= n,
            all_digits(s@.subrange(0, i as int)),
            value == digits_val(s@.subrange(0, i as int)),
            value <= 65535,
        decreases n - i,
    {
        let c = s.get_char(i);
        if c < '0' || c > '9' {
            proof {
                assert(!is_digit(s@[i as int]));
            }
            return None;
        }
        let d: u32 = (c as u32) - 48;
        proof {
            assert(s@.subrange(0, i + 1).drop_last() =~= s@.subrange(0, i as int));
            assert(s@.subrange(0, i + 1).last() == s@[i as int]);
        }
        value = value * 10 + d;
        if value > 65535 {
            proof {
                if all_digits(s@) {
                    lemma_digits_val_mono(s@, i + 1);
                }
            }
            return None;
        }
        i += 1;
    }
    proof {
        assert(s@.subrange(0, n as int) =~= s@);
    }
    Some(value as u16)
}

/// Folds the configuration lines left to right: a line that splits on
/// `": "` into a recognized name records its value (the last occurrence
/// wins); every other line is ignored.  The result is the recorded values
/// of `port`, `key`, `username` and `password`, in that order.
pub open spec fn fold_config(
    lines: Seq<Seq<char>>,
    port: Option<Seq<char>>,
    key: Option<Seq<char>>,
    user: Option<Seq<char>>,
    pass: Option<Seq<char>>,
) -> (Option<Seq<char>>, Option<Seq<char>>, Option<Seq<char>>, Option<Seq<char>>)
    decreases lines.len(),
{
    if lines.len() == 0 {
        (port, key, user, pass)
    } else {
        match spec_split_once(lines[0], colon_space()) {
            None => fold_config(lines.drop_first(), port, key, user, pass),
            Some(nv) => fold_config(
                lines.drop_first(),
                if nv.0 == "port"@ {
                    Some(nv.1)
                } else {
                    port
                },
                if nv.0 == "key"@ {
                    Some(nv.1)
                } else {
                    key
                },
                if nv.0 == "username"@ {
                    Some(nv.1)
                } else {
                    user
                },
                if nv.0 == "password"@ {
                    Some(nv.1)
                } else {
                    pass
                },
            ),
        }
    }
}

/// The process configuration: everything the endpoint needs besides its
/// sockets.
#[derive(Debug)]
pub struct Config {
    /// The port the listener binds.
    pub port: u16,
    /// The shared key an update caller must present.
    pub key: String,
    /// Registrar account name.
    pub username: String,
    /// Registrar account password.
    pub password: String,
}

/// The mathematical image of a `Config`.
pub struct ConfigView {
    pub port: u16,
    pub key: Seq<char>,
    pub username: Seq<char>,
    pub password: Seq<char>,
}

impl View for Config {
    type V = ConfigView;

    open spec fn view(&self) -> ConfigView {
        ConfigView {
            port: self.port,
            key: self.key@,
            username: self.username@,
            password: self.password@,
        }
    }
}

/// Why a configuration text was refused.
#[derive(Clone, Copy, PartialEq, Eq, Structural, Debug)]
pub enum ConfigError {
    /// No `port` line.
    MissingPort,
    /// A `port` line whose value is not a decimal number up to 65535.
    BadPort,
    /// No `key` line.
    MissingKey,
    /// No `username` line.
    MissingUsername,
    /// No `password` line.
    MissingPassword,
}

/// What parsing a configuration text yields: the four recorded values with
/// the port parsed, or the first error in the order `port`, `key`,
/// `username`, `password`.
pub open spec fn spec_parse_config(text: Seq<char>) -> Result<ConfigView, ConfigError> {
    let folded = fold_config(spec_lines(text), None, None, None, None);
    if folded.0 is None {
        Err(ConfigError::MissingPort)
    } else {
        match spec_parse_u16(folded.0->Some_0) {
            None => Err(ConfigError::BadPort),
            Some(p) => if folded.1 is None {
                Err(ConfigError::MissingKey)
            } else if folded.2 is None {
                Err(ConfigError::MissingUsername)
            } else if folded.3 is None {
                Err(ConfigError::MissingPassword)
            } else {
                Ok(ConfigView {
                    port: p,
                    key: folded.1->Some_0,
                    username: folded.2->Some_0,
                    password: folded.3->Some_0,
                })
            },
        }
    }
}

/// Parses a configuration text, exactly as `spec_parse_config` describes.
#[verifier::loop_isolation(false)]
pub fn parse_config(text: &str) -> (r: Result<Config, ConfigError>)
    ensures
        match r {
            Ok(c) => spec_parse_config(text@) == Ok::<ConfigView, ConfigError>(c@),
            Err(e) => spec_parse_config(text@) == Err::<ConfigView, ConfigError>(e),
        },
{
    proof {
        reveal_strlit("");
        reveal_strlit("\n");
        reveal_strlit(": ");
        reveal_strlit("port");
        reveal_strlit("key");
        reveal_strlit("username");
        reveal_strlit("password");
        assert(""@ =~= Seq::<char>::empty());
        assert("\n"@ =~= seq!['\n']);
        assert(": "@ =~= colon_space());
        assert("port"@.len() == 4 && "key"@.len() == 3 && "username"@.len() == 8
            && "password"@.len() == 8);
        assert("username"@[0] == 'u' && "password"@[0] == 'p');
        assert("port"@ != "key"@ && "port"@ != "username"@ && "port"@ != "password"@);
        assert("key"@ != "username"@ && "key"@ != "password"@);
        assert("username"@ != "password"@);
    }
    let mut port: Option<&str> = None;
    let mut key: Option<&str> = None;
    let mut user: Option<&str> = None;
    let mut pass: Option<&str> = None;
    let mut rest: &str = text;
    loop
        invariant
            fold_config(spec_lines(text@), None, None, None, None) == fold_config(
                spec_lines(rest@),
                crate::request::view_opt(port),
                crate::request::view_opt(key),
                crate::request::view_opt(user),
                crate::request::view_opt(pass),
            ),
        decreases rest@.len(),
    {
        if rest.unicode_len() == 0 {
            proof {
                assert(spec_lines(rest@) =~= Seq::<Seq<char>>::empty());
            }
            break ;
        }
        let (line_raw, next): (&str, &str) = match split_once_str(rest, "\n") {
            Some((a, b)) => (a, b),
            None => (rest, ""),
        };
        let ln = line_raw.unicode_len();
        let line: &str = if ln > 0 && line_raw.get_char(ln - 1) == '\r' {
            line_raw.substring_char(0, ln - 1)
        } else {
            line_raw
        };
        proof {
            if spec_split_once(rest@, seq!['\n']) is Some {
                crate::split::lemma_find_from_spec(rest@, seq!['\n'], 0);
            }
            assert(line@ == strip_cr(line_raw@));
            assert(spec_lines(rest@) =~= seq![strip_cr(line_raw@)] + spec_lines(next@));
            assert(spec_lines(rest@)[0] == line@);
            assert(spec_lines(rest@).drop_first() =~= spec_lines(next@));
        }
        let ghost old_p = crate::request::view_opt(port);
        let ghost old_k = crate::request::view_opt(key);
        let ghost old_u = crate::request::view_opt(user);
        let ghost old_w = crate::request::view_opt(pass);
        match split_once_str(line, ": ") {
            None => {
                proof {
                    assert(fold_config(spec_lines(rest@), old_p, old_k, old_u, old_w)
                        == fold_config(spec_lines(next@), old_p, old_k, old_u, old_w));
                }
            },
            Some((name, value)) => {
                if str_eq(name, "port") {
                    port = Some(value);
                } else if str_eq(name, "key") {
                    key = Some(value);
                } else if str_eq(name, "username") {
                    user = Some(value);
                } else if str_eq(name, "password") {
                    pass = Some(value);
                }
                proof {
                    assert(fold_config(spec_lines(rest@), old_p, old_k, old_u, old_w)
                        == fold_config(
                        spec_lines(next@),
                        if name@ == "port"@ {
                            Some(value@)
                        } else {
                            old_p
                        },
                        if name@ == "key"@ {
                            Some(value@)
                        } else {
                            old_k
                        },
                        if name@ == "username"@ {
                            Some(value@)
                        } else {
                            old_u
                        },
                        if name@ == "password"@ {
                            Some(value@)
                        } else {
                            old_w
                        },
                    ));
                    assert(crate::request::view_opt(port) == if name@ == "port"@ {
                        Some(value@)
                    } else {
                        old_p
                    });
                    assert(crate::request::view_opt(key) == if name@ == "key"@ {
                        Some(value@)
                    } else {
                        old_k
                    });
                    assert(crate::request::view_opt(user) == if name@ == "username"@ {
                        Some(value@)
                    } else {
                        old_u
                    });
                    assert(crate::request::view_opt(pass) == if name@ == "password"@ {
                        Some(value@)
                    } else {
                        old_w
                    });
                }
            },
        }
        rest = next;
    }
    let port_text = match port {
        None => {
            return Err(ConfigError::MissingPort);
        },
        Some(p) => p,
    };
    let port_num = match parse_u16(port_text) {
        None => {
            return Err(ConfigError::BadPort);
        },
        Some(p) => p,
    };
    match (key, user, pass) {
        (Some(k), Some(u), Some(w)) => Ok(Config {
            port: port_num,
            key: String::from_str(k),
            username: String::from_str(u),
            password: String::from_str(w),
        }),
        (None, _, _) => Err(ConfigError::MissingKey),
        (Some(_), None, _) => Err(ConfigError::MissingUsername),
        (Some(_), Some(_), None) => Err(ConfigError::MissingPassword),
    }
}

} // verus!
