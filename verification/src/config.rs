//! Application configuration values.
//!
//! Reading the environment happens outside the crate; these types carry the
//! resulting plain values.  `parse_environment` holds the mode-string
//! grammar: the three mode words, compared without regard to ASCII case.

use vstd::prelude::*;
use vstd::string::*;

verus! {

/// Deployment mode.
#[derive(Clone, Copy, Debug, PartialEq, Eq, Structural)]
pub enum Environment {
    Development,
    Production,
    Testing,
}

/// Listener address and CORS settings.
#[derive(Clone, Debug)]
pub struct ServerConfig {
    pub host: String,
    pub port: u16,
    pub log_level: String,
    pub cors_allowed_origins: Vec<String>,
}

/// SQLite settings.
#[derive(Clone, Debug)]
pub struct DatabaseConfig {
    pub url: String,
    pub path: String,
    pub enable_wal: bool,
    pub enable_foreign_keys: bool,
    pub max_connections: u32,
}

/// JWT settings and the bootstrap administrator.
#[derive(Clone, Debug)]
pub struct AuthConfig {
    pub jwt_secret: String,
    pub jwt_expiration: u64,
    pub admin: AdminConfig,
}

/// Bootstrap administrator account.
#[derive(Clone, Debug)]
pub struct AdminConfig {
    pub username: String,
    pub email: String,
    pub password: String,
}

/// A seeded upstream credential from the environment.
#[derive(Clone, Debug)]
pub struct ApiProviderConfig {
    pub api_key: String,
    pub base_url: String,
}

/// Lower-cases an ASCII letter; leaves every other character alone.
pub open spec fn ascii_lower_char(c: char) -> char {
    if c == 'A' {
        'a'
    } else if c == 'B' {
        'b'
    } else if c == 'C' {
        'c'
    } else if c == 'D' {
        'd'
    } else if c == 'E' {
        'e'
    } else if c == 'F' {
        'f'
    } else if c == 'G' {
        'g'
    } else if c == 'H' {
        'h'
    } else if c == 'I' {
        'i'
    } else if c == 'J' {
        'j'
    } else if c == 'K' {
        'k'
    } else if c == 'L' {
        'l'
    } else if c == 'M' {
        'm'
    } else if c == 'N' {
        'n'
    } else if c == 'O' {
        'o'
    } else if c == 'P' {
        'p'
    } else if c == 'Q' {
        'q'
    } else if c == 'R' {
        'r'
    } else if c == 'S' {
        's'
    } else if c == 'T' {
        't'
    } else if c == 'U' {
        'u'
    } else if c == 'V' {
        'v'
    } else if c == 'W' {
        'w'
    } else if c == 'X' {
        'x'
    } else if c == 'Y' {
        'y'
    } else if c == 'Z' {
        'z'
    } else {
        c
    }
}

/// Lower-cases an ASCII letter.
fn lower_char(c: char) -> (r: char)
    ensures
        r == ascii_lower_char(c),
{
    match c {
        'A' => 'a',
        'B' => 'b',
        'C' => 'c',
        'D' => 'd',
        'E' => 'e',
        'F' => 'f',
        'G' => 'g',
        'H' => 'h',
        'I' => 'i',
        'J' => 'j',
        'K' => 'k',
        'L' => 'l',
        'M' => 'm',
        'N' => 'n',
        'O' => 'o',
        'P' => 'p',
        'Q' => 'q',
        'R' => 'r',
        'S' => 's',
        'T' => 't',
        'U' => 'u',
        'V' => 'v',
        'W' => 'w',
        'X' => 'x',
        'Y' => 'y',
        'Z' => 'z',
        _ => c,
    }
}

/// `s` lower-cased letter by letter.
pub open spec fn ascii_lower(s: Seq<char>) -> Seq<char> {
    s.map_values(|c: char| ascii_lower_char(c))
}

/// Whether two strings hold the same characters once ASCII letters are
/// lower-cased.
fn eq_ignore_ascii_case(a: &str, b: &str) -> (r: bool)
    ensures
        r == (ascii_lower(a@) == ascii_lower(b@)),
{
    let a_len = a.unicode_len();
    let b_len = b.unicode_len();
    if a_len != b_len {
        proof {
            assert(ascii_lower(a@).len() == a@.len());
            assert(ascii_lower(b@).len() == b@.len());
        }
        return false;
    }
    let mut i: usize = 0;
    while i < a_len
        invariant
            a_len == a@.len(),
            a_len == b@.len(),
            0 <= i <= a_len,
            forall|j: int| 0 <= j < i ==> ascii_lower(a@)[j] == ascii_lower(b@)[j],
        decreases a_len - i,
    {
        let ca = a.get_char(i);
        let cb = b.get_char(i);
        let la = lower_char(ca);
        let lb = lower_char(cb);
        if la != lb {
            assert(ascii_lower(a@)[i as int] != ascii_lower(b@)[i as int]);
            return false;
        }
        assert(ascii_lower(a@)[i as int] == ascii_lower(b@)[i as int]);
        i = i + 1;
    }
    proof {
        assert(ascii_lower(a@) =~= ascii_lower(b@));
    }
    true
}

/// Parses a deployment-mode word, ignoring ASCII case; anything else is an
/// error carrying the value back.
pub fn parse_environment(s: &str) -> (r: Result<Environment, String>)
    ensures
        ({
            let l = ascii_lower(s@);
            match r {
                Ok(e) => (l == ascii_lower("development"@) && e == Environment::Development) || (l
                    == ascii_lower("production"@) && e == Environment::Production) || (l
                    == ascii_lower("testing"@) && e == Environment::Testing),
                Err(orig) => orig@ == s@ && l != ascii_lower("development"@) && l != ascii_lower(
                    "production"@,
                ) && l != ascii_lower("testing"@),
            }
        }),
{
    if eq_ignore_ascii_case(s, "development") {
        Ok(Environment::Development)
    } else if eq_ignore_ascii_case(s, "production") {
        Ok(Environment::Production)
    } else if eq_ignore_ascii_case(s, "testing") {
        Ok(Environment::Testing)
    } else {
        Err(s.to_owned())
    }
}

} // verus!
