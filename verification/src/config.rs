//! The service's settings, read from environment variables: `API_HOST`
//! (default `127.0.0.1`), `API_PORT` (default `7788`), `DATABASE_URL`
//! (required) and `POOL_SIZE` (default `5`).
use vstd::prelude::*;
use crate::text::{decimal, digit_char, lemma_decimal_parses_back, parse_u32, parsed_u32};

verus! {

/// Where the HTTP API listens.
#[derive(Debug, Clone)]
pub struct ApiConfig {
    pub host: String,
    pub port: u32,
}

/// How the database is reached.
#[derive(Debug, Clone)]
pub struct DbConfig {
    pub url: String,
    pub pool_size: u32,
}

/// All settings of the service.
#[derive(Debug, Clone)]
pub struct Config {
    pub api: ApiConfig,
    pub database: DbConfig,
}

/// The environment variables that the settings come from.
#[derive(Debug, Clone, Copy, PartialEq, Eq, Structural)]
pub enum EnvVar {
    ApiHost,
    ApiPort,
    DatabaseUrl,
    PoolSize,
}

/// Why the settings cannot be read.
#[derive(Debug, Clone, Copy, PartialEq, Eq, Structural)]
pub enum ConfigError {
    /// A variable without default is not set.
    EnvVarMissing(EnvVar),
    /// A variable's value does not have the type of its setting.
    ParseError(EnvVar),
}

/// The value of the first variable named `name` in `vars`, if any.
pub open spec fn env_lookup(vars: Seq<(String, String)>, name: Seq<char>) -> Option<Seq<char>>
    decreases vars.len(),
{
    if vars.len() == 0 {
        None
    } else if vars[0].0@ == name {
        Some(vars[0].1@)
    } else {
        env_lookup(vars.drop_first(), name)
    }
}

/// `o`'s text, else `d`.
pub open spec fn text_or(o: Option<Seq<char>>, d: Seq<char>) -> Seq<char> {
    match o {
        Some(s) => s,
        None => d,
    }
}

/// The settings that `vars` give, as (host, port, database url, pool size),
/// or the first error in the order host, port, database url, pool size.
pub open spec fn config_from(vars: Seq<(String, String)>) -> Result<(Seq<char>, u32, Seq<char>, u32), ConfigError> {
    let host = text_or(env_lookup(vars, "API_HOST"@), "127.0.0.1"@);
    let port = parsed_u32(text_or(env_lookup(vars, "API_PORT"@), "7788"@));
    let url = env_lookup(vars, "DATABASE_URL"@);
    let pool = parsed_u32(text_or(env_lookup(vars, "POOL_SIZE"@), "5"@));
    if port is None {
        Err(ConfigError::ParseError(EnvVar::ApiPort))
    } else if url is None {
        Err(ConfigError::EnvVarMissing(EnvVar::DatabaseUrl))
    } else if pool is None {
        Err(ConfigError::ParseError(EnvVar::PoolSize))
    } else {
        Ok((host, port->0, url->0, pool->0))
    }
}

impl Config {
    /// `self` holds the settings `s`.
    pub open spec fn holds(self, s: (Seq<char>, u32, Seq<char>, u32)) -> bool {
        &&& self.api.host@ == s.0
        &&& self.api.port == s.1
        &&& self.database.url@ == s.2
        &&& self.database.pool_size == s.3
    }

    /// Reads the settings from the environment variables `vars`; a variable
    /// that is not set takes its default.
    pub fn from_env_vars(vars: &Vec<(String, String)>) -> (r: Result<Config, ConfigError>)
        ensures
            r is Ok <==> config_from(vars@) is Ok,
            r matches Ok(c) ==> c.holds(config_from(vars@)->Ok_0),
            r matches Err(e) ==> config_from(vars@) == Err::<(Seq<char>, u32, Seq<char>, u32), ConfigError>(e),
    {
        let host_var = lookup(vars, "API_HOST");
        let host = match host_var {
            Some(h) => h,
            None => "127.0.0.1".to_owned(),
        };
        let port_var = lookup(vars, "API_PORT");
        let port_text = match port_var {
            Some(p) => p,
            None => "7788".to_owned(),
        };
        let port = match parse_u32(port_text.as_str()) {
            Some(p) => p,
            None => {
                return Err(ConfigError::ParseError(EnvVar::ApiPort));
            },
        };
        let url = match lookup(vars, "DATABASE_URL") {
            Some(u) => u,
            None => {
                return Err(ConfigError::EnvVarMissing(EnvVar::DatabaseUrl));
            },
        };
        let pool_var = lookup(vars, "POOL_SIZE");
        let pool_text = match pool_var {
            Some(p) => p,
            None => "5".to_owned(),
        };
        let pool_size = match parse_u32(pool_text.as_str()) {
            Some(p) => p,
            None => {
                return Err(ConfigError::ParseError(EnvVar::PoolSize));
            },
        };
        Ok(Config { api: ApiConfig { host, port }, database: DbConfig { url, pool_size } })
    }

    /// The settings from the environment variables `vars`, where they can
    /// be read.
    pub fn new(vars: &Vec<(String, String)>) -> (c: Config)
        requires
            config_from(vars@) is Ok,
        ensures
            c.holds(config_from(vars@)->Ok_0),
    {
        Config::from_env_vars(vars).unwrap()
    }
}

/// Where only the database url is set, the other settings take their
/// defaults: host `127.0.0.1`, port 7788 and a pool of 5 connections.
pub proof fn lemma_defaults(vars: Seq<(String, String)>, url: Seq<char>)
    requires
        env_lookup(vars, "API_HOST"@) is None,
        env_lookup(vars, "API_PORT"@) is None,
        env_lookup(vars, "POOL_SIZE"@) is None,
        env_lookup(vars, "DATABASE_URL"@) == Some(url),
    ensures
        config_from(vars) == Ok::<(Seq<char>, u32, Seq<char>, u32), ConfigError>(("127.0.0.1"@, 7788u32, url, 5u32)),
{
    reveal_strlit("7788");
    reveal_strlit("5");
    lemma_decimal_parses_back(7788);
    lemma_decimal_parses_back(5);
    assert(decimal(7788) =~= "7788"@) by {
        assert(decimal(7) == seq![digit_char(7)]);
        assert(decimal(77) == decimal(7).push(digit_char(7)));
        assert(decimal(778) == decimal(77).push(digit_char(8)));
        assert(decimal(7788) == decimal(778).push(digit_char(8)));
    }
    assert(decimal(5) =~= "5"@);
}

/// The value of the first variable named `name` in `vars`.
fn lookup(vars: &Vec<(String, String)>, name: &str) -> (r: Option<String>)
    ensures
        match r {
            Some(s) => env_lookup(vars@, name@) == Some(s@),
            None => env_lookup(vars@, name@) is None,
        },
{
    let key = name.to_owned();
    let n = vars.len();
    let mut i: usize = 0;
    assert(vars@.subrange(0, n as int) =~= vars@);
    while i < n
        invariant
            n == vars@.len(),
            i <= n,
            key@ == name@,
            env_lookup(vars@, name@) == env_lookup(vars@.subrange(i as int, n as int), name@),
        decreases n - i,
    {
        let ghost rest = vars@.subrange(i as int, n as int);
        assert(rest.drop_first() =~= vars@.subrange(i + 1, n as int));
        assert(rest[0] == vars@[i as int]);
        if vars[i].0 == key {
            return Some(vars[i].1.clone());
        }
        i = i + 1;
    }
    None
}

} // verus!
