use hello_actix::config::{Config, ConfigError, EnvVar};

fn vars(pairs: &[(&str, &str)]) -> Vec<(String, String)> {
    pairs.iter().map(|(k, v)| (k.to_string(), v.to_string())).collect()
}

#[test]
fn test() {
    let config = Config::new(&vars(&[("DATABASE_URL", "mysql://root@localhost/trace")]));
    println!("{:?}", config);
    println!("Hello world, {}", config.api.host);
    assert_eq!("127.0.0.1", config.api.host);
}

#[test]
fn defaults_apply_to_unset_variables() {
    let config = Config::from_env_vars(&vars(&[("DATABASE_URL", "mysql://db/x")])).unwrap();
    assert_eq!(config.api.host, "127.0.0.1");
    assert_eq!(config.api.port, 7788);
    assert_eq!(config.database.url, "mysql://db/x");
    assert_eq!(config.database.pool_size, 5);
}

#[test]
fn set_variables_override_defaults() {
    let config = Config::from_env_vars(&vars(&[
        ("PATH", "/bin"),
        ("API_HOST", "0.0.0.0"),
        ("API_PORT", "8080"),
        ("DATABASE_URL", "mysql://db/y"),
        ("POOL_SIZE", "+12"),
    ]))
    .unwrap();
    assert_eq!(config.api.host, "0.0.0.0");
    assert_eq!(config.api.port, 8080);
    assert_eq!(config.database.url, "mysql://db/y");
    assert_eq!(config.database.pool_size, 12);
}

#[test]
fn first_setting_of_a_variable_wins() {
    let config = Config::from_env_vars(&vars(&[
        ("DATABASE_URL", "mysql://first"),
        ("DATABASE_URL", "mysql://second"),
    ]))
    .unwrap();
    assert_eq!(config.database.url, "mysql://first");
}

#[test]
fn missing_database_url_is_an_error() {
    let r = Config::from_env_vars(&vars(&[("API_PORT", "80")]));
    assert_eq!(r.unwrap_err(), ConfigError::EnvVarMissing(EnvVar::DatabaseUrl));
}

#[test]
fn bad_port_is_reported_before_missing_url() {
    let r = Config::from_env_vars(&vars(&[("API_PORT", "eighty")]));
    assert_eq!(r.unwrap_err(), ConfigError::ParseError(EnvVar::ApiPort));
}

#[test]
fn bad_pool_size_is_an_error() {
    let r = Config::from_env_vars(&vars(&[("DATABASE_URL", "u"), ("POOL_SIZE", "-1")]));
    assert_eq!(r.unwrap_err(), ConfigError::ParseError(EnvVar::PoolSize));
    let r = Config::from_env_vars(&vars(&[("DATABASE_URL", "u"), ("POOL_SIZE", "4294967296")]));
    assert_eq!(r.unwrap_err(), ConfigError::ParseError(EnvVar::PoolSize));
}
