use factors_rs::config::{Config, ConfigVars};
use factors_rs::error::Error;
use factors_rs::models::config::{
    default_breakpoint, default_liquidity_threshold, default_market_cap_threshold,
    default_min_assets, default_min_lifetime_days, default_weighting_method, FactorConfig,
};

#[test]
fn test_config_validation() {
    let mut config = Config {
        port: 8000,
        artemis_api_key: "test_key".to_string(),
        artemis_api_url: "https://api.test.com".to_string(),
        coinbase_api_url: "https://coinbase.test.com".to_string(),
        factor_logs_dir: "logs".to_string(),
        max_concurrent_requests: 100,
        api_timeout_secs: 30,
        log_level: "info".to_string(),
    };

    assert!(config.validate().is_ok());

    config.artemis_api_key = "".to_string();
    assert!(config.validate().is_err());
}

#[test]
fn config_validation_names_the_fault() {
    let mut config = Config {
        port: 0,
        artemis_api_key: "".to_string(),
        artemis_api_url: "a".to_string(),
        coinbase_api_url: "b".to_string(),
        factor_logs_dir: "c".to_string(),
        max_concurrent_requests: 1,
        api_timeout_secs: 1,
        log_level: "d".to_string(),
    };
    assert_eq!(
        config.validate(),
        Err(Error::Config("ARTEMIS_API_KEY cannot be empty".to_string()))
    );
    config.artemis_api_key = "k".to_string();
    assert_eq!(
        config.validate(),
        Err(Error::Config("PORT must be greater than 0".to_string()))
    );
    config.port = 1;
    assert_eq!(config.validate(), Ok(()));
}

fn no_vars() -> ConfigVars {
    ConfigVars {
        port: None,
        artemis_api_key: None,
        artemis_api_url: None,
        coinbase_api_url: None,
        factor_logs_dir: None,
        max_concurrent_requests: None,
        api_timeout_secs: None,
        log_level: None,
    }
}

#[test]
fn config_from_vars_uses_the_defaults() {
    let mut vars = no_vars();
    vars.artemis_api_key = Some("secret".to_string());
    let config = Config::from_vars(&vars).unwrap();
    assert_eq!(
        config,
        Config {
            port: 8000,
            artemis_api_key: "secret".to_string(),
            artemis_api_url: "https://api.artemis.xyz/v1".to_string(),
            coinbase_api_url: "https://api.exchange.coinbase.com".to_string(),
            factor_logs_dir: "factor_logs".to_string(),
            max_concurrent_requests: 100,
            api_timeout_secs: 30,
            log_level: "info".to_string(),
        }
    );
}

#[test]
fn config_from_vars_reads_what_is_set() {
    let vars = ConfigVars {
        port: Some("9090".to_string()),
        artemis_api_key: Some("k".to_string()),
        artemis_api_url: Some("https://metrics.test".to_string()),
        coinbase_api_url: Some("https://exchange.test".to_string()),
        factor_logs_dir: Some("runs".to_string()),
        max_concurrent_requests: Some("7".to_string()),
        api_timeout_secs: Some("+45".to_string()),
        log_level: Some("debug".to_string()),
    };
    let config = Config::from_vars(&vars).unwrap();
    assert_eq!(config.port, 9090);
    assert_eq!(config.artemis_api_url, "https://metrics.test");
    assert_eq!(config.coinbase_api_url, "https://exchange.test");
    assert_eq!(config.factor_logs_dir, "runs");
    assert_eq!(config.max_concurrent_requests, 7);
    assert_eq!(config.api_timeout_secs, 45);
    assert_eq!(config.log_level, "debug");
}

#[test]
fn config_from_vars_refuses_a_bad_port_before_a_missing_key() {
    let mut vars = no_vars();
    vars.port = Some("65536".to_string());
    assert_eq!(
        Config::from_vars(&vars),
        Err(Error::Config("Invalid PORT".to_string()))
    );
    vars.port = Some("80a".to_string());
    assert_eq!(
        Config::from_vars(&vars),
        Err(Error::Config("Invalid PORT".to_string()))
    );
    vars.port = Some("65535".to_string());
    assert_eq!(
        Config::from_vars(&vars),
        Err(Error::Config("ARTEMIS_API_KEY not set".to_string()))
    );
    vars.artemis_api_key = Some("k".to_string());
    assert_eq!(Config::from_vars(&vars).unwrap().port, 65535);
}

#[test]
fn config_from_vars_falls_back_on_unreadable_numbers() {
    let mut vars = no_vars();
    vars.artemis_api_key = Some("k".to_string());
    vars.max_concurrent_requests = Some("many".to_string());
    vars.api_timeout_secs = Some("-3".to_string());
    let config = Config::from_vars(&vars).unwrap();
    assert_eq!(config.max_concurrent_requests, 100);
    assert_eq!(config.api_timeout_secs, 30);
    for text in ["0", "12", "+7", "", "1e3", "99999999999999999999999"] {
        vars.api_timeout_secs = Some(text.to_string());
        let expected = text.parse::<u64>().unwrap_or(30);
        assert_eq!(Config::from_vars(&vars).unwrap().api_timeout_secs, expected);
    }
}

#[test]
fn test_factor_config_validation() {
    let mut config = FactorConfig {
        factor: "smb".to_string(),
        breakpoint: (0.3f64).to_bits(),
        min_assets: 30,
        weighting_method: "equal".to_string(),
        start_date: "2023-01-01".to_string(),
        end_date: "2023-12-31".to_string(),
        market_cap_threshold: Some(100_000_000),
        liquidity_threshold: Some(35_000_000),
        min_lifetime_days: Some(30),
    };

    assert!(config.validate().is_ok());

    config.breakpoint = (0.05f64).to_bits();
    assert!(config.validate().is_err());

    config.breakpoint = (0.3f64).to_bits();
    config.weighting_method = "invalid".to_string();
    assert!(config.validate().is_err());
}

fn sample_factor_config() -> FactorConfig {
    FactorConfig {
        factor: "value".to_string(),
        breakpoint: default_breakpoint(),
        min_assets: default_min_assets(),
        weighting_method: default_weighting_method(),
        start_date: "2023-01-01".to_string(),
        end_date: "2023-12-31".to_string(),
        market_cap_threshold: default_market_cap_threshold(),
        liquidity_threshold: default_liquidity_threshold(),
        min_lifetime_days: default_min_lifetime_days(),
    }
}

#[test]
fn factor_config_defaults() {
    assert_eq!(f64::from_bits(default_breakpoint()), 0.5);
    assert_eq!(default_min_assets(), 30);
    assert_eq!(default_weighting_method(), "equal");
    assert_eq!(default_market_cap_threshold(), Some(100_000_000));
    assert_eq!(default_liquidity_threshold(), Some(35_000_000));
    assert_eq!(default_min_lifetime_days(), Some(30));
    assert_eq!(sample_factor_config().validate(), Ok(()));
}

#[test]
fn factor_config_breakpoint_range_follows_the_numbers() {
    let mut config = sample_factor_config();
    let accepted = [0.1, 0.1000001, 0.25, 0.3, 0.49999, 0.5];
    let refused = [
        0.0,
        -0.0,
        0.05,
        0.09999999999999999,
        0.5000000000000001,
        0.6,
        1.0,
        -0.3,
        f64::INFINITY,
        f64::NEG_INFINITY,
        f64::MIN_POSITIVE,
    ];
    for value in accepted {
        config.breakpoint = f64::to_bits(value);
        assert_eq!(config.validate(), Ok(()), "{}", value);
    }
    for value in refused {
        config.breakpoint = f64::to_bits(value);
        assert_eq!(
            config.validate(),
            Err(Error::InvalidInput(
                "breakpoint must be between 0.1 and 0.5".to_string()
            )),
            "{}",
            value
        );
    }
    config.breakpoint = f64::to_bits(f64::NAN);
    assert!(config.validate().is_err());
}

#[test]
fn factor_config_faults_in_order() {
    let mut config = sample_factor_config();
    config.min_assets = 4;
    config.weighting_method = "invalid".to_string();
    config.start_date = "yesterday".to_string();
    assert_eq!(
        config.validate(),
        Err(Error::InvalidInput("min_assets must be at least 5".to_string()))
    );
    config.min_assets = 5;
    assert_eq!(
        config.validate(),
        Err(Error::InvalidInput(
            "Invalid weighting_method: invalid. Must be one of: equal, market_cap, inverse_variance"
                .to_string()
        ))
    );
    for method in ["equal", "market_cap", "inverse_variance"] {
        config.weighting_method = method.to_string();
        assert_eq!(
            config.validate(),
            Err(Error::DateParse("Invalid start_date".to_string()))
        );
    }
    config.start_date = "2023-02-28".to_string();
    config.end_date = "2023-02-30".to_string();
    assert_eq!(
        config.validate(),
        Err(Error::DateParse("Invalid end_date".to_string()))
    );
    config.end_date = "2024-02-29".to_string();
    assert_eq!(config.validate(), Ok(()));
}

#[test]
fn factor_config_dates_are_those_that_chrono_reads() {
    let mut config = sample_factor_config();
    let texts = [
        "2023-01-01",
        "0000-01-01",
        "0001-01-01",
        "9999-12-31",
        "+10000-01-01",
        "-0001-06-15",
        "2023-1-1",
        "2023-02-29",
        "2023-13-01",
        "2023-01-01T00:00:00",
        "",
        "2023/01/01",
    ];
    for text in texts {
        config.start_date = text.to_string();
        let readable = chrono::NaiveDate::parse_from_str(text, "%Y-%m-%d").is_ok();
        assert_eq!(config.validate().is_ok(), readable, "{:?}", text);
        assert_eq!(
            factors_rs::data::calendar::is_iso_date(text),
            readable,
            "{:?}",
            text
        );
    }
    config.start_date = "0000-01-01".to_string();
    assert_eq!(config.validate(), Ok(()));
}
