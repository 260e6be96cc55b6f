use ton_faucet::config::{number_or, Config, EnvVars, Tuning};

fn tuning() -> Tuning {
    Tuning {
        toncenter_timeout_seconds: 15,
        toncenter_connect_timeout_seconds: 5,
        toncenter_max_retries: 3,
        toncenter_retry_base_delay_ms: 500,
        worker_max_retries: 4,
        worker_retry_base_delay_ms: 2000,
    }
}

fn vars() -> EnvVars {
    EnvVars {
        database_url: None,
        mnemonic: "some words".to_string(),
        toncenter_api_key: None,
        toncenter_url: None,
        port: None,
        faucet_amount: None,
        pow_difficulty: None,
    }
}

#[test]
fn unset_variables_take_their_defaults() {
    let config = Config::from_env(vars(), tuning());
    assert_eq!(config.database_url, "sqlite:./db.sqlite");
    assert_eq!(config.mnemonic, "some words");
    assert_eq!(config.toncenter_api_key, None);
    assert_eq!(config.toncenter_url, "https://testnet.toncenter.com");
    assert_eq!(config.port, 3001);
    assert_eq!(config.faucet_amount, 1_000_000);
    assert_eq!(config.pow_difficulty, 21);
    assert_eq!(config.toncenter_timeout_seconds, 15);
    assert_eq!(config.toncenter_connect_timeout_seconds, 5);
    assert_eq!(config.toncenter_max_retries, 3);
    assert_eq!(config.toncenter_retry_base_delay_ms, 500);
    assert_eq!(config.worker_max_retries, 4);
    assert_eq!(config.worker_retry_base_delay_ms, 2000);
}

#[test]
fn set_variables_are_taken() {
    let mut env = vars();
    env.database_url = Some("sqlite::memory:".to_string());
    env.toncenter_api_key = Some("key".to_string());
    env.toncenter_url = Some(String::new());
    env.port = Some("8080".to_string());
    env.faucet_amount = Some("+5000000000".to_string());
    env.pow_difficulty = Some("0".to_string());
    let config = Config::from_env(env, tuning());
    assert_eq!(config.database_url, "sqlite::memory:");
    assert_eq!(config.toncenter_api_key, Some("key".to_string()));
    assert_eq!(config.toncenter_url, "");
    assert_eq!(config.port, 8080);
    assert_eq!(config.faucet_amount, 5_000_000_000);
    assert_eq!(config.pow_difficulty, 0);
}

#[test]
fn numbers_that_are_none_take_the_default() {
    for raw in ["", "+", "-1", " 80", "80 ", "65536", "8_0", "0x50", "++1", "99999999999999999999"] {
        let mut env = vars();
        env.port = Some(raw.to_string());
        assert_eq!(Config::from_env(env, tuning()).port, 3001, "{:?}", raw);
    }
}

#[test]
fn numbers_read_as_the_standard_library_reads_them() {
    let raws = [
        "0", "1", "007", "+7", "4294967295", "4294967296", "18446744073709551615",
        "18446744073709551616", "1a", "\u{0661}", "-0", "1+",
    ];
    for raw in raws {
        let given = Some(raw.to_string());
        assert_eq!(
            number_or(&given, u32::MAX as u64, 42),
            raw.parse::<u32>().map(u64::from).unwrap_or(42),
            "{:?}",
            raw
        );
        assert_eq!(number_or(&given, u64::MAX, 42), raw.parse::<u64>().unwrap_or(42), "{:?}", raw);
    }
}
