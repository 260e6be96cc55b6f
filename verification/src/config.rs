//! The faucet's settings.

use crate::text;
use vstd::prelude::*;

verus! {

/// The settings that the faucet runs with.
#[derive(Clone, Debug)]
pub struct Config {
    pub database_url: String,
    pub mnemonic: String,
    pub toncenter_api_key: Option<String>,
    pub toncenter_url: String,
    pub port: u16,
    /// What one claim pays out, in nanotons.
    pub faucet_amount: u64,
    /// How many leading zero bits a proof of work needs.
    pub pow_difficulty: u32,
    pub toncenter_timeout_seconds: u64,
    pub toncenter_connect_timeout_seconds: u64,
    pub toncenter_max_retries: u32,
    pub toncenter_retry_base_delay_ms: u64,
    pub worker_max_retries: u32,
    pub worker_retry_base_delay_ms: u64,
}

/// What the environment holds of the settings: the value of each variable that
/// is set. Only the mnemonic has to be.
pub struct EnvVars {
    pub database_url: Option<String>,
    pub mnemonic: String,
    pub toncenter_api_key: Option<String>,
    pub toncenter_url: Option<String>,
    pub port: Option<String>,
    pub faucet_amount: Option<String>,
    pub pow_difficulty: Option<String>,
}

/// How long requests may take and how often they are tried again.
#[derive(Clone, Copy, Debug)]
pub struct Tuning {
    pub toncenter_timeout_seconds: u64,
    pub toncenter_connect_timeout_seconds: u64,
    pub toncenter_max_retries: u32,
    pub toncenter_retry_base_delay_ms: u64,
    pub worker_max_retries: u32,
    pub worker_retry_base_delay_ms: u64,
}

pub const DEFAULT_PORT: u16 = 3001;

/// 0.001 TON.
pub const DEFAULT_FAUCET_AMOUNT: u64 = 1_000_000;

pub const DEFAULT_POW_DIFFICULTY: u32 = 21;

/// A variable's value, or the default where it is not set.
pub open spec fn text_setting(raw: Option<String>, default: Seq<char>) -> Seq<char> {
    match raw {
        Some(s) => s@,
        None => default,
    }
}

/// A variable's value as a decimal number of at most `max`, or the default
/// where it is not set or is no such number.
pub open spec fn number_setting(raw: Option<String>, max: int, default: int) -> int {
    match raw {
        Some(s) => match text::unsigned_value(s@, 10, max) {
            Some(n) => n,
            None => default,
        },
        None => default,
    }
}

/// Reads a text setting.
fn text_or(raw: Option<String>, default: &str) -> (r: String)
    ensures
        r@ == text_setting(raw, default@),
{
    match raw {
        Some(s) => s,
        None => default.to_owned(),
    }
}

/// Reads a number setting.
pub fn number_or(raw: &Option<String>, max: u64, default: u64) -> (r: u64)
    requires
        default <= max,
    ensures
        r == number_setting(*raw, max as int, default as int),
        r == match raw {
            Some(s) => match text::unsigned_value(s@, 10, max as int) {
                Some(n) => n,
                None => default as int,
            },
            None => default as int,
        },
        r <= max,
{
    match raw {
        Some(s) => match text::parse_unsigned(&text::chars_of(s.as_str()), 10, max) {
            Some(n) => n,
            None => default,
        },
        None => default,
    }
}

impl Config {
    /// Reads the settings: what the environment leaves out, or gives in a form
    /// that is no number of the field's type, takes its default.
    pub fn from_env(vars: EnvVars, tuning: Tuning) -> (r: Config)
        ensures
            r.database_url@ == text_setting(vars.database_url, "sqlite:./db.sqlite"@),
            r.mnemonic == vars.mnemonic,
            r.toncenter_api_key == vars.toncenter_api_key,
            r.toncenter_url@ == text_setting(
                vars.toncenter_url,
                "https://testnet.toncenter.com"@,
            ),
            r.port == number_setting(vars.port, u16::MAX as int, DEFAULT_PORT as int),
            r.faucet_amount == number_setting(
                vars.faucet_amount,
                u64::MAX as int,
                DEFAULT_FAUCET_AMOUNT as int,
            ),
            r.pow_difficulty == number_setting(
                vars.pow_difficulty,
                u32::MAX as int,
                DEFAULT_POW_DIFFICULTY as int,
            ),
            r.database_url@ == match vars.database_url {
                Some(s) => s@,
                None => "sqlite:./db.sqlite"@,
            },
            r.toncenter_url@ == match vars.toncenter_url {
                Some(s) => s@,
                None => "https://testnet.toncenter.com"@,
            },
            r.port == match vars.port {
                Some(s) => match text::unsigned_value(s@, 10, 0xffff) {
                    Some(n) => n,
                    None => 3001,
                },
                None => 3001,
            },
            r.faucet_amount == match vars.faucet_amount {
                Some(s) => match text::unsigned_value(s@, 10, 0xffff_ffff_ffff_ffff) {
                    Some(n) => n,
                    None => 1_000_000,
                },
                None => 1_000_000,
            },
            r.pow_difficulty == match vars.pow_difficulty {
                Some(s) => match text::unsigned_value(s@, 10, 0xffff_ffff) {
                    Some(n) => n,
                    None => 21,
                },
                None => 21,
            },
            r.toncenter_timeout_seconds == tuning.toncenter_timeout_seconds,
            r.toncenter_connect_timeout_seconds == tuning.toncenter_connect_timeout_seconds,
            r.toncenter_max_retries == tuning.toncenter_max_retries,
            r.toncenter_retry_base_delay_ms == tuning.toncenter_retry_base_delay_ms,
            r.worker_max_retries == tuning.worker_max_retries,
            r.worker_retry_base_delay_ms == tuning.worker_retry_base_delay_ms,
    {
        let port: u64 = number_or(&vars.port, u16::MAX as u64, DEFAULT_PORT as u64);
        let faucet_amount: u64 = number_or(&vars.faucet_amount, u64::MAX, DEFAULT_FAUCET_AMOUNT);
        let pow_difficulty: u64 = number_or(
            &vars.pow_difficulty,
            u32::MAX as u64,
            DEFAULT_POW_DIFFICULTY as u64,
        );
        Config {
            database_url: text_or(vars.database_url, "sqlite:./db.sqlite"),
            mnemonic: vars.mnemonic,
            toncenter_api_key: vars.toncenter_api_key,
            toncenter_url: text_or(vars.toncenter_url, "https://testnet.toncenter.com"),
            port: port as u16,
            faucet_amount,
            pow_difficulty: pow_difficulty as u32,
            toncenter_timeout_seconds: tuning.toncenter_timeout_seconds,
            toncenter_connect_timeout_seconds: tuning.toncenter_connect_timeout_seconds,
            toncenter_max_retries: tuning.toncenter_max_retries,
            toncenter_retry_base_delay_ms: tuning.toncenter_retry_base_delay_ms,
            worker_max_retries: tuning.worker_max_retries,
            worker_retry_base_delay_ms: tuning.worker_retry_base_delay_ms,
        }
    }
}

/// A variable that holds the decimal numeral of a number, with or without a `+`
/// or zeros before it, gives that number where it is not too large, and the
/// default where it is; so does a variable that is not set.
pub proof fn law_numbers_are_read_back(raw: Option<String>, n: nat, max: nat, default: int)
    requires
        raw matches Some(s) ==> s@ == text::numeral(n, 10) || s@ == seq!['+'] + text::numeral(n, 10)
            || s@ == seq!['0'] + text::numeral(n, 10),
    ensures
        number_setting(raw, max as int, default) == if raw is Some && n <= max {
            n as int
        } else {
            default
        },
{
    text::law_numerals_read_back(n, 10, max);
    text::lemma_numeral(n, 10);
    assert(text::is_digit(text::numeral(n, 10)[0], 10));
    text::law_leading_zeros_do_not_count(text::numeral(n, 10), 10, max as int);
}

} // verus!
