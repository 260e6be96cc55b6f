use std::str::FromStr;
use ton_faucet::claim::{start_payout, CreateClaim};
use ton_faucet::client::ToncenterClient;
use ton_faucet::config::{Config, EnvVars, Tuning};
use ton_faucet::json::{read_json, Json};
use ton_faucet::transfer::{
    build_message, confirm_transfer, payout_message, process_send_tokens, sign_transfer,
    TransferError,
};
use ton_faucet::wallet::{Address, Wallet, WalletError, WalletVersion};
use tonlib_core::cell::{BagOfCells, Cell};
use tonlib_core::tlb_types::block::message::{CommonMsgInfo, Message};
use tonlib_core::tlb_types::tlb::TLB;
use tonlib_core::wallet::mnemonic::Mnemonic;
use tonlib_core::wallet::ton_wallet::TonWallet;
use tonlib_core::wallet::versioned::v5::WalletExtMsgBodyV5;
use tonlib_core::TonAddress;

const MNEMONIC: &str = "section garden tomato dinner season dice renew length useful spin trade intact use universe what post spike keen mandate behind concert egg doll rug";
const DEST: &str = "EQBiMfDMivebQb052Z6yR3jHrmwNhw1kQ5bcAUOBYsK_VPuK";

fn reference() -> TonWallet {
    let keys = Mnemonic::from_str(MNEMONIC, &None).unwrap().to_key_pair().unwrap();
    TonWallet::new_with_params(
        tonlib_core::wallet::wallet_version::WalletVersion::V5R1,
        keys,
        0,
        0x7FFFFFFD,
    )
    .unwrap()
}

fn wallet() -> Wallet {
    Wallet::new(MNEMONIC).unwrap()
}

fn dest() -> Address {
    let address = TonAddress::from_str(DEST).unwrap();
    Address { workchain: address.workchain, hash: address.hash_part.into() }
}

fn client() -> ToncenterClient {
    ToncenterClient {
        base_url: "http://host".to_string(),
        api_key: None,
        max_retries: 1,
        retry_base_delay_ms: 1,
        timeout_seconds: 1,
        connect_timeout_seconds: 1,
    }
}

/// The one message inside a signed payout, with its expiry and sequence number.
fn unpack(boc: &str) -> (Message, u32, u32) {
    let external = BagOfCells::parse_base64(boc).unwrap().single_root().unwrap();
    let external = Message::from_cell(&external).unwrap();
    let body = WalletExtMsgBodyV5::from_cell(&external.body.value).unwrap();
    assert_eq!(body.wallet_id, 0x7FFFFFFD);
    assert_eq!(body.msgs.len(), 1);
    assert!(external.init.is_none());
    (Message::from_cell(&body.msgs[0]).unwrap(), body.valid_until, body.msg_seqno)
}

fn check_payout(message: &Message, src: &Address, amount: u64) {
    let info = match &message.info {
        CommonMsgInfo::Int(info) => info,
        other => panic!("{:?}", other),
    };
    assert!(info.ihr_disabled);
    assert!(!info.bounce);
    assert!(!info.bounced);
    let sender = TonAddress::from_msg_address(info.src.clone()).unwrap();
    assert_eq!(sender, TonAddress::new(src.workchain, src.hash.into()));
    assert_eq!(TonAddress::from_msg_address(info.dest.clone()).unwrap().to_base64_url(), DEST);
    assert_eq!(info.value.grams.amount, num_bigint::BigUint::from(amount));
    assert_eq!(info.ihr_fee.amount, num_bigint::BigUint::from(0u64));
    assert_eq!(info.fwd_fee.amount, num_bigint::BigUint::from(0u64));
    assert_eq!(info.created_lt, 0);
    assert_eq!(info.created_at, 0);
    assert!(message.init.is_none());
    assert_eq!(message.body.value.data(), b"\0\0\0\0Testnet faucet");
    assert_eq!(message.body.value.bit_len(), 144);
}

#[test]
fn wallet_is_the_one_of_the_mnemonic() {
    let wallet = wallet();
    let reference = reference();
    assert!(matches!(wallet.version, WalletVersion::V5R1));
    assert_eq!(wallet.wallet_id, 0x7FFFFFFD);
    assert_eq!(wallet.key_pair.public_key, reference.key_pair.public_key);
    assert_eq!(wallet.key_pair.secret_key, reference.key_pair.secret_key);
    assert_eq!(wallet.key_pair.public_key.len(), 32);
    assert_eq!(wallet.key_pair.secret_key.len(), 64);
    assert_eq!(wallet.address.workchain, 0);
    assert_eq!(&wallet.address.hash[..], reference.address.hash_part.as_slice());
    assert_eq!(wallet.address.to_base64_url(), reference.address.to_base64_url());
}

#[test]
fn bad_mnemonics_give_no_wallet() {
    assert!(matches!(Wallet::new("one two three"), Err(WalletError::Mnemonic(_))));
    assert!(matches!(Wallet::new(""), Err(WalletError::Mnemonic(_))));
}

#[test]
fn keys_of_another_length_give_no_wallet() {
    let mut keys = wallet().key_pair;
    keys.public_key.pop();
    assert!(Wallet::from_key_pair(keys).is_err());
}

#[test]
fn addresses_are_written_in_their_user_friendly_form() {
    assert_eq!(dest().to_base64_url(), DEST);
}

#[test]
fn payout_carries_the_amount_and_the_comment() {
    let message = payout_message(&wallet().address, &dest(), 1_000_000);
    assert_eq!(message.body.data, b"\0\0\0\0Testnet faucet");
    assert_eq!(message.body.bit_len, 144);
    assert_eq!(message.value, 1_000_000);
    assert!(message.ihr_disabled && !message.bounce && !message.bounced);
}

#[test]
fn payout_is_written_as_a_message_cell() {
    let wallet = wallet();
    for amount in [0, 1, 1_000_000, u64::MAX] {
        let cell = build_message(&wallet, amount, &dest()).unwrap();
        let cell = Cell::new(cell.data, cell.bit_len, vec![], false).unwrap();
        check_payout(&Message::from_cell(&cell).unwrap(), &wallet.address, amount);
    }
}

#[test]
fn signed_payout_holds_the_message_and_its_bounds() {
    let wallet = wallet();
    let cell = build_message(&wallet, 77, &dest()).unwrap();
    let boc = sign_transfer(&wallet, &cell, 9, 1_700_000_000).unwrap();
    let (message, valid_until, seqno) = unpack(&boc);
    check_payout(&message, &wallet.address, 77);
    assert_eq!(valid_until, 1_700_000_600);
    assert_eq!(seqno, 9);

    let inner = Cell::new(cell.data.clone(), cell.bit_len, vec![], false).unwrap().to_arc();
    let expected = reference()
        .create_external_msg(1_700_000_600, 9, false, vec![inner])
        .unwrap()
        .to_boc_b64(false)
        .unwrap();
    assert_eq!(boc, expected);
}

#[test]
fn expiry_keeps_the_low_bits() {
    let wallet = wallet();
    let cell = build_message(&wallet, 1, &dest()).unwrap();
    let boc = sign_transfer(&wallet, &cell, 0, 0xffff_ffff).unwrap();
    assert_eq!(unpack(&boc).1, 599);
}

#[test]
fn unsignable_payout_is_reported() {
    let mut wallet = wallet();
    let cell = build_message(&wallet, 1, &dest()).unwrap();
    wallet.key_pair.secret_key.pop();
    assert!(sign_transfer(&wallet, &cell, 0, 0).is_err());
}

#[test]
fn payout_goes_from_question_to_message() {
    let wallet = wallet();
    let (payout, question) = process_send_tokens(&wallet, &client(), DEST, 5).unwrap();
    assert_eq!(question.operation, "runGetMethod");
    let params = question.payload.get("params").unwrap();
    let asked = params.get_text("address").unwrap();
    assert_eq!(asked, &wallet.address.to_base64_url());
    assert_eq!(params.get_text("method").unwrap(), "seqno");

    let answer = read_json("{\"result\":{\"stack\":[[\"num\",\"0x2a\"]]}}").unwrap();
    let sending = payout.on_seqno(&wallet, &client(), answer, 100).unwrap();
    assert_eq!(sending.operation, "sendBoc");
    let boc = sending.payload.get("params").unwrap().get_text("boc").unwrap();
    let (message, valid_until, seqno) = unpack(boc);
    check_payout(&message, &wallet.address, 5);
    assert_eq!(valid_until, 700);
    assert_eq!(seqno, 42);
}

#[test]
fn payout_without_a_good_address_does_not_start() {
    let wallet = wallet();
    for dest in ["", "nowhere", "0:12", "EQBiMfDMivebQb052Z6yR3jHrmwNhw1kQ5bcAUOBYsK_VPuL"] {
        assert!(matches!(
            process_send_tokens(&wallet, &client(), dest, 5),
            Err(TransferError::Address(_))
        ));
    }
}

#[test]
fn payout_without_a_stack_is_not_signed() {
    let wallet = wallet();
    let (payout, _) = process_send_tokens(&wallet, &client(), DEST, 5).unwrap();
    let answer = read_json("{\"result\":{}}").unwrap();
    assert!(matches!(
        payout.on_seqno(&wallet, &client(), answer, 100),
        Err(TransferError::Payload)
    ));
}

#[test]
fn claim_is_paid_to_its_address() {
    let wallet = wallet();
    let config = Config::from_env(
        EnvVars {
            database_url: None,
            mnemonic: String::new(),
            toncenter_api_key: None,
            toncenter_url: None,
            port: None,
            faucet_amount: Some("123456".to_string()),
            pow_difficulty: None,
        },
        Tuning {
            toncenter_timeout_seconds: 1,
            toncenter_connect_timeout_seconds: 1,
            toncenter_max_retries: 1,
            toncenter_retry_base_delay_ms: 1,
            worker_max_retries: 1,
            worker_retry_base_delay_ms: 1,
        },
    );
    let mut claim = CreateClaim {
        address: DEST.to_string(),
        challenge: "c".to_string(),
        nonce: 3,
    };
    for _ in 0..2 {
        let (payout, question) = start_payout(&wallet, &client(), &claim, &config).unwrap();
        assert_eq!(question.operation, "runGetMethod");
        let cell = payout.message;
        let cell = Cell::new(cell.data, cell.bit_len, vec![], false).unwrap();
        check_payout(&Message::from_cell(&cell).unwrap(), &wallet.address, 123_456);
    }
    claim.address.pop();
    assert!(matches!(
        start_payout(&wallet, &client(), &claim, &config),
        Err(TransferError::Address(_))
    ));
}

#[test]
fn failed_payouts_are_put_in_words() {
    assert_eq!(
        TransferError::Payload.message("x"),
        "Failed to parse runGetMethod response payload"
    );
    assert_eq!(
        TransferError::Rejected(read_json("{\"ok\":false,\"code\":1}").unwrap()).message("x"),
        "Toncenter returned ok: false. Response: Object {\"code\": Number(1), \"ok\": Bool(false)}"
    );
    let refused = TonAddress::from_str("nowhere").unwrap_err();
    let words = refused.to_string();
    assert_eq!(TransferError::Address(refused).message(&words), words);
}

#[test]
fn payout_that_cannot_be_signed_is_not_sent() {
    let mut wallet = wallet();
    let (payout, _) = process_send_tokens(&wallet, &client(), DEST, 5).unwrap();
    wallet.key_pair.secret_key.clear();
    let answer = read_json("{\"result\":{\"stack\":[]}}").unwrap();
    assert!(matches!(
        payout.on_seqno(&wallet, &client(), answer, 100),
        Err(TransferError::Message(_))
    ));
}

#[test]
fn payout_is_rejected_only_by_a_plain_no() {
    let confirmed = |text: &str| confirm_transfer(read_json(text).unwrap());
    assert!(confirmed("{\"ok\":true}").is_ok());
    assert!(confirmed("{}").is_ok());
    assert!(confirmed("{\"ok\":null}").is_ok());
    assert!(confirmed("{\"ok\":\"false\"}").is_ok());
    match confirmed("{\"ok\":false,\"code\":5}") {
        Err(TransferError::Rejected(answer)) => assert_eq!(answer.get_int("code"), Some(5)),
        other => panic!("{:?}", other),
    }
    assert!(matches!(confirm_transfer(Json::Bool(false)), Ok(())));
}
