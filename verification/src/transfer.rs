//! The message that pays a claim out: how it is built, signed, and how the
//! server's answer to it is read.

use crate::client;
use crate::client::{PayloadError, RpcCall, ToncenterClient};
use crate::json;
use crate::json::Json;
use crate::wallet;
use crate::wallet::{Address, Wallet, WalletVersion};
use num_bigint::BigUint;
use tonlib_core::cell::{Cell, CellBuilder, TonCellError};
use tonlib_core::message::TonMessageError;
use tonlib_core::tlb_types::block::coins::{CurrencyCollection, Grams};
use tonlib_core::tlb_types::block::message::{CommonMsgInfo, IntMsgInfo, Message};
use tonlib_core::tlb_types::tlb::TLB;
use tonlib_core::wallet::mnemonic::KeyPair;
use tonlib_core::wallet::ton_wallet::TonWallet;
use tonlib_core::{TonAddress, TonAddressParseError};
use vstd::prelude::*;
use vstd::utf8::*;

verus! {

#[verifier::external_type_specification]
#[verifier::external_body]
pub struct ExTonMessageError(TonMessageError);

// ---------------------------------------------------------------------------
// Cells
// ---------------------------------------------------------------------------

/// The most bits that a cell holds.
pub const MAX_CELL_BITS: usize = 1023;

/// A cell that refers to no other cell: its bits, eight to a byte, the last byte
/// filled up.
pub struct TonCell {
    pub data: Vec<u8>,
    pub bit_len: usize,
}

/// What a [`TonCell`] stands for.
#[verifier::ext_equal]
pub struct CellView {
    pub data: Seq<u8>,
    pub bit_len: nat,
}

impl TonCell {
    pub open spec fn view(&self) -> CellView {
        CellView { data: self.data@, bit_len: self.bit_len as nat }
    }

    /// Whether there are just enough bytes for the bits, and no more bits than
    /// a cell holds.
    pub open spec fn wf(&self) -> bool {
        &&& self.bit_len <= MAX_CELL_BITS
        &&& self.data@.len() == (self.bit_len + 7) / 8
    }
}

/// The four bytes of a number, most significant first.
pub open spec fn be_bytes(n: u32) -> Seq<u8> {
    seq![
        (n / 0x100_0000 % 256) as u8,
        (n / 0x1_0000 % 256) as u8,
        (n / 0x100 % 256) as u8,
        (n % 256) as u8,
    ]
}

/// A cell of whole bytes.
pub open spec fn byte_cell(bytes: Seq<u8>) -> CellView {
    CellView { data: bytes, bit_len: 8 * bytes.len() }
}

/// What a comment cell holds: the operation, then the text in UTF-8.
pub open spec fn comment_bytes(opcode: u32, comment: Seq<char>) -> Seq<u8> {
    be_bytes(opcode) + encode_utf8(comment)
}

/// Calls `store_u32` (on 32 bits) and `store_string` on a new `CellBuilder`, then
/// `build`. Claimed of them: the cell holds the number's bytes, most significant
/// first, then the text's, and there is one exactly if they are no more bits
/// than a cell holds.
#[verifier::external_body]
fn comment_cell(opcode: u32, comment: &str) -> (r: Result<TonCell, TonCellError>)
    ensures
        match r {
            Ok(cell) => 8 * comment_bytes(opcode, comment@).len() <= MAX_CELL_BITS && cell@
                == byte_cell(comment_bytes(opcode, comment@)),
            Err(_) => 8 * comment_bytes(opcode, comment@).len() > MAX_CELL_BITS,
        },
{
    let mut builder = CellBuilder::new();
    builder.store_u32(32, opcode)?;
    builder.store_string(comment)?;
    let cell = builder.build()?;
    Ok(TonCell { data: cell.data().to_vec(), bit_len: cell.bit_len() })
}

// ---------------------------------------------------------------------------
// Messages
// ---------------------------------------------------------------------------

/// A message from one account to another, without a state to set up.
pub struct InternalMessage {
    pub ihr_disabled: bool,
    pub bounce: bool,
    pub bounced: bool,
    pub src: Address,
    pub dest: Address,
    /// In nanotons, like the fees.
    pub value: u64,
    pub ihr_fee: u64,
    pub fwd_fee: u64,
    pub created_lt: u64,
    pub created_at: u32,
    pub body: TonCell,
}

/// What an [`InternalMessage`] stands for.
#[verifier::ext_equal]
pub struct MessageView {
    pub ihr_disabled: bool,
    pub bounce: bool,
    pub bounced: bool,
    pub src: wallet::AddressView,
    pub dest: wallet::AddressView,
    pub value: u64,
    pub ihr_fee: u64,
    pub fwd_fee: u64,
    pub created_lt: u64,
    pub created_at: u32,
    pub body: CellView,
}

impl InternalMessage {
    pub open spec fn view(&self) -> MessageView {
        MessageView {
            ihr_disabled: self.ihr_disabled,
            bounce: self.bounce,
            bounced: self.bounced,
            src: self.src@,
            dest: self.dest@,
            value: self.value,
            ihr_fee: self.ihr_fee,
            fwd_fee: self.fwd_fee,
            created_lt: self.created_lt,
            created_at: self.created_at,
            body: self.body@,
        }
    }
}

/// A body of at most so many bits stands in the message's own cell, however
/// long the rest of the message is.
pub const MAX_INLINE_BITS: usize = 182;

/// The cell that `Message::to_cell` writes for a message whose body stands in
/// the same cell; `None` where it refuses.
pub uninterp spec fn message_cell(message: MessageView) -> Option<CellView>;

/// Calls `Message::to_cell` for a message with that information, no initial
/// state and that body, in the layout that the crate chooses by itself. Claimed
/// of it: whether there is a cell, and which, depends on the message alone; with
/// so short a body the cell refers to no other.
#[verifier::external_body]
fn write_message(
    ihr_disabled: bool,
    bounce: bool,
    bounced: bool,
    src: &Address,
    dest: &Address,
    value: u64,
    ihr_fee: u64,
    fwd_fee: u64,
    created_lt: u64,
    created_at: u32,
    body: &TonCell,
) -> (r: Result<TonCell, TonCellError>)
    requires
        body.wf(),
        body.bit_len <= MAX_INLINE_BITS,
    ensures
        message_cell(
            (MessageView {
                ihr_disabled,
                bounce,
                bounced,
                src: src@,
                dest: dest@,
                value,
                ihr_fee,
                fwd_fee,
                created_lt,
                created_at,
                body: body@,
            }),
        ) == (match r {
            Ok(cell) => Some(cell@),
            Err(_) => None,
        }),
        r is Ok ==> r->Ok_0.wf(),
{
    let info = IntMsgInfo {
        ihr_disabled, bounce, bounced,
        src: TonAddress::new(src.workchain, src.hash.into()).to_msg_address(),
        dest: TonAddress::new(dest.workchain, dest.hash.into()).to_msg_address(),
        value: CurrencyCollection::new(BigUint::from(value)),
        ihr_fee: Grams::new(BigUint::from(ihr_fee)),
        fwd_fee: Grams::new(BigUint::from(fwd_fee)),
        created_at, created_lt,
    };
    let body = Cell::new(body.data.clone(), body.bit_len, Vec::new(), false)?;
    let cell = Message::new(CommonMsgInfo::Int(info), body.to_arc()).to_cell()?;
    Ok(TonCell { data: cell.data().to_vec(), bit_len: cell.bit_len() })
}

/// The bag of cells, in base64, that `Cell::to_boc_b64` writes, with a checksum or
/// without one, for the message that `TonWallet::create_external_msg` makes
/// without an initial state; `None` where either refuses.
pub uninterp spec fn external_message(
    wallet: wallet::WalletView,
    expire_at: u32,
    seqno: u32,
    message: CellView,
    has_crc32: bool,
) -> Option<Seq<char>>;

/// Calls `TonWallet::create_external_msg` for one message and writes the result
/// out by `to_boc_b64`. Claimed of them: whether there is such a text, and which,
/// depends on the wallet, the expiry, the sequence number, the message and
/// whether a checksum is asked for alone.
/// Only messages without an initial state are covered: of the others, the order
/// in which the cells are written is not fixed by the arguments.
#[verifier::external_body]
fn sign_external(
    wallet: &Wallet,
    expire_at: u32,
    seqno: u32,
    add_state_init: bool,
    message: &TonCell,
    has_crc32: bool,
) -> (r: Result<String, TonMessageError>)
    requires
        !add_state_init,
        message.wf(),
    ensures
        match r {
            Ok(boc) => external_message(wallet@, expire_at, seqno, message@, has_crc32) == Some(
                boc@,
            ),
            Err(_) => external_message(wallet@, expire_at, seqno, message@, has_crc32) is None,
        },
{
    let version = match wallet.version {
        WalletVersion::V5R1 => tonlib_core::wallet::wallet_version::WalletVersion::V5R1,
    };
    let key_pair = KeyPair {
        public_key: wallet.key_pair.public_key.clone(),
        secret_key: wallet.key_pair.secret_key.clone(),
    };
    let address = TonAddress::new(wallet.address.workchain, wallet.address.hash.into());
    let signer = TonWallet { version, key_pair, address, wallet_id: wallet.wallet_id };
    let cell = Cell::new(message.data.clone(), message.bit_len, Vec::new(), false)?;
    let external = signer.create_external_msg(expire_at, seqno, add_state_init, [cell.to_arc()])?;
    Ok(external.to_boc_b64(has_crc32)?)
}

// ---------------------------------------------------------------------------
// Paying a claim out
// ---------------------------------------------------------------------------

/// The message that pays an amount out: it carries the comment "Testnet faucet"
/// and does not bounce.
pub open spec fn payout(
    src: wallet::AddressView,
    dest: wallet::AddressView,
    amount: u64,
) -> MessageView {
    MessageView {
        ihr_disabled: true,
        bounce: false,
        bounced: false,
        src,
        dest,
        value: amount,
        ihr_fee: 0,
        fwd_fee: 0,
        created_lt: 0,
        created_at: 0,
        body: byte_cell(comment_bytes(0, "Testnet faucet"@)),
    }
}

/// The payout's body is 18 bytes: four zeros and the comment.
proof fn lemma_payout_body(src: wallet::AddressView, dest: wallet::AddressView, amount: u64)
    ensures
        payout(src, dest, amount).body == (CellView {
            data: seq![0u8, 0u8, 0u8, 0u8] + encode_utf8("Testnet faucet"@),
            bit_len: 144,
        }),
{
    reveal_strlit("Testnet faucet");
    is_ascii_chars_encode_utf8("Testnet faucet"@);
    assert(be_bytes(0) =~= seq![0u8, 0u8, 0u8, 0u8]);
}

/// The payout's comment cell.
fn payout_comment() -> (r: TonCell)
    ensures
        r@ == byte_cell(comment_bytes(0, "Testnet faucet"@)),
        r.data@ == seq![0u8, 0u8, 0u8, 0u8] + encode_utf8("Testnet faucet"@),
        r.bit_len == 144,
        r.wf(),
        r.bit_len <= MAX_INLINE_BITS,
{
    proof {
        reveal_strlit("Testnet faucet");
        is_ascii_chars_encode_utf8("Testnet faucet"@);
        assert(comment_bytes(0, "Testnet faucet"@).len() == 18);
        assert(be_bytes(0) =~= seq![0u8, 0u8, 0u8, 0u8]);
    }
    match comment_cell(0, "Testnet faucet") {
        Ok(cell) => cell,
        Err(_) => vstd::pervasive::unreached(),
    }
}

/// The payout from one account to another, as a message.
pub fn payout_message(src: &Address, dest: &Address, amount: u64) -> (r: InternalMessage)
    ensures
        r@ == payout(src@, dest@, amount),
        r@ == (MessageView {
            ihr_disabled: true,
            bounce: false,
            bounced: false,
            src: src@,
            dest: dest@,
            value: amount,
            ihr_fee: 0,
            fwd_fee: 0,
            created_lt: 0,
            created_at: 0,
            body: CellView {
                data: seq![0u8, 0u8, 0u8, 0u8] + encode_utf8("Testnet faucet"@),
                bit_len: 144,
            },
        }),
        r.body.wf(),
        r.body.bit_len <= MAX_INLINE_BITS,
{
    InternalMessage {
        ihr_disabled: true,
        bounce: false,
        bounced: false,
        src: *src,
        dest: *dest,
        value: amount,
        ihr_fee: 0,
        fwd_fee: 0,
        created_lt: 0,
        created_at: 0,
        body: payout_comment(),
    }
}

/// The payout from the wallet to an account, as a cell.
pub fn build_message(wallet: &Wallet, amount: u64, dest: &Address) -> (r: Result<
    TonCell,
    TonCellError,
>)
    ensures
        match r {
            Ok(cell) => message_cell(payout(wallet.address@, dest@, amount)) == Some(cell@)
                && cell.wf(),
            Err(_) => message_cell(payout(wallet.address@, dest@, amount)) is None,
        },
        message_cell(
            (MessageView {
                ihr_disabled: true,
                bounce: false,
                bounced: false,
                src: wallet.address@,
                dest: dest@,
                value: amount,
                ihr_fee: 0,
                fwd_fee: 0,
                created_lt: 0,
                created_at: 0,
                body: CellView {
                    data: seq![0u8, 0u8, 0u8, 0u8] + encode_utf8("Testnet faucet"@),
                    bit_len: 144,
                },
            }),
        ) == (match r {
            Ok(cell) => Some(cell@),
            Err(_) => None,
        }),
{
    let m: InternalMessage = payout_message(&wallet.address, dest, amount);
    write_message(
        m.ihr_disabled,
        m.bounce,
        m.bounced,
        &m.src,
        &m.dest,
        m.value,
        m.ihr_fee,
        m.fwd_fee,
        m.created_lt,
        m.created_at,
        &m.body,
    )
}

/// Why a claim was not paid out, other than that a request failed.
#[derive(Debug)]
pub enum TransferError {
    /// The claim's address is none.
    Address(TonAddressParseError),
    /// The payout could not be written as a cell.
    Cell(TonCellError),
    /// The answer to the question for the wallet's sequence number holds no
    /// stack.
    Payload,
    /// The payout could not be signed.
    Message(TonMessageError),
    /// The server said that it did not take the message. Holds its answer.
    Rejected(Json),
}

/// What a failed payout is reported as. `detail` is how the error of an address,
/// a cell or a message puts itself; the other kinds of error make no use of it.
pub open spec fn transfer_failure(error: TransferError, detail: Seq<char>) -> Seq<char> {
    match error {
        TransferError::Address(_) | TransferError::Cell(_) | TransferError::Message(_) => detail,
        TransferError::Payload => "Failed to parse runGetMethod response payload"@,
        TransferError::Rejected(answer) => "Toncenter returned ok: false. Response: "@
            + json::json_debug_words(answer@),
    }
}

impl TransferError {
    /// What the failed payout is reported as.
    pub fn message(&self, detail: &str) -> (r: String)
        ensures
            r@ == transfer_failure(*self, detail@),
            match self {
                TransferError::Payload => r@ == "Failed to parse runGetMethod response payload"@,
                TransferError::Rejected(answer) => r@ == "Toncenter returned ok: false. Response: "@
                    + json::json_debug_words(answer@),
                _ => r@ == detail@,
            },
    {
        match self {
            TransferError::Address(_) => detail.to_owned(),
            TransferError::Cell(_) => detail.to_owned(),
            TransferError::Message(_) => detail.to_owned(),
            TransferError::Payload => PayloadError.message(),
            TransferError::Rejected(answer) => "Toncenter returned ok: false. Response: ".to_owned().concat(
                answer.to_debug_text().as_str(),
            ),
        }
    }
}

/// For how many seconds a signed payout may be taken.
pub const PAYOUT_SECONDS: u64 = 600;

/// Until when a payout that is signed at `now` may be taken, in seconds since
/// the epoch, as the 32 bits that the message holds of it.
pub open spec fn expiry(now: int) -> int {
    (now + PAYOUT_SECONDS) % 0x1_0000_0000
}

/// The message, signed at `now` for a sequence number, as it is sent: a bag of
/// cells in base64, without a checksum.
pub open spec fn signed_payout(
    wallet: wallet::WalletView,
    message: CellView,
    seqno: u32,
    now: int,
) -> Option<Seq<char>> {
    external_message(wallet, expiry(now) as u32, seqno, message, false)
}

/// Whether a text is an address.
pub open spec fn address_known(text: Seq<char>) -> bool {
    wallet::address_of_text(text) is Some
}

/// The cell of a payout to an address given as a text.
pub open spec fn payout_cell(wallet: wallet::WalletView, dest: Seq<char>, amount: u64) -> Option<
    CellView,
> {
    message_cell(payout(wallet.address, wallet::address_of_text(dest)->0, amount))
}

/// Builds the message to an address given as a text.
fn prepare_transfer(wallet: &Wallet, dest: &str, amount: u64) -> (r: Result<
    TonCell,
    TransferError,
>)
    ensures
        match r {
            Ok(cell) => address_known(dest@) && payout_cell(wallet@, dest@, amount) == Some(cell@)
                && cell.wf(),
            Err(TransferError::Address(_)) => !address_known(dest@),
            Err(TransferError::Cell(_)) => address_known(dest@) && payout_cell(
                wallet@,
                dest@,
                amount,
            ) is None,
            Err(_) => false,
        },
{
    let dest: Address = match wallet::parse_address(dest) {
        Ok(address) => address,
        Err(e) => return Err(TransferError::Address(e)),
    };
    match build_message(wallet, amount, &dest) {
        Ok(cell) => Ok(cell),
        Err(e) => Err(TransferError::Cell(e)),
    }
}

/// Signs a message for the wallet's sequence number, to be taken within ten
/// minutes; gives it as a bag of cells in base64.
pub fn sign_transfer(wallet: &Wallet, message: &TonCell, seqno: u32, now: u64) -> (r: Result<
    String,
    TonMessageError,
>)
    requires
        message.wf(),
        now + PAYOUT_SECONDS <= u64::MAX,
    ensures
        match r {
            Ok(boc) => signed_payout(wallet@, message@, seqno, now as int) == Some(boc@),
            Err(_) => signed_payout(wallet@, message@, seqno, now as int) is None,
        },
        external_message(
            wallet@,
            ((now + 600) % 0x1_0000_0000) as u32,
            seqno,
            message@,
            false,
        ) == (match r {
            Ok(boc) => Some(boc@),
            Err(_) => None,
        }),
{
    let expire_at: u32 = ((now + PAYOUT_SECONDS) % 0x1_0000_0000) as u32;
    sign_external(wallet, expire_at, seqno, false, message, false)
}

/// A payout under way: its message waits for the wallet's sequence number.
pub struct Payout {
    pub message: TonCell,
}

impl Payout {
    pub open spec fn wf(&self) -> bool {
        self.message.wf()
    }
}

/// What starting a payout of `amount` to `dest` gives: its message, and the
/// question for the wallet's sequence number. It fails exactly if `dest` is no
/// address or the message cannot be written.
pub open spec fn payout_started(
    wallet: wallet::WalletView,
    client: ToncenterClient,
    dest: Seq<char>,
    amount: u64,
    r: Result<(Payout, RpcCall), TransferError>,
) -> bool {
    match r {
        Ok((payout, call)) => {
            &&& address_known(dest)
            &&& payout_cell(wallet, dest, amount) == Some(payout.message@)
            &&& payout.wf()
            &&& call.wf()
            &&& call.starts(
                client,
                client::rpc_request(
                    "runGetMethod"@,
                    client::get_method_params(wallet::text_of_address(wallet.address), "seqno"@),
                ),
                "runGetMethod"@,
            )
        },
        Err(TransferError::Address(_)) => !address_known(dest),
        Err(TransferError::Cell(_)) => address_known(dest) && payout_cell(
            wallet,
            dest,
            amount,
        ) is None,
        Err(_) => false,
    }
}

/// Starts a payout: builds its message, and asks for the wallet's sequence
/// number.
pub fn process_send_tokens(
    wallet: &Wallet,
    client: &ToncenterClient,
    dest: &str,
    amount: u64,
) -> (r: Result<(Payout, RpcCall), TransferError>)
    ensures
        payout_started(wallet@, *client, dest@, amount, r),
        r matches Err(TransferError::Address(_)) <==> wallet::address_of_text(dest@) is None,
        r is Err ==> r->Err_0 is Address || r->Err_0 is Cell,
        wallet::address_of_text(dest@) matches Some(address) ==> message_cell(
            (MessageView {
                ihr_disabled: true,
                bounce: false,
                bounced: false,
                src: wallet.address@,
                dest: address,
                value: amount,
                ihr_fee: 0,
                fwd_fee: 0,
                created_lt: 0,
                created_at: 0,
                body: CellView {
                    data: seq![0u8, 0u8, 0u8, 0u8] + encode_utf8("Testnet faucet"@),
                    bit_len: 144,
                },
            }),
        ) == (match r {
            Ok((payout, _)) => Some(payout.message@),
            Err(_) => None,
        }),
        r matches Ok((_, call)) ==> {
            &&& call.payload@ == json::JsonView::Object(
                map![
                    "id"@ => json::JsonView::Text("1"@),
                    "jsonrpc"@ => json::JsonView::Text("2.0"@),
                    "method"@ => json::JsonView::Text("runGetMethod"@),
                    "params"@ => json::JsonView::Object(
                        map![
                            "address"@ => json::JsonView::Text(
                                wallet::text_of_address(wallet.address@),
                            ),
                            "method"@ => json::JsonView::Text("seqno"@),
                            "stack"@ => json::JsonView::Array(Seq::empty()),
                        ],
                    ),
                ],
            )
            &&& call.url@ == client.base_url@ + "/api/v2/jsonRPC"@
            &&& call.operation@ == "runGetMethod"@
            &&& call.attempts.attempt == 0
            &&& call.attempts.max_retries == client.max_retries
            &&& call.retry_base_delay_ms == client.retry_base_delay_ms
        },
{
    proof {
        if address_known(dest@) {
            lemma_payout_body(wallet.address@, wallet::address_of_text(dest@)->0, amount);
        }
    }
    match prepare_transfer(wallet, dest, amount) {
        Ok(message) => {
            let address: String = wallet.address.to_base64_url();
            Ok((Payout { message }, client.get_wallet_seqno(address.as_str())))
        },
        Err(e) => Err(e),
    }
}

impl Payout {
    /// Goes on with a payout once the question for the sequence number is
    /// answered: signs the message for the number in the answer, and sends it.
    pub fn on_seqno(
        self,
        wallet: &Wallet,
        client: &ToncenterClient,
        answer: Json,
        now: u64,
    ) -> (r: Result<RpcCall, TransferError>)
        requires
            self.wf(),
            now + PAYOUT_SECONDS <= u64::MAX,
        ensures
            match client::stack_of(client::payload_of(answer@)) {
                None => r is Err && r->Err_0 is Payload,
                Some(stack) => match signed_payout(
                    wallet@,
                    self.message@,
                    client::stack_seqno(stack) as u32,
                    now as int,
                ) {
                    None => r is Err && r->Err_0 is Message,
                    Some(boc) => r is Ok && r->Ok_0.wf() && r->Ok_0.starts(
                        *client,
                        client::rpc_request("sendBoc"@, client::send_boc_params(boc)),
                        "sendBoc"@,
                    ),
                },
            },
            client::stack_of(client::payload_of(answer@)) matches Some(stack) ==> (
            match external_message(
                wallet@,
                ((now + 600) % 0x1_0000_0000) as u32,
                client::stack_seqno(stack) as u32,
                self.message@,
                false,
            ) {
                None => r is Err,
                Some(boc) => r is Ok && r->Ok_0.payload@ == json::JsonView::Object(
                    map![
                        "id"@ => json::JsonView::Text("1"@),
                        "jsonrpc"@ => json::JsonView::Text("2.0"@),
                        "method"@ => json::JsonView::Text("sendBoc"@),
                        "params"@ => json::JsonView::Object(
                            map!["boc"@ => json::JsonView::Text(boc)],
                        ),
                    ],
                ),
            }),
    {
        match ToncenterClient::read_get_method(answer) {
            Ok(result) => {
                let seqno: u32 = ToncenterClient::read_wallet_seqno(&result);
                match sign_transfer(wallet, &self.message, seqno, now) {
                    Ok(boc) => Ok(client.send_boc(boc.as_str())),
                    Err(e) => Err(TransferError::Message(e)),
                }
            },
            Err(_) => Err(TransferError::Payload),
        }
    }
}

/// Ends a payout once its message is answered: the server took it unless the
/// answer says `ok: false`.
pub fn confirm_transfer(answer: Json) -> (r: Result<(), TransferError>)
    ensures
        r is Err <==> answer@.bool_member("ok"@) == Some(false),
        r is Err ==> r->Err_0 == TransferError::Rejected(answer),
        r is Err <==> answer@ is Object && answer@->Object_0.contains_key("ok"@)
            && answer@->Object_0["ok"@] == json::JsonView::Bool(false),
{
    match answer.get_bool("ok") {
        Some(false) => Err(TransferError::Rejected(answer)),
        _ => Ok(()),
    }
}

// ---------------------------------------------------------------------------
// Laws
// ---------------------------------------------------------------------------

/// A signed payout carries the very sequence number that it was signed for, and
/// ends ten minutes after it was signed, as far as 32 bits tell.
pub proof fn law_payouts_are_signed_for_their_seqno(
    wallet: wallet::WalletView,
    message: CellView,
    seqno: u32,
    now: int,
    expire_at: u32,
)
    requires
        now >= 0,
        (expire_at - now - 600) % 0x1_0000_0000 == 0,
    ensures
        signed_payout(wallet, message, seqno, now) == external_message(
            wallet,
            expire_at,
            seqno,
            message,
            false,
        ),
{
    assert(expiry(now) == expire_at);
}

/// A payout takes the whole amount from the one account to the other, and has
/// nothing else in it but the comment.
pub proof fn law_payouts_carry_the_amount(
    src: wallet::AddressView,
    dest: wallet::AddressView,
    amount: u64,
)
    ensures
        payout(src, dest, amount).value == amount,
        payout(src, dest, amount).src == src,
        payout(src, dest, amount).dest == dest,
        payout(src, dest, amount).ihr_fee == 0 && payout(src, dest, amount).fwd_fee == 0,
        !payout(src, dest, amount).bounce && !payout(src, dest, amount).bounced,
        payout(src, dest, amount).body.data.skip(4) == encode_utf8("Testnet faucet"@),
        payout(src, dest, amount).body.data.take(4) == seq![0u8, 0u8, 0u8, 0u8],
{
    let data = payout(src, dest, amount).body.data;
    assert(be_bytes(0) =~= seq![0u8, 0u8, 0u8, 0u8]);
    assert(data.skip(4) =~= encode_utf8("Testnet faucet"@));
    assert(data.take(4) =~= seq![0u8, 0u8, 0u8, 0u8]);
}

} // verus!
