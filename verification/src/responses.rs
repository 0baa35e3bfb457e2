//! The transaction receipt aggregate and the transaction status code.
//!
//! A receipt is built by decoding and validating six tag-indexed fields
//! from an externally supplied structured response; there is no partially
//! valid receipt. The status is a closed two-value enumeration whose
//! canonical wire representation is a 256-bit unsigned integer, `1` for
//! success and `0` for failure; every other integer is rejected.

use vstd::prelude::*;
use vstd::multiset::Multiset;
use crate::eth_rpc::Digest;
use crate::eth_rpc::HttpResponsePayload;
use crate::eth_rpc::ResponseTransform;
use crate::eth_rpc::digest_len;
use crate::numeric::BlockNumber;
use crate::numeric::GasAmount;
use crate::numeric::Wei;
use crate::numeric::WeiPerGas;
use crate::u256::U256;
use crate::u256::u256_bound;

verus! {

/// Status of a mined transaction.
#[derive(Clone, Copy, Debug, PartialEq, Eq, Structural)]
pub enum TransactionStatus {
    /// Transaction was mined and executed successfully.
    Success,
    /// Transaction was mined but execution failed (e.g., out-of-gas error).
    /// The amount of the transaction is returned to the sender but gas is
    /// consumed. A failed transaction is part of the blockchain, unlike one
    /// that was never mined at all.
    Failure,
}

/// The canonical 256-bit wire integer of a status: `1` for success, `0`
/// for failure.
pub open spec fn status_code(s: TransactionStatus) -> nat {
    match s {
        TransactionStatus::Success => 1,
        TransactionStatus::Failure => 0,
    }
}

/// The status a 256-bit wire integer decodes to: the inverse of
/// `status_code` on `{0, 1}`, and nothing anywhere else.
pub open spec fn status_of_code(v: nat) -> Option<TransactionStatus> {
    if v == 0 {
        Some(TransactionStatus::Failure)
    } else if v == 1 {
        Some(TransactionStatus::Success)
    } else {
        None
    }
}

/// A status decode failure: the wire value is outside the two-value
/// domain. The offending value is kept for diagnostics.
#[derive(Clone, Copy, Debug, PartialEq, Eq, Structural)]
pub struct InvalidStatusError {
    pub raw_value: U256,
}

impl TransactionStatus {
    /// Decodes a 256-bit wire integer: `1` is success, `0` is failure, and
    /// every other value is rejected, never coerced.
    pub fn try_from_u256(value: &U256) -> (r: Result<TransactionStatus, InvalidStatusError>)
        ensures
            r is Ok <==> (value@ == 0 || value@ == 1),
            r matches Ok(s) ==> status_of_code(value@) == Some(s),
            r matches Err(e) ==> status_of_code(value@) is None && e.raw_value == *value,
    {
        if value.hi == 0 && value.lo == 0 {
            Ok(TransactionStatus::Failure)
        } else if value.hi == 0 && value.lo == 1 {
            Ok(TransactionStatus::Success)
        } else {
            Err(InvalidStatusError { raw_value: *value })
        }
    }

    /// Encodes the status as its canonical 256-bit wire integer.
    pub fn to_u256(&self) -> (r: U256)
        ensures
            r@ == status_code(*self),
    {
        match self {
            TransactionStatus::Success => U256::from_u64(1),
            TransactionStatus::Failure => U256::from_u64(0),
        }
    }

    /// The diagnostic rendering of the status; never the wire
    /// representation.
    pub fn as_str(&self) -> (r: &'static str)
        ensures
            *self is Success ==> r@ == "Success"@,
            *self is Failure ==> r@ == "Failure"@,
    {
        match self {
            TransactionStatus::Success => "Success",
            TransactionStatus::Failure => "Failure",
        }
    }
}

/// Decoding any 256-bit value outside `{0, 1}` as a status fails.
pub proof fn lemma_status_decode_rejects_out_of_domain(v: nat)
    requires
        v != 0,
        v != 1,
    ensures
        status_of_code(v) is None,
{
}

/// Round trip: decoding an in-domain wire value and encoding the result
/// gives the value back.
pub proof fn lemma_status_decode_then_encode(v: nat)
    requires
        v == 0 || v == 1,
    ensures
        status_of_code(v) matches Some(s) && status_code(s) == v,
{
}

/// Round trip: encoding a status and decoding the result gives the status
/// back.
pub proof fn lemma_status_encode_then_decode(s: TransactionStatus)
    ensures
        status_of_code(status_code(s)) == Some(s),
{
}

/// The record of a mined transaction's outcome and cost.
#[derive(Clone, Debug)]
pub struct TransactionReceipt {
    /// The hash of the block containing the transaction.
    pub block_hash: Digest,
    /// The number of the block containing the transaction.
    pub block_number: BlockNumber,
    /// The total base charge plus tip paid for each unit of gas.
    pub effective_gas_price: WeiPerGas,
    /// The amount of gas used by this specific transaction alone.
    pub gas_used: GasAmount,
    /// Status of the transaction.
    pub status: TransactionStatus,
    /// The hash of the transaction.
    pub transaction_hash: Digest,
}

/// The mathematical value of a receipt: its six fields as plain values.
#[verifier::ext_equal]
pub struct ReceiptV {
    pub block_hash: Seq<u8>,
    pub block_number: nat,
    pub effective_gas_price: nat,
    pub gas_used: nat,
    pub status: TransactionStatus,
    pub transaction_hash: Seq<u8>,
}

impl View for TransactionReceipt {
    type V = ReceiptV;

    open spec fn view(&self) -> ReceiptV {
        ReceiptV {
            block_hash: self.block_hash@,
            block_number: self.block_number@,
            effective_gas_price: self.effective_gas_price@,
            gas_used: self.gas_used@,
            status: self.status,
            transaction_hash: self.transaction_hash@,
        }
    }
}

/// Fatal internal-invariant failure: the price and gas of an
/// already-constructed receipt jointly overflow the monetary domain. This
/// is a defect-detection signal, not an ordinary validation error: real
/// chain data never reaches it.
#[derive(Clone, Copy, Debug, PartialEq, Eq, Structural)]
pub struct FeeOverflowError {
    pub effective_gas_price: WeiPerGas,
    pub gas_used: GasAmount,
}

impl TransactionReceipt {
    /// Both digests of a well-formed receipt hold exactly 32 bytes.
    pub open spec fn wf(&self) -> bool {
        self.block_hash.wf() && self.transaction_hash.wf()
    }

    /// The fee the transaction consumed: effective gas price times gas
    /// used, computed without truncation. The caller must know the product
    /// fits the monetary domain; `checked_transaction_fee` reports the
    /// overflow case instead.
    pub fn effective_transaction_fee(&self) -> (r: Wei)
        requires
            self.effective_gas_price@ * self.gas_used@ < u256_bound(),
        ensures
            r@ == self.effective_gas_price@ * self.gas_used@,
    {
        match self.effective_gas_price.transaction_cost(self.gas_used) {
            Some(fee) => fee,
            None => {
                proof {
                    assert(false);
                }
                Wei::new(U256::zero())
            },
        }
    }

    /// The fee the transaction consumed, with overflow surfaced as the
    /// fatal `FeeOverflowError` rather than a silently wrong amount.
    pub fn checked_transaction_fee(&self) -> (r: Result<Wei, FeeOverflowError>)
        ensures
            r is Ok <==> self.effective_gas_price@ * self.gas_used@ < u256_bound(),
            r matches Ok(fee) ==> fee@ == self.effective_gas_price@ * self.gas_used@,
            r matches Err(e) ==> e.effective_gas_price == self.effective_gas_price
                && e.gas_used == self.gas_used,
    {
        match self.effective_gas_price.transaction_cost(self.gas_used) {
            Some(fee) => Ok(fee),
            None => Err(FeeOverflowError {
                effective_gas_price: self.effective_gas_price,
                gas_used: self.gas_used,
            }),
        }
    }
}

impl PartialEq for TransactionReceipt {
    fn eq(&self, other: &TransactionReceipt) -> (r: bool) {
        let fields_eq = self.block_hash == other.block_hash
            && self.block_number == other.block_number
            && self.effective_gas_price == other.effective_gas_price
            && self.gas_used == other.gas_used
            && self.status == other.status
            && self.transaction_hash == other.transaction_hash;
        proof {
            if fields_eq {
                assert(self@ =~= other@);
            }
        }
        fields_eq
    }
}

impl vstd::std_specs::cmp::PartialEqSpecImpl for TransactionReceipt {
    open spec fn obeys_eq_spec() -> bool {
        true
    }

    open spec fn eq_spec(&self, other: &TransactionReceipt) -> bool {
        self@ == other@
    }
}

/// One tag-indexed field of a raw, already-parsed receipt response. The
/// tags are the wire encoding's small integer indices `0..=5`; the
/// networking collaborator maps its camelCase response keys onto them.
#[derive(Clone, Debug)]
pub enum ReceiptField {
    /// Tag 0: the containing block's digest bytes.
    BlockHash(Vec<u8>),
    /// Tag 1: the containing block's height.
    BlockNumber(U256),
    /// Tag 2: the effective gas price in wei per gas.
    EffectiveGasPrice(U256),
    /// Tag 3: the gas used by the transaction.
    GasUsed(U256),
    /// Tag 4: the status wire integer.
    Status(U256),
    /// Tag 5: the transaction's digest bytes.
    TransactionHash(Vec<u8>),
}

/// The mathematical value of one raw field.
pub enum FieldV {
    BlockHash(Seq<u8>),
    BlockNumber(nat),
    EffectiveGasPrice(nat),
    GasUsed(nat),
    Status(nat),
    TransactionHash(Seq<u8>),
}

impl View for ReceiptField {
    type V = FieldV;

    open spec fn view(&self) -> FieldV {
        match self {
            ReceiptField::BlockHash(b) => FieldV::BlockHash(b@),
            ReceiptField::BlockNumber(n) => FieldV::BlockNumber(n@),
            ReceiptField::EffectiveGasPrice(n) => FieldV::EffectiveGasPrice(n@),
            ReceiptField::GasUsed(n) => FieldV::GasUsed(n@),
            ReceiptField::Status(n) => FieldV::Status(n@),
            ReceiptField::TransactionHash(b) => FieldV::TransactionHash(b@),
        }
    }
}

/// The wire tag of a field.
pub open spec fn tag_of(f: FieldV) -> int {
    match f {
        FieldV::BlockHash(_) => 0,
        FieldV::BlockNumber(_) => 1,
        FieldV::EffectiveGasPrice(_) => 2,
        FieldV::GasUsed(_) => 3,
        FieldV::Status(_) => 4,
        FieldV::TransactionHash(_) => 5,
    }
}

/// The values of a sequence of raw fields.
pub open spec fn views_of(fields: Seq<ReceiptField>) -> Seq<FieldV> {
    fields.map_values(|f: ReceiptField| f@)
}

/// Whether some field of `s` bears tag `t`.
pub open spec fn has_tag(s: Seq<FieldV>, t: int) -> bool {
    exists|i: int| 0 <= i < s.len() && tag_of(s[i]) == t
}

/// Whether no two fields of `s` bear the same tag.
pub open spec fn tags_unique(s: Seq<FieldV>) -> bool {
    forall|i: int, j: int| 0 <= i < j < s.len() ==> tag_of(s[i]) != tag_of(s[j])
}

/// Whether every one of the six tags appears in `s`.
pub open spec fn all_tags_present(s: Seq<FieldV>) -> bool {
    has_tag(s, 0) && has_tag(s, 1) && has_tag(s, 2) && has_tag(s, 3) && has_tag(s, 4)
        && has_tag(s, 5)
}

/// The field of `s` bearing tag `t`; meaningful where exactly one does.
pub open spec fn field_with_tag(s: Seq<FieldV>, t: int) -> FieldV {
    s[choose|i: int| 0 <= i < s.len() && tag_of(s[i]) == t]
}

/// Whether one raw field's value lies in its domain: digests hold exactly
/// 32 bytes, counters fit 64 bits, the status wire integer is `0` or `1`,
/// and a price may be any 256-bit value.
pub open spec fn field_value_ok(f: FieldV) -> bool {
    match f {
        FieldV::BlockHash(b) => b.len() == digest_len(),
        FieldV::BlockNumber(n) => n < 0x1_0000_0000_0000_0000,
        FieldV::EffectiveGasPrice(_) => true,
        FieldV::GasUsed(n) => n < 0x1_0000_0000_0000_0000,
        FieldV::Status(n) => status_of_code(n) is Some,
        FieldV::TransactionHash(b) => b.len() == digest_len(),
    }
}

/// A raw response decodes to a receipt exactly when each of the six tags
/// appears exactly once and every field value lies in its domain.
pub open spec fn fields_valid(s: Seq<FieldV>) -> bool {
    tags_unique(s) && all_tags_present(s) && (forall|i: int|
        0 <= i < s.len() ==> field_value_ok(#[trigger] s[i]))
}

/// The digest bytes a block-hash or transaction-hash field carries.
pub open spec fn digest_bytes_of(f: FieldV) -> Seq<u8> {
    match f {
        FieldV::BlockHash(b) => b,
        FieldV::TransactionHash(b) => b,
        _ => Seq::empty(),
    }
}

/// The numeric value a numeric field carries.
pub open spec fn number_of(f: FieldV) -> nat {
    match f {
        FieldV::BlockNumber(n) => n,
        FieldV::EffectiveGasPrice(n) => n,
        FieldV::GasUsed(n) => n,
        FieldV::Status(n) => n,
        _ => 0,
    }
}

/// The status an in-domain status field carries.
pub open spec fn status_of_field(f: FieldV) -> TransactionStatus {
    if number_of(f) == 1 {
        TransactionStatus::Success
    } else {
        TransactionStatus::Failure
    }
}

/// The receipt a valid raw response decodes to.
pub open spec fn decoded_receipt(s: Seq<FieldV>) -> ReceiptV {
    ReceiptV {
        block_hash: digest_bytes_of(field_with_tag(s, 0)),
        block_number: number_of(field_with_tag(s, 1)),
        effective_gas_price: number_of(field_with_tag(s, 2)),
        gas_used: number_of(field_with_tag(s, 3)),
        status: status_of_field(field_with_tag(s, 4)),
        transaction_hash: digest_bytes_of(field_with_tag(s, 5)),
    }
}

/// Whether decoding reaches the value check of tag `t`: the tags are
/// unique and complete, and every value checked earlier is in its domain.
/// Values are checked in the order block hash (0), block number (1), gas
/// used (3), status (4), transaction hash (5); a price (2) is never at
/// fault.
pub open spec fn decode_reaches(s: Seq<FieldV>, t: int) -> bool {
    tags_unique(s) && all_tags_present(s) && (t > 0 ==> field_value_ok(field_with_tag(s, 0))) && (
    t > 1 ==> field_value_ok(field_with_tag(s, 1))) && (t > 3 ==> field_value_ok(
        field_with_tag(s, 3),
    )) && (t > 4 ==> field_value_ok(field_with_tag(s, 4)))
}

/// Where the tags of `s` are unique, the field with the tag of `s[k]` is
/// `s[k]` itself.
pub proof fn lemma_field_with_tag_unique(s: Seq<FieldV>, t: int, k: int)
    requires
        tags_unique(s),
        0 <= k < s.len(),
        tag_of(s[k]) == t,
    ensures
        has_tag(s, t),
        field_with_tag(s, t) == s[k],
{
    assert(has_tag(s, t));
    let c = choose|i: int| 0 <= i < s.len() && tag_of(s[i]) == t;
    if c < k {
        assert(tag_of(s[c]) != tag_of(s[k]));
    } else if k < c {
        assert(tag_of(s[k]) != tag_of(s[c]));
    }
}

/// Why a raw response failed to decode into a receipt.
#[derive(Clone, Debug)]
pub enum ReceiptDecodeError {
    /// Some tag appears more than once among the fields.
    DuplicateField,
    /// No tag appears twice, and some tag is absent.
    MissingField,
    /// The block-hash bytes, which are not exactly 32 bytes long.
    InvalidBlockHash(Vec<u8>),
    /// The block number, which does not fit the 64-bit counter domain.
    InvalidBlockNumber(U256),
    /// The gas-used value, which does not fit the 64-bit counter domain.
    InvalidGasUsed(U256),
    /// The status wire integer, which is outside `{0, 1}`.
    InvalidStatus(U256),
    /// The transaction-hash bytes, which are not exactly 32 bytes long.
    InvalidTransactionHash(Vec<u8>),
}

/// A copy of a byte string.
fn clone_bytes(v: &Vec<u8>) -> (r: Vec<u8>)
    ensures
        r@ == v@,
{
    let r = v.clone();
    proof {
        assert(r@ =~= v@);
    }
    r
}

impl TransactionReceipt {
    /// Decodes and validates the six tag-indexed fields of a raw response
    /// into a receipt. Every field must appear exactly once, in any order,
    /// and every value must lie in its domain; otherwise decoding fails as
    /// a whole, with the offending raw value where a value is at fault.
    /// Checks run in a fixed order: duplicates, missing tags, then the
    /// block hash, block number, gas used, status and transaction hash
    /// values.
    #[verifier::rlimit(100)]
    pub fn decode(fields: Vec<ReceiptField>) -> (r: Result<
        TransactionReceipt,
        ReceiptDecodeError,
    >)
        ensures
            r is Ok <==> fields_valid(views_of(fields@)),
            r matches Ok(rec) ==> rec@ == decoded_receipt(views_of(fields@)) && rec.wf(),
            (r matches Err(ReceiptDecodeError::DuplicateField)) <==> !tags_unique(
                views_of(fields@),
            ),
            (r matches Err(ReceiptDecodeError::MissingField)) <==> tags_unique(views_of(fields@))
                && !all_tags_present(views_of(fields@)),
            (r matches Err(ReceiptDecodeError::InvalidBlockHash(_))) <==> decode_reaches(
                views_of(fields@),
                0,
            ) && !field_value_ok(field_with_tag(views_of(fields@), 0)),
            r matches Err(ReceiptDecodeError::InvalidBlockHash(b)) ==> b@ == digest_bytes_of(
                field_with_tag(views_of(fields@), 0),
            ),
            (r matches Err(ReceiptDecodeError::InvalidBlockNumber(_))) <==> decode_reaches(
                views_of(fields@),
                1,
            ) && !field_value_ok(field_with_tag(views_of(fields@), 1)),
            r matches Err(ReceiptDecodeError::InvalidBlockNumber(n)) ==> n@ == number_of(
                field_with_tag(views_of(fields@), 1),
            ),
            (r matches Err(ReceiptDecodeError::InvalidGasUsed(_))) <==> decode_reaches(
                views_of(fields@),
                3,
            ) && !field_value_ok(field_with_tag(views_of(fields@), 3)),
            r matches Err(ReceiptDecodeError::InvalidGasUsed(n)) ==> n@ == number_of(
                field_with_tag(views_of(fields@), 3),
            ),
            (r matches Err(ReceiptDecodeError::InvalidStatus(_))) <==> decode_reaches(
                views_of(fields@),
                4,
            ) && !field_value_ok(field_with_tag(views_of(fields@), 4)),
            r matches Err(ReceiptDecodeError::InvalidStatus(n)) ==> n@ == number_of(
                field_with_tag(views_of(fields@), 4),
            ),
            (r matches Err(ReceiptDecodeError::InvalidTransactionHash(_))) <==> decode_reaches(
                views_of(fields@),
                5,
            ) && !field_value_ok(field_with_tag(views_of(fields@), 5)),
            r matches Err(ReceiptDecodeError::InvalidTransactionHash(b)) ==> b@ == digest_bytes_of(
                field_with_tag(views_of(fields@), 5),
            ),
    {
        let ghost v = views_of(fields@);
        let mut bh: Option<Vec<u8>> = None;
        let mut bn: Option<U256> = None;
        let mut gp: Option<U256> = None;
        let mut gu: Option<U256> = None;
        let mut st: Option<U256> = None;
        let mut th: Option<Vec<u8>> = None;
        let n = fields.len();
        let mut i: usize = 0;
        while i < n
            invariant
                n == fields.len(),
                i <= n,
                v == views_of(fields@),
                v.len() == n,
                tags_unique(v.take(i as int)),
                bh is Some <==> has_tag(v.take(i as int), 0),
                bn is Some <==> has_tag(v.take(i as int), 1),
                gp is Some <==> has_tag(v.take(i as int), 2),
                gu is Some <==> has_tag(v.take(i as int), 3),
                st is Some <==> has_tag(v.take(i as int), 4),
                th is Some <==> has_tag(v.take(i as int), 5),
                bh matches Some(b) ==> exists|k: int|
                    0 <= k < i && v[k] == FieldV::BlockHash(b@),
                bn matches Some(x) ==> exists|k: int|
                    0 <= k < i && v[k] == FieldV::BlockNumber(x@),
                gp matches Some(x) ==> exists|k: int|
                    0 <= k < i && v[k] == FieldV::EffectiveGasPrice(x@),
                gu matches Some(x) ==> exists|k: int|
                    0 <= k < i && v[k] == FieldV::GasUsed(x@),
                st matches Some(x) ==> exists|k: int|
                    0 <= k < i && v[k] == FieldV::Status(x@),
                th matches Some(b) ==> exists|k: int|
                    0 <= k < i && v[k] == FieldV::TransactionHash(b@),
            decreases n - i,
        {
            proof {
                assert(v[i as int] == fields@[i as int]@);
                assert(v.take(i as int + 1) =~= v.take(i as int).push(v[i as int]));
                lemma_has_tag_push(v.take(i as int), v[i as int], 0);
                lemma_has_tag_push(v.take(i as int), v[i as int], 1);
                lemma_has_tag_push(v.take(i as int), v[i as int], 2);
                lemma_has_tag_push(v.take(i as int), v[i as int], 3);
                lemma_has_tag_push(v.take(i as int), v[i as int], 4);
                lemma_has_tag_push(v.take(i as int), v[i as int], 5);
            }
            match &fields[i] {
                ReceiptField::BlockHash(b) => {
                    if bh.is_some() {
                        proof {
                            lemma_duplicate_tag(v, i as int, 0);
                        }
                        return Err(ReceiptDecodeError::DuplicateField);
                    }
                    bh = Some(clone_bytes(b));
                    proof {
                        lemma_tags_unique_push(v.take(i as int), v[i as int]);
                    }
                },
                ReceiptField::BlockNumber(x) => {
                    if bn.is_some() {
                        proof {
                            lemma_duplicate_tag(v, i as int, 1);
                        }
                        return Err(ReceiptDecodeError::DuplicateField);
                    }
                    bn = Some(*x);
                    proof {
                        lemma_tags_unique_push(v.take(i as int), v[i as int]);
                    }
                },
                ReceiptField::EffectiveGasPrice(x) => {
                    if gp.is_some() {
                        proof {
                            lemma_duplicate_tag(v, i as int, 2);
                        }
                        return Err(ReceiptDecodeError::DuplicateField);
                    }
                    gp = Some(*x);
                    proof {
                        lemma_tags_unique_push(v.take(i as int), v[i as int]);
                    }
                },
                ReceiptField::GasUsed(x) => {
                    if gu.is_some() {
                        proof {
                            lemma_duplicate_tag(v, i as int, 3);
                        }
                        return Err(ReceiptDecodeError::DuplicateField);
                    }
                    gu = Some(*x);
                    proof {
                        lemma_tags_unique_push(v.take(i as int), v[i as int]);
                    }
                },
                ReceiptField::Status(x) => {
                    if st.is_some() {
                        proof {
                            lemma_duplicate_tag(v, i as int, 4);
                        }
                        return Err(ReceiptDecodeError::DuplicateField);
                    }
                    st = Some(*x);
                    proof {
                        lemma_tags_unique_push(v.take(i as int), v[i as int]);
                    }
                },
                ReceiptField::TransactionHash(b) => {
                    if th.is_some() {
                        proof {
                            lemma_duplicate_tag(v, i as int, 5);
                        }
                        return Err(ReceiptDecodeError::DuplicateField);
                    }
                    th = Some(clone_bytes(b));
                    proof {
                        lemma_tags_unique_push(v.take(i as int), v[i as int]);
                    }
                },
            }
            i = i + 1;
        }
        proof {
            assert(v.take(n as int) =~= v);
        }
        if bh.is_none() || bn.is_none() || gp.is_none() || gu.is_none() || st.is_none()
            || th.is_none() {
            return Err(ReceiptDecodeError::MissingField);
        }
        let bh_bytes = bh.unwrap();
        let bn_raw = bn.unwrap();
        let gp_raw = gp.unwrap();
        let gu_raw = gu.unwrap();
        let st_raw = st.unwrap();
        let th_bytes = th.unwrap();
        proof {
            let k0 = choose|k: int| 0 <= k < v.len() && v[k] == FieldV::BlockHash(bh_bytes@);
            lemma_field_with_tag_unique(v, 0, k0);
            let k1 = choose|k: int| 0 <= k < v.len() && v[k] == FieldV::BlockNumber(bn_raw@);
            lemma_field_with_tag_unique(v, 1, k1);
            let k2 = choose|k: int|
                0 <= k < v.len() && v[k] == FieldV::EffectiveGasPrice(gp_raw@);
            lemma_field_with_tag_unique(v, 2, k2);
            let k3 = choose|k: int| 0 <= k < v.len() && v[k] == FieldV::GasUsed(gu_raw@);
            lemma_field_with_tag_unique(v, 3, k3);
            let k4 = choose|k: int| 0 <= k < v.len() && v[k] == FieldV::Status(st_raw@);
            lemma_field_with_tag_unique(v, 4, k4);
            let k5 = choose|k: int| 0 <= k < v.len() && v[k] == FieldV::TransactionHash(th_bytes@);
            lemma_field_with_tag_unique(v, 5, k5);
        }
        if bh_bytes.len() != 32 {
            return Err(ReceiptDecodeError::InvalidBlockHash(bh_bytes));
        }
        let block_number = match bn_raw.try_to_u64() {
            Some(x) => BlockNumber::new(x),
            None => {
                return Err(ReceiptDecodeError::InvalidBlockNumber(bn_raw));
            },
        };
        let gas_used = match gu_raw.try_to_u64() {
            Some(x) => GasAmount::new(x),
            None => {
                return Err(ReceiptDecodeError::InvalidGasUsed(gu_raw));
            },
        };
        let status = match TransactionStatus::try_from_u256(&st_raw) {
            Ok(s) => s,
            Err(e) => {
                return Err(ReceiptDecodeError::InvalidStatus(e.raw_value));
            },
        };
        if th_bytes.len() != 32 {
            return Err(ReceiptDecodeError::InvalidTransactionHash(th_bytes));
        }
        let block_hash = match Digest::from_bytes(bh_bytes) {
            Some(d) => d,
            None => {
                proof {
                    assert(false);
                }
                return Err(ReceiptDecodeError::MissingField);
            },
        };
        let transaction_hash = match Digest::from_bytes(th_bytes) {
            Some(d) => d,
            None => {
                proof {
                    assert(false);
                }
                return Err(ReceiptDecodeError::MissingField);
            },
        };
        let receipt = TransactionReceipt {
            block_hash,
            block_number,
            effective_gas_price: WeiPerGas::new(gp_raw),
            gas_used,
            status,
            transaction_hash,
        };
        proof {
            assert forall|i2: int| 0 <= i2 < v.len() implies field_value_ok(#[trigger] v[i2]) by {
                lemma_field_with_tag_unique(v, tag_of(v[i2]), i2);
            }
            assert(receipt@ =~= decoded_receipt(v));
        }
        Ok(receipt)
    }
}

/// Appending a field bears tag `t` exactly when the field itself does or
/// some earlier field already did.
pub proof fn lemma_has_tag_push(s: Seq<FieldV>, f: FieldV, t: int)
    ensures
        has_tag(s.push(f), t) <==> (has_tag(s, t) || tag_of(f) == t),
{
    if has_tag(s.push(f), t) {
        let k = choose|k: int| 0 <= k < s.push(f).len() && tag_of(s.push(f)[k]) == t;
        if k < s.len() {
            assert(s.push(f)[k] == s[k]);
        } else {
            assert(s.push(f)[k] == f);
        }
    }
    if has_tag(s, t) {
        let k = choose|k: int| 0 <= k < s.len() && tag_of(s[k]) == t;
        assert(s.push(f)[k] == s[k]);
        assert(has_tag(s.push(f), t));
    }
    if tag_of(f) == t {
        assert(tag_of(s.push(f)[s.len() as int]) == t);
        assert(has_tag(s.push(f), t));
    }
}

/// Appending a field with a fresh tag keeps the tags unique.
pub proof fn lemma_tags_unique_push(s: Seq<FieldV>, f: FieldV)
    requires
        tags_unique(s),
        !has_tag(s, tag_of(f)),
    ensures
        tags_unique(s.push(f)),
{
    assert forall|i: int, j: int| 0 <= i < j < s.push(f).len() implies tag_of(s.push(f)[i])
        != tag_of(s.push(f)[j]) by {
        assert(s.push(f)[i] == s[i]);
        if j < s.len() {
            assert(s.push(f)[j] == s[j]);
        } else {
            assert(s.push(f)[j] == f);
            if tag_of(s[i]) == tag_of(f) {
                assert(has_tag(s, tag_of(f)));
            }
        }
    }
}

/// Where `s[i]` bears tag `t` and an earlier field already bears it, the
/// tags of `s` are not unique.
pub proof fn lemma_duplicate_tag(s: Seq<FieldV>, i: int, t: int)
    requires
        0 <= i < s.len(),
        tag_of(s[i]) == t,
        has_tag(s.take(i), t),
    ensures
        !tags_unique(s),
{
    let k = choose|k: int| 0 <= k < s.take(i).len() && tag_of(s.take(i)[k]) == t;
    assert(tag_of(s[k]) == t);
}

/// A field that two positions of `s` both hold counts at least twice in
/// the multiset of `s`.
proof fn lemma_two_indices_count(s: Seq<FieldV>, i: int, j: int)
    requires
        0 <= i < j < s.len(),
        s[i] == s[j],
    ensures
        s.to_multiset().count(s[i]) >= 2,
{
    broadcast use vstd::seq_lib::group_to_multiset_ensures;
    broadcast use vstd::multiset::group_multiset_axioms;

    let e = s[i];
    assert(s.remove(j).to_multiset() =~= s.to_multiset().remove(e));
    assert(s.remove(j)[i] == e);
    assert(s.remove(j).contains(e));
    assert(s.remove(j).to_multiset().count(e) > 0);
    assert(Multiset::singleton(e).count(e) == 1);
    assert(s.contains(e));
    assert(s.to_multiset().count(e) > 0);
    assert(s.to_multiset().remove(e).count(e) == s.to_multiset().count(e) - 1);
}

/// A field that counts at least twice in the multiset of `s` sits at two
/// distinct positions of `s`.
proof fn lemma_count_two_indices(s: Seq<FieldV>, e: FieldV)
    requires
        s.to_multiset().count(e) >= 2,
    ensures
        exists|i: int, j: int| 0 <= i < j < s.len() && s[i] == e && s[j] == e,
{
    broadcast use vstd::seq_lib::group_to_multiset_ensures;
    broadcast use vstd::multiset::group_multiset_axioms;

    assert(s.contains(e));
    let k = choose|k: int| 0 <= k < s.len() && s[k] == e;
    assert(s.remove(k).to_multiset() =~= s.to_multiset().remove(e));
    assert(Multiset::singleton(e).count(e) == 1);
    assert(s.to_multiset().remove(e).count(e) == s.to_multiset().count(e) - 1);
    assert(s.remove(k).to_multiset().count(e) > 0);
    assert(s.remove(k).contains(e));
    let l = choose|l: int| 0 <= l < s.remove(k).len() && s.remove(k)[l] == e;
    if l < k {
        assert(s[l] == e);
        assert(0 <= l < k < s.len() && s[l] == e && s[k] == e);
    } else {
        assert(s[l + 1] == e);
        assert(0 <= k < l + 1 < s.len() && s[k] == e && s[l + 1] == e);
    }
}

/// Uniqueness of tags carries over between sequences holding the same
/// multiset of fields.
proof fn lemma_tags_unique_transfer(s1: Seq<FieldV>, s2: Seq<FieldV>)
    requires
        s1.to_multiset() == s2.to_multiset(),
        tags_unique(s1),
    ensures
        tags_unique(s2),
{
    broadcast use vstd::seq_lib::group_to_multiset_ensures;

    assert forall|i: int, j: int| 0 <= i < j < s2.len() implies tag_of(s2[i]) != tag_of(
        s2[j],
    ) by {
        if tag_of(s2[i]) == tag_of(s2[j]) {
            if s2[i] == s2[j] {
                lemma_two_indices_count(s2, i, j);
                lemma_count_two_indices(s1, s2[i]);
                let (k, l) = choose|k: int, l: int|
                    0 <= k < l < s1.len() && s1[k] == s2[i] && s1[l] == s2[i];
                assert(tag_of(s1[k]) != tag_of(s1[l]));
            } else {
                assert(s2.contains(s2[i]));
                assert(s2.contains(s2[j]));
                assert(s2.to_multiset().count(s2[i]) > 0);
                assert(s2.to_multiset().count(s2[j]) > 0);
                assert(s1.contains(s2[i]));
                assert(s1.contains(s2[j]));
                let k = choose|k: int| 0 <= k < s1.len() && s1[k] == s2[i];
                let l = choose|l: int| 0 <= l < s1.len() && s1[l] == s2[j];
                if k < l {
                    assert(tag_of(s1[k]) != tag_of(s1[l]));
                } else {
                    assert(tag_of(s1[l]) != tag_of(s1[k]));
                }
            }
        }
    }
}

/// Presence of a tag carries over between sequences holding the same
/// multiset of fields.
proof fn lemma_has_tag_transfer(s1: Seq<FieldV>, s2: Seq<FieldV>, t: int)
    requires
        s1.to_multiset() == s2.to_multiset(),
        has_tag(s1, t),
    ensures
        has_tag(s2, t),
{
    broadcast use vstd::seq_lib::group_to_multiset_ensures;

    let i = choose|i: int| 0 <= i < s1.len() && tag_of(s1[i]) == t;
    assert(s1.contains(s1[i]));
    assert(s1.to_multiset().count(s1[i]) > 0);
    assert(s2.contains(s1[i]));
    let k = choose|k: int| 0 <= k < s2.len() && s2[k] == s1[i];
    assert(tag_of(s2[k]) == t);
}

/// The field bearing a tag is the same in two sequences holding the same
/// multiset of fields, where the tags of both are unique.
proof fn lemma_field_with_tag_transfer(s1: Seq<FieldV>, s2: Seq<FieldV>, t: int)
    requires
        s1.to_multiset() == s2.to_multiset(),
        tags_unique(s2),
        has_tag(s1, t),
    ensures
        field_with_tag(s2, t) == field_with_tag(s1, t),
{
    broadcast use vstd::seq_lib::group_to_multiset_ensures;

    let c = choose|i: int| 0 <= i < s1.len() && tag_of(s1[i]) == t;
    assert(field_with_tag(s1, t) == s1[c]);
    assert(s1.contains(s1[c]));
    assert(s1.to_multiset().count(s1[c]) > 0);
    assert(s2.contains(s1[c]));
    let k = choose|k: int| 0 <= k < s2.len() && s2[k] == s1[c];
    lemma_field_with_tag_unique(s2, t, k);
}

/// Validity carries over between sequences holding the same multiset of
/// fields.
proof fn lemma_fields_valid_transfer(s1: Seq<FieldV>, s2: Seq<FieldV>)
    requires
        s1.to_multiset() == s2.to_multiset(),
        fields_valid(s1),
    ensures
        fields_valid(s2),
{
    broadcast use vstd::seq_lib::group_to_multiset_ensures;

    lemma_tags_unique_transfer(s1, s2);
    lemma_has_tag_transfer(s1, s2, 0);
    lemma_has_tag_transfer(s1, s2, 1);
    lemma_has_tag_transfer(s1, s2, 2);
    lemma_has_tag_transfer(s1, s2, 3);
    lemma_has_tag_transfer(s1, s2, 4);
    lemma_has_tag_transfer(s1, s2, 5);
    assert forall|i: int| 0 <= i < s2.len() implies field_value_ok(#[trigger] s2[i]) by {
        assert(s2.contains(s2[i]));
        assert(s2.to_multiset().count(s2[i]) > 0);
        assert(s1.contains(s2[i]));
        let k = choose|k: int| 0 <= k < s1.len() && s1[k] == s2[i];
        assert(field_value_ok(s1[k]));
    }
}

/// Encoding independence: two raw responses that hold the same fields, in
/// whatever order the wire encoding delivered them, are equally valid and
/// decode to equal receipts.
pub proof fn lemma_decode_encoding_independent(s1: Seq<FieldV>, s2: Seq<FieldV>)
    requires
        s1.to_multiset() == s2.to_multiset(),
    ensures
        fields_valid(s1) <==> fields_valid(s2),
        fields_valid(s1) ==> decoded_receipt(s1) == decoded_receipt(s2),
{
    if fields_valid(s1) {
        lemma_fields_valid_transfer(s1, s2);
    }
    if fields_valid(s2) {
        lemma_fields_valid_transfer(s2, s1);
    }
    if fields_valid(s1) {
        lemma_field_with_tag_transfer(s1, s2, 0);
        lemma_field_with_tag_transfer(s1, s2, 1);
        lemma_field_with_tag_transfer(s1, s2, 2);
        lemma_field_with_tag_transfer(s1, s2, 3);
        lemma_field_with_tag_transfer(s1, s2, 4);
        lemma_field_with_tag_transfer(s1, s2, 5);
        assert(decoded_receipt(s1) =~= decoded_receipt(s2));
    }
}

impl HttpResponsePayload for TransactionReceipt {
    /// A raw receipt response must be canonicalized before it may cross
    /// the consensus boundary.
    fn response_transform() -> (t: Option<ResponseTransform>)
        ensures
            t == Some(ResponseTransform::TransactionReceipt),
    {
        Some(ResponseTransform::TransactionReceipt)
    }
}

} // verus!
