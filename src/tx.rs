//! Signed transactions: their raw protobuf form and the account sequence.
use vstd::prelude::*;

use crate::error::Error;
use crate::proto::{bytes_field, singular_field};

verus! {

#[verifier::external_type_specification]
#[verifier::external_body]
pub struct ExTxBody(ibc_proto::cosmos::tx::v1beta1::TxBody);

#[verifier::external_type_specification]
#[verifier::external_body]
pub struct ExAuthInfo(ibc_proto::cosmos::tx::v1beta1::AuthInfo);

/// A signed transaction, with its body and auth info both decoded and encoded.
pub struct SignedTx {
    pub body: ibc_proto::cosmos::tx::v1beta1::TxBody,
    pub body_bytes: Vec<u8>,
    pub auth_info: ibc_proto::cosmos::tx::v1beta1::AuthInfo,
    pub auth_info_bytes: Vec<u8>,
    pub signatures: Vec<Vec<u8>>,
}

/// The form in which a signed transaction is broadcast.
#[derive(Clone, Debug, PartialEq, Eq)]
pub struct TxRaw {
    pub body_bytes: Vec<u8>,
    pub auth_info_bytes: Vec<u8>,
    pub signatures: Vec<Vec<u8>>,
}

/// Body bytes, auth info bytes and signatures.
pub type TxRawView = (Seq<u8>, Seq<u8>, Seq<Seq<u8>>);

impl View for TxRaw {
    type V = TxRawView;

    open spec fn view(&self) -> TxRawView {
        (self.body_bytes@, self.auth_info_bytes@, self.signatures@.map_values(|s: Vec<u8>| s@))
    }
}

/// Each signature as a field of tag 3, in order.
pub open spec fn signature_fields(sigs: Seq<Seq<u8>>) -> Seq<u8>
    decreases sigs.len(),
{
    if sigs.len() == 0 {
        Seq::empty()
    } else {
        signature_fields(sigs.drop_last()) + bytes_field(0x1a, sigs.last())
    }
}

/// Protobuf encoding of a `TxRaw`: body bytes (tag 1) and auth info bytes
/// (tag 2) when non-empty, then every signature (tag 3).
pub open spec fn tx_raw_encoding(t: TxRawView) -> Seq<u8> {
    singular_field(0x0a, t.0) + singular_field(0x12, t.1) + signature_fields(t.2)
}

/// The bytes are the encoding of some transaction.
pub open spec fn is_tx_raw_encoding(bytes: Seq<u8>) -> bool {
    exists|t: TxRawView| #[trigger] tx_raw_encoding(t) == bytes
}

/// Every transaction's encoding is one that `decode_tx_raw` accepts, so
/// decoding what `encode_tx_raw` wrote succeeds and encodes back to the very
/// same bytes.
pub proof fn lemma_encoded_tx_raw_decodes(t: TxRawView)
    ensures
        is_tx_raw_encoding(tx_raw_encoding(t)),
{
    assert(tx_raw_encoding(t) == tx_raw_encoding(t));
}

/// Relies on prost's `Message::encode` for ibc-proto's `TxRaw`: fields in tag
/// order, empty singular fields left out, every signature written, into an
/// empty vector; it fails only past `isize::MAX` bytes.
#[verifier::external_body]
fn prost_encode_tx_raw(tx: TxRaw) -> (r: Result<Vec<u8>, prost::EncodeError>)
    ensures
        r is Ok <==> tx_raw_encoding(tx@).len() <= isize::MAX,
        r matches Ok(b) ==> b@ == tx_raw_encoding(tx@),
{
    let raw = ibc_proto::cosmos::tx::v1beta1::TxRaw {
        body_bytes: tx.body_bytes,
        auth_info_bytes: tx.auth_info_bytes,
        signatures: tx.signatures,
    };
    let mut buf: Vec<u8> = Vec::new();
    prost::Message::encode(&raw, &mut buf)?;
    Ok(buf)
}

/// Relies on prost's `Message::decode` for ibc-proto's `TxRaw`: bytes that are
/// the encoding of a transaction decode, and what comes back encodes to those
/// same bytes.
#[verifier::external_body]
fn prost_decode_tx_raw(bytes: &[u8]) -> (r: Result<TxRaw, prost::DecodeError>)
    ensures
        is_tx_raw_encoding(bytes@) ==> r is Ok,
        r matches Ok(d) ==> is_tx_raw_encoding(bytes@) ==> tx_raw_encoding(d@) == bytes@,
{
    let raw: ibc_proto::cosmos::tx::v1beta1::TxRaw = prost::Message::decode(bytes)?;
    Ok(TxRaw {
        body_bytes: raw.body_bytes,
        auth_info_bytes: raw.auth_info_bytes,
        signatures: raw.signatures,
    })
}

/// The bytes that are broadcast for `tx_raw`.
pub fn encode_tx_raw(tx_raw: TxRaw) -> (r: Result<Vec<u8>, Error>)
    ensures
        r is Ok <==> tx_raw_encoding(tx_raw@).len() <= isize::MAX,
        r matches Ok(b) ==> b@ == tx_raw_encoding(tx_raw@),
        r matches Err(e) ==> e == Error::ProtobufEncode,
{
    match prost_encode_tx_raw(tx_raw) {
        Ok(b) => Ok(b),
        Err(_) => Err(Error::ProtobufEncode),
    }
}

/// Reads a `TxRaw` back from its bytes. On bytes that `encode_tx_raw`
/// produced it succeeds, and encoding the result gives the same bytes.
pub fn decode_tx_raw(bytes: &[u8]) -> (r: Result<TxRaw, Error>)
    ensures
        is_tx_raw_encoding(bytes@) ==> r is Ok,
        r matches Ok(d) ==> is_tx_raw_encoding(bytes@) ==> tx_raw_encoding(d@) == bytes@,
        r matches Err(e) ==> e == Error::ProtobufDecode,
{
    match prost_decode_tx_raw(bytes) {
        Ok(t) => Ok(t),
        Err(_) => Err(Error::ProtobufDecode),
    }
}

/// The raw form of a signed transaction: its encoded parts and signatures.
pub fn to_tx_raw(signed_tx: SignedTx) -> (r: TxRaw)
    ensures
        r.body_bytes@ == signed_tx.body_bytes@,
        r.auth_info_bytes@ == signed_tx.auth_info_bytes@,
        r.signatures@ == signed_tx.signatures@,
{
    TxRaw {
        body_bytes: signed_tx.body_bytes,
        auth_info_bytes: signed_tx.auth_info_bytes,
        signatures: signed_tx.signatures,
    }
}

/// The bytes to broadcast for a signed transaction.
pub fn sign_and_encode_tx(signed_tx: SignedTx) -> (r: Result<Vec<u8>, Error>)
    ensures
        ({
            let t = (
                signed_tx.body_bytes@,
                signed_tx.auth_info_bytes@,
                signed_tx.signatures@.map_values(|s: Vec<u8>| s@),
            );
            &&& r is Ok <==> tx_raw_encoding(t).len() <= isize::MAX
            &&& r matches Ok(b) ==> b@ == tx_raw_encoding(t)
        }),
{
    let tx_raw = to_tx_raw(signed_tx);
    encode_tx_raw(tx_raw)
}

/// The account sequence after a broadcast answered with `code`: it moves on
/// by one only when the chain accepted the transaction (code zero).
pub open spec fn next_sequence(sequence: nat, code: u32) -> nat {
    if code == 0 {
        sequence + 1
    } else {
        sequence
    }
}

/// Records the answer to a broadcast in the account sequence.
pub fn update_account_sequence(account_sequence: &mut u64, code: u32)
    requires
        code != 0 || *old(account_sequence) < u64::MAX,
    ensures
        *final(account_sequence) == next_sequence(*old(account_sequence) as nat, code),
{
    if code == 0 {
        *account_sequence = *account_sequence + 1;
    }
}

/// The account sequence after broadcasts answered with `codes`, in order.
pub open spec fn sequence_after(start: nat, codes: Seq<u32>) -> nat
    decreases codes.len(),
{
    if codes.len() == 0 {
        start
    } else {
        next_sequence(sequence_after(start, codes.drop_last()), codes.last())
    }
}

/// Number of accepted broadcasts among `codes`.
pub open spec fn accepted_count(codes: Seq<u32>) -> nat
    decreases codes.len(),
{
    if codes.len() == 0 {
        0
    } else {
        accepted_count(codes.drop_last()) + if codes.last() == 0 {
            1nat
        } else {
            0nat
        }
    }
}

/// Over any run of broadcasts the account sequence never decreases: it ends
/// at its start plus the number of accepted transactions.
pub proof fn lemma_sequence_counts_accepted(start: nat, codes: Seq<u32>)
    ensures
        sequence_after(start, codes) == start + accepted_count(codes),
        sequence_after(start, codes) >= start,
    decreases codes.len(),
{
    if codes.len() > 0 {
        lemma_sequence_counts_accepted(start, codes.drop_last());
    }
}

/// The account sequence over a run of broadcasts: where it started, the
/// answers received so far, and where it stands.
pub struct SequenceTracker {
    start: u64,
    current: u64,
    codes: Vec<u32>,
}

impl SequenceTracker {
    pub closed spec fn start(&self) -> nat {
        self.start as nat
    }

    pub closed spec fn current(&self) -> nat {
        self.current as nat
    }

    pub closed spec fn codes(&self) -> Seq<u32> {
        self.codes@
    }

    /// The sequence stands where the answers so far have moved it.
    pub open spec fn wf(&self) -> bool {
        self.current() == sequence_after(self.start(), self.codes())
    }

    pub fn new(start: u64) -> (r: SequenceTracker)
        ensures
            r.wf(),
            r.start() == start,
            r.current() == start,
            r.codes().len() == 0,
    {
        SequenceTracker { start, current: start, codes: Vec::new() }
    }

    /// Where the sequence stands.
    pub fn sequence(&self) -> (r: u64)
        ensures
            r == self.current(),
    {
        self.current
    }

    /// Records the answer to the next broadcast. Refused, changing nothing,
    /// only when an accepted transaction would move the sequence past the
    /// largest value.
    pub fn record(&mut self, code: u32) -> (r: Result<(), ()>)
        requires
            old(self).wf(),
        ensures
            final(self).wf(),
            final(self).start() == old(self).start(),
            r is Ok <==> (code != 0 || old(self).current() < u64::MAX),
            r is Ok ==> final(self).codes() == old(self).codes().push(code),
            r is Err ==> final(self).codes() == old(self).codes() && final(self).current()
                == old(self).current(),
    {
        if code == 0 && self.current == u64::MAX {
            return Err(());
        }
        let ghost before = self.codes@;
        update_account_sequence(&mut self.current, code);
        self.codes.push(code);
        assert(self.codes@.drop_last() =~= before);
        Ok(())
    }
}

/// Over any run of broadcasts the tracked sequence never decreases: it is
/// its start plus the number of accepted transactions.
pub proof fn lemma_tracker_counts_accepted(tracker: &SequenceTracker)
    requires
        tracker.wf(),
    ensures
        tracker.current() == tracker.start() + accepted_count(tracker.codes()),
        tracker.current() >= tracker.start(),
{
    lemma_sequence_counts_accepted(tracker.start(), tracker.codes());
}

} // verus!
