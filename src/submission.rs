//! Block submissions in their four schema generations, and the decoding of
//! untagged SSZ bytes by trying the generations from the newest to the oldest.

use vstd::prelude::*;
use crate::media::Rejection;
use crate::ssz_wire::{
    SszError, container_split, variable_list_split, bytes_views, le_value, small_layout,
    split_container, split_variable_list, copy_range, u64_at, check_offsets_fit,
    fixed_part_size, frame_container, frame_variable_list, u64_bytes, push_all, push_part,
    total_len, first_variable, fixed_prefix, fixed_size, leading_offset,
};

verus! {

/// The schema generations of a submission, oldest first. Each adds fields
/// to the execution payload: Capella withdrawals, Deneb the two blob gas
/// counters, Electra the execution requests.
#[derive(Debug, Clone, Copy, PartialEq, Eq, Structural)]
pub enum Generation {
    Bellatrix,
    Capella,
    Deneb,
    Electra,
}

pub const MAX_EXTRA_DATA_BYTES: usize = 32;

pub const MAX_TRANSACTIONS: usize = 1048576;

pub const MAX_BYTES_PER_TRANSACTION: usize = 1073741824;

pub const MAX_WITHDRAWALS: usize = 16;

pub const BID_TRACE_BYTES: usize = 252;

pub const WITHDRAWAL_BYTES: usize = 44;

pub const SIGNATURE_BYTES: usize = 96;

/// The most bytes of framed transactions and execution requests that a
/// submission can be written with: beyond it, offsets could outgrow their
/// four bytes.
pub const MAX_FRAMED_PAYLOAD_BYTES: usize = 2147483648;

/// The trace of one candidate block, as its fixed-size SSZ fields: hashes,
/// keys, the address and the 256-bit value are held as their bytes.
#[derive(Debug, Clone, PartialEq)]
pub struct BidTraceV1 {
    pub slot: u64,
    pub parent_hash: Vec<u8>,
    pub block_hash: Vec<u8>,
    pub builder_pubkey: Vec<u8>,
    pub proposer_pubkey: Vec<u8>,
    pub proposer_fee_recipient: Vec<u8>,
    pub gas_limit: u64,
    pub gas_used: u64,
    pub value: Vec<u8>,
    pub block_number: u64,
    pub num_tx: u64,
}

#[derive(Debug, Clone, PartialEq)]
pub struct Withdrawal {
    pub index: u64,
    pub validator_index: u64,
    pub address: Vec<u8>,
    pub amount: u64,
}

/// An execution payload of any generation. `withdrawals` is empty before
/// Capella; the two blob gas counters are zero before Deneb;
/// `execution_requests`, the SSZ bytes of the execution-layer requests, is
/// empty before Electra.
#[derive(Debug, Clone, PartialEq)]
pub struct ExecutionPayload {
    pub parent_hash: Vec<u8>,
    pub fee_recipient: Vec<u8>,
    pub state_root: Vec<u8>,
    pub receipts_root: Vec<u8>,
    pub logs_bloom: Vec<u8>,
    pub prev_randao: Vec<u8>,
    pub block_number: u64,
    pub gas_limit: u64,
    pub gas_used: u64,
    pub timestamp: u64,
    pub extra_data: Vec<u8>,
    pub base_fee_per_gas: Vec<u8>,
    pub block_hash: Vec<u8>,
    pub transactions: Vec<Vec<u8>>,
    pub withdrawals: Vec<Withdrawal>,
    pub blob_gas_used: u64,
    pub excess_blob_gas: u64,
    pub execution_requests: Vec<u8>,
}

/// A block submission, tagged with the generation it was decoded as.
#[derive(Debug, Clone, PartialEq)]
pub struct SubmitBlockRequest {
    pub generation: Generation,
    pub message: BidTraceV1,
    pub execution_payload: ExecutionPayload,
    pub signature: Vec<u8>,
}

impl Generation {
    /// Position in time: the oldest generation is 0.
    pub open spec fn rank(self) -> nat {
        match self {
            Generation::Bellatrix => 0,
            Generation::Capella => 1,
            Generation::Deneb => 2,
            Generation::Electra => 3,
        }
    }

    pub open spec fn has_withdrawals(self) -> bool {
        self.rank() >= 1
    }

    pub open spec fn has_blob_gas(self) -> bool {
        self.rank() >= 2
    }

    pub open spec fn has_execution_requests(self) -> bool {
        self.rank() >= 3
    }
}

pub open spec fn fixed(n: usize) -> (bool, usize) {
    (true, n)
}

pub open spec fn variable() -> (bool, usize) {
    (false, 4)
}

/// The SSZ layout of a submission: trace, payload, signature.
pub open spec fn request_layout() -> Seq<(bool, usize)> {
    seq![fixed(BID_TRACE_BYTES), variable(), fixed(SIGNATURE_BYTES)]
}

/// The SSZ layout of the execution payload of generation `g`.
pub open spec fn payload_layout(g: Generation) -> Seq<(bool, usize)> {
    let base = seq![
        fixed(32), fixed(20), fixed(32), fixed(32), fixed(256), fixed(32), fixed(8), fixed(8),
        fixed(8), fixed(8), variable(), fixed(32), fixed(32), variable(),
    ];
    if g.has_execution_requests() {
        base.push(variable()).push(fixed(8)).push(fixed(8)).push(variable())
    } else if g.has_blob_gas() {
        base.push(variable()).push(fixed(8)).push(fixed(8))
    } else if g.has_withdrawals() {
        base.push(variable())
    } else {
        base
    }
}

pub open spec fn at(b: Seq<u8>, start: int, len: int) -> Seq<u8> {
    b.subrange(start, start + len)
}

/// `t` is the trace whose 252 SSZ bytes are `b`.
pub open spec fn bid_trace_from(t: BidTraceV1, b: Seq<u8>) -> bool {
    &&& t.slot as nat == le_value(at(b, 0, 8))
    &&& t.parent_hash@ == at(b, 8, 32)
    &&& t.block_hash@ == at(b, 40, 32)
    &&& t.builder_pubkey@ == at(b, 72, 48)
    &&& t.proposer_pubkey@ == at(b, 120, 48)
    &&& t.proposer_fee_recipient@ == at(b, 168, 20)
    &&& t.gas_limit as nat == le_value(at(b, 188, 8))
    &&& t.gas_used as nat == le_value(at(b, 196, 8))
    &&& t.value@ == at(b, 204, 32)
    &&& t.block_number as nat == le_value(at(b, 236, 8))
    &&& t.num_tx as nat == le_value(at(b, 244, 8))
}

/// `w` is the withdrawal whose 44 SSZ bytes start at `start` in `b`.
pub open spec fn withdrawal_from(w: Withdrawal, b: Seq<u8>, start: int) -> bool {
    &&& w.index as nat == le_value(at(b, start, 8))
    &&& w.validator_index as nat == le_value(at(b, start + 8, 8))
    &&& w.address@ == at(b, start + 16, 20)
    &&& w.amount as nat == le_value(at(b, start + 36, 8))
}

/// Why the bytes of a withdrawal list do not decode, if they do not.
pub open spec fn withdrawals_error(b: Seq<u8>) -> Option<SszError> {
    if (b.len() as int) / (WITHDRAWAL_BYTES as int) > MAX_WITHDRAWALS as int {
        Some(SszError::TooLong { max: MAX_WITHDRAWALS })
    } else if (b.len() as int) % (WITHDRAWAL_BYTES as int) != 0 {
        Some(SszError::UnevenList { len: b.len() as usize, item: WITHDRAWAL_BYTES })
    } else {
        None
    }
}

pub open spec fn withdrawals_from(ws: Seq<Withdrawal>, b: Seq<u8>) -> bool {
    &&& ws.len() * (WITHDRAWAL_BYTES as int) == b.len()
    &&& forall|i: int| 0 <= i < ws.len() ==> withdrawal_from(#[trigger] ws[i], b, i * 44)
}

pub open spec fn some_transaction_too_long(txs: Seq<Seq<u8>>) -> bool {
    exists|i: int| 0 <= i < txs.len() && #[trigger] txs[i].len() > MAX_BYTES_PER_TRANSACTION
}

/// Why the SSZ bytes of a payload do not decode as generation `g`, if they
/// do not: the first failing field, in field order.
pub open spec fn payload_error(g: Generation, b: Seq<u8>) -> Option<SszError> {
    match container_split(b, payload_layout(g)) {
        Err(e) => Some(e),
        Ok(fs) => if fs[10].len() > MAX_EXTRA_DATA_BYTES {
            Some(SszError::TooLong { max: MAX_EXTRA_DATA_BYTES })
        } else {
            match variable_list_split(fs[13], MAX_TRANSACTIONS) {
                Err(e) => Some(e),
                Ok(txs) => if some_transaction_too_long(txs) {
                    Some(SszError::TooLong { max: MAX_BYTES_PER_TRANSACTION })
                } else if g.has_withdrawals() {
                    withdrawals_error(fs[14])
                } else {
                    None
                },
            }
        },
    }
}

/// `p` is the payload of generation `g` whose SSZ bytes are `b`.
pub open spec fn payload_from(p: ExecutionPayload, g: Generation, b: Seq<u8>) -> bool {
    &&& container_split(b, payload_layout(g)) is Ok
    &&& {
        let fs = container_split(b, payload_layout(g))->Ok_0;
        &&& p.parent_hash@ == fs[0]
        &&& p.fee_recipient@ == fs[1]
        &&& p.state_root@ == fs[2]
        &&& p.receipts_root@ == fs[3]
        &&& p.logs_bloom@ == fs[4]
        &&& p.prev_randao@ == fs[5]
        &&& p.block_number as nat == le_value(fs[6])
        &&& p.gas_limit as nat == le_value(fs[7])
        &&& p.gas_used as nat == le_value(fs[8])
        &&& p.timestamp as nat == le_value(fs[9])
        &&& p.extra_data@ == fs[10]
        &&& p.base_fee_per_gas@ == fs[11]
        &&& p.block_hash@ == fs[12]
        &&& variable_list_split(fs[13], MAX_TRANSACTIONS) == Ok::<Seq<Seq<u8>>, SszError>(
            bytes_views(p.transactions@),
        )
        &&& if g.has_withdrawals() {
            withdrawals_from(p.withdrawals@, fs[14])
        } else {
            p.withdrawals@.len() == 0
        }
        &&& if g.has_blob_gas() {
            p.blob_gas_used as nat == le_value(fs[15]) && p.excess_blob_gas as nat == le_value(fs[16])
        } else {
            p.blob_gas_used == 0 && p.excess_blob_gas == 0
        }
        &&& if g.has_execution_requests() {
            p.execution_requests@ == fs[17]
        } else {
            p.execution_requests@.len() == 0
        }
    }
}

/// Why `b` does not decode as a submission of generation `g`, if it does not.
pub open spec fn request_error(g: Generation, b: Seq<u8>) -> Option<SszError> {
    match container_split(b, request_layout()) {
        Err(e) => Some(e),
        Ok(parts) => payload_error(g, parts[1]),
    }
}

/// `r` is the submission of generation `g` whose SSZ bytes are `b`.
pub open spec fn request_from(r: SubmitBlockRequest, g: Generation, b: Seq<u8>) -> bool {
    &&& container_split(b, request_layout()) is Ok
    &&& {
        let parts = container_split(b, request_layout())->Ok_0;
        &&& r.generation == g
        &&& bid_trace_from(r.message, parts[0])
        &&& payload_from(r.execution_payload, g, parts[1])
        &&& r.signature@ == parts[2]
    }
}

impl Generation {
    pub fn carries_withdrawals(&self) -> (r: bool)
        ensures
            r == self.has_withdrawals(),
    {
        !matches!(self, Generation::Bellatrix)
    }

    pub fn carries_blob_gas(&self) -> (r: bool)
        ensures
            r == self.has_blob_gas(),
    {
        matches!(self, Generation::Deneb | Generation::Electra)
    }

    pub fn carries_execution_requests(&self) -> (r: bool)
        ensures
            r == self.has_execution_requests(),
    {
        matches!(self, Generation::Electra)
    }
}

fn request_layout_vec() -> (r: Vec<(bool, usize)>)
    ensures
        r@ == request_layout(),
        small_layout(r@),
{
    let mut l: Vec<(bool, usize)> = Vec::new();
    l.push((true, BID_TRACE_BYTES));
    l.push((false, 4));
    l.push((true, SIGNATURE_BYTES));
    assert(l@ =~= request_layout());
    l
}

fn payload_layout_vec(g: Generation) -> (r: Vec<(bool, usize)>)
    ensures
        r@ == payload_layout(g),
        small_layout(r@),
{
    let mut l: Vec<(bool, usize)> = Vec::new();
    l.push((true, 32));
    l.push((true, 20));
    l.push((true, 32));
    l.push((true, 32));
    l.push((true, 256));
    l.push((true, 32));
    l.push((true, 8));
    l.push((true, 8));
    l.push((true, 8));
    l.push((true, 8));
    l.push((false, 4));
    l.push((true, 32));
    l.push((true, 32));
    l.push((false, 4));
    if g.carries_withdrawals() {
        l.push((false, 4));
    }
    if g.carries_blob_gas() {
        l.push((true, 8));
        l.push((true, 8));
    }
    if g.carries_execution_requests() {
        l.push((false, 4));
    }
    assert(l@ =~= payload_layout(g));
    l
}

/// Decodes the 252 fixed bytes of a trace.
pub fn decode_bid_trace(b: &[u8]) -> (r: BidTraceV1)
    requires
        b@.len() == BID_TRACE_BYTES,
    ensures
        bid_trace_from(r, b@),
{
    BidTraceV1 {
        slot: u64_at(b, 0),
        parent_hash: copy_range(b, 8, 32),
        block_hash: copy_range(b, 40, 32),
        builder_pubkey: copy_range(b, 72, 48),
        proposer_pubkey: copy_range(b, 120, 48),
        proposer_fee_recipient: copy_range(b, 168, 20),
        gas_limit: u64_at(b, 188),
        gas_used: u64_at(b, 196),
        value: copy_range(b, 204, 32),
        block_number: u64_at(b, 236),
        num_tx: u64_at(b, 244),
    }
}

/// Decodes a list of at most 16 withdrawals of 44 bytes each.
pub fn decode_withdrawals(b: &[u8]) -> (r: Result<Vec<Withdrawal>, SszError>)
    ensures
        match withdrawals_error(b@) {
            Some(e) => r == Err::<Vec<Withdrawal>, SszError>(e),
            None => r matches Ok(ws) && withdrawals_from(ws@, b@),
        },
{
    let len = b.len();
    let n = len / WITHDRAWAL_BYTES;
    if n > MAX_WITHDRAWALS {
        return Err(SszError::TooLong { max: MAX_WITHDRAWALS });
    }
    if len % WITHDRAWAL_BYTES != 0 {
        return Err(SszError::UnevenList { len, item: WITHDRAWAL_BYTES });
    }
    let mut ws: Vec<Withdrawal> = Vec::new();
    let mut i: usize = 0;
    while i < n
        invariant
            len == b@.len(),
            n * 44 == len,
            n <= MAX_WITHDRAWALS,
            i <= n,
            ws@.len() == i,
            forall|j: int| 0 <= j < i ==> withdrawal_from(#[trigger] ws@[j], b@, j * 44),
        decreases n - i,
    {
        let start = i * WITHDRAWAL_BYTES;
        let w = Withdrawal {
            index: u64_at(b, start),
            validator_index: u64_at(b, start + 8),
            address: copy_range(b, start + 16, 20),
            amount: u64_at(b, start + 36),
        };
        ws.push(w);
        i = i + 1;
    }
    Ok(ws)
}

/// Whether every transaction is within its byte bound.
fn transactions_within_bound(txs: &Vec<Vec<u8>>) -> (r: bool)
    ensures
        r == !some_transaction_too_long(bytes_views(txs@)),
{
    let mut i: usize = 0;
    while i < txs.len()
        invariant
            i <= txs@.len(),
            forall|j: int| 0 <= j < i ==> txs@[j]@.len() <= MAX_BYTES_PER_TRANSACTION,
        decreases txs@.len() - i,
    {
        if txs[i].len() > MAX_BYTES_PER_TRANSACTION {
            assert(bytes_views(txs@)[i as int].len() > MAX_BYTES_PER_TRANSACTION);
            return false;
        }
        i = i + 1;
    }
    assert forall|j: int| 0 <= j < bytes_views(txs@).len() implies #[trigger] bytes_views(txs@)[j].len()
        <= MAX_BYTES_PER_TRANSACTION by {
        assert(bytes_views(txs@)[j] == txs@[j]@);
    }
    true
}

proof fn lemma_whole(s: Seq<u8>)
    ensures
        s.subrange(0, s.len() as int) == s,
{
    assert(s.subrange(0, s.len() as int) =~= s);
}

/// Decodes the SSZ bytes of an execution payload as generation `g`.
pub fn decode_payload(g: Generation, b: &[u8]) -> (r: Result<ExecutionPayload, SszError>)
    ensures
        match payload_error(g, b@) {
            Some(e) => r == Err::<ExecutionPayload, SszError>(e),
            None => r matches Ok(p) && payload_from(p, g, b@),
        },
        r is Ok ==> leading_offset(b@, payload_layout(g), 10),
{
    let layout = payload_layout_vec(g);
    proof {
        lemma_payload_layout_sizes(g);
    }
    let fs = match split_container(b, layout.as_slice()) {
        Ok(fs) => fs,
        Err(e) => return Err(e),
    };
    let ghost fv = bytes_views(fs@);
    assert(fv[10] == fs@[10]@ && fv[13] == fs@[13]@);
    if fs[10].len() > MAX_EXTRA_DATA_BYTES {
        return Err(SszError::TooLong { max: MAX_EXTRA_DATA_BYTES });
    }
    let transactions = match split_variable_list(fs[13].as_slice(), MAX_TRANSACTIONS) {
        Ok(txs) => txs,
        Err(e) => return Err(e),
    };
    if !transactions_within_bound(&transactions) {
        return Err(SszError::TooLong { max: MAX_BYTES_PER_TRANSACTION });
    }
    let withdrawals = if g.carries_withdrawals() {
        assert(fv[14] == fs@[14]@);
        match decode_withdrawals(fs[14].as_slice()) {
            Ok(ws) => ws,
            Err(e) => return Err(e),
        }
    } else {
        Vec::new()
    };
    let mut blob_gas_used: u64 = 0;
    let mut excess_blob_gas: u64 = 0;
    if g.carries_blob_gas() {
        assert(layout@[15] == fixed(8) && layout@[16] == fixed(8));
        blob_gas_used = u64_at(fs[15].as_slice(), 0);
        excess_blob_gas = u64_at(fs[16].as_slice(), 0);
        proof {
            lemma_whole(fs@[15]@);
            lemma_whole(fs@[16]@);
            assert(fv[15] == fs@[15]@ && fv[16] == fs@[16]@);
        }
    }
    assert(layout@[6] == fixed(8) && layout@[7] == fixed(8) && layout@[8] == fixed(8) && layout@[9] == fixed(8));
    let execution_requests = if g.carries_execution_requests() {
        assert(fv[17] == fs@[17]@);
        fs[17].clone()
    } else {
        Vec::new()
    };
    let block_number = u64_at(fs[6].as_slice(), 0);
    let gas_limit = u64_at(fs[7].as_slice(), 0);
    let gas_used = u64_at(fs[8].as_slice(), 0);
    let timestamp = u64_at(fs[9].as_slice(), 0);
    proof {
        lemma_whole(fs@[6]@);
        lemma_whole(fs@[7]@);
        lemma_whole(fs@[8]@);
        lemma_whole(fs@[9]@);
        assert(forall|i: int| 0 <= i < fs@.len() ==> fv[i] == fs@[i]@);
    }
    let p = ExecutionPayload {
        parent_hash: fs[0].clone(),
        fee_recipient: fs[1].clone(),
        state_root: fs[2].clone(),
        receipts_root: fs[3].clone(),
        logs_bloom: fs[4].clone(),
        prev_randao: fs[5].clone(),
        block_number,
        gas_limit,
        gas_used,
        timestamp,
        extra_data: fs[10].clone(),
        base_fee_per_gas: fs[11].clone(),
        block_hash: fs[12].clone(),
        transactions,
        withdrawals,
        blob_gas_used,
        excess_blob_gas,
        execution_requests,
    };
    Ok(p)
}

/// Decodes SSZ bytes as a submission of generation `g`.
pub fn decode_as(g: Generation, b: &[u8]) -> (r: Result<SubmitBlockRequest, SszError>)
    ensures
        match request_error(g, b@) {
            Some(e) => r == Err::<SubmitBlockRequest, SszError>(e),
            None => r matches Ok(req) && request_from(req, g, b@),
        },
        r is Ok ==> accepts_leading(b@, g),
{
    let layout = request_layout_vec();
    proof {
        lemma_request_layout_sizes();
    }
    let parts = match split_container(b, layout.as_slice()) {
        Ok(parts) => parts,
        Err(e) => return Err(e),
    };
    let ghost pv = bytes_views(parts@);
    assert(pv[0] == parts@[0]@ && pv[1] == parts@[1]@ && pv[2] == parts@[2]@);
    let message = decode_bid_trace(parts[0].as_slice());
    let execution_payload = match decode_payload(g, parts[1].as_slice()) {
        Ok(p) => p,
        Err(e) => return Err(e),
    };
    Ok(SubmitBlockRequest { generation: g, message, execution_payload, signature: parts[2].clone() })
}

/// The generation that probing settles on: the newest under which `b`
/// decodes, trying Electra, Deneb, Capella and Bellatrix in turn.
pub open spec fn newest_accepting(b: Seq<u8>) -> Option<Generation> {
    if request_error(Generation::Electra, b) is None {
        Some(Generation::Electra)
    } else if request_error(Generation::Deneb, b) is None {
        Some(Generation::Deneb)
    } else if request_error(Generation::Capella, b) is None {
        Some(Generation::Capella)
    } else if request_error(Generation::Bellatrix, b) is None {
        Some(Generation::Bellatrix)
    } else {
        None
    }
}

impl SubmitBlockRequest {
    /// Decodes untagged SSZ bytes by trying each generation from the newest
    /// to the oldest and keeping the first that decodes. Where none does, the
    /// error is the one the oldest generation gave.
    pub fn from_ssz_bytes(bytes: &[u8]) -> (r: Result<SubmitBlockRequest, SszError>)
        ensures
            match newest_accepting(bytes@) {
                Some(g) => r matches Ok(req) && request_from(req, g, bytes@),
                None => r == Err::<SubmitBlockRequest, SszError>(
                    request_error(Generation::Bellatrix, bytes@)->Some_0,
                ),
            },
            r matches Ok(req) ==> accepts_leading(bytes@, req.generation),
    {
        if let Ok(req) = decode_as(Generation::Electra, bytes) {
            return Ok(req);
        }
        if let Ok(req) = decode_as(Generation::Deneb, bytes) {
            return Ok(req);
        }
        if let Ok(req) = decode_as(Generation::Capella, bytes) {
            return Ok(req);
        }
        decode_as(Generation::Bellatrix, bytes)
    }

    /// SSZ submissions have no fixed length.
    pub fn is_ssz_fixed_len() -> (r: bool)
        ensures
            !r,
    {
        false
    }
}

/// Probing settles on generation `g` exactly when the bytes decode under `g`
/// and under no newer generation: bytes that only an older generation accepts
/// resolve to it, and where several accept, the newest wins.
pub proof fn lemma_probe_settles_on(b: Seq<u8>, g: Generation)
    ensures
        newest_accepting(b) == Some(g) <==> (request_error(g, b) is None && forall|h: Generation|
            h.rank() > g.rank() ==> (#[trigger] request_error(h, b)) is Some),
{
    if request_error(g, b) is None && forall|h: Generation|
        h.rank() > g.rank() ==> (#[trigger] request_error(h, b)) is Some {
        assert(Generation::Electra.rank() == 3 && Generation::Deneb.rank() == 2);
        assert(Generation::Capella.rank() == 1);
        assert(g.rank() < 3 ==> request_error(Generation::Electra, b) is Some);
        assert(g.rank() < 2 ==> request_error(Generation::Deneb, b) is Some);
        assert(g.rank() < 1 ==> request_error(Generation::Capella, b) is Some);
    }
}

/// Where the bytes decode under no generation, probing settles on none, so
/// the error surfaced is the oldest generation's own.
pub proof fn lemma_probe_exhausted(b: Seq<u8>)
    ensures
        (forall|g: Generation| (#[trigger] request_error(g, b)) is Some) <==> newest_accepting(b) is None,
{
    if newest_accepting(b) is None {
        assert forall|g: Generation| (#[trigger] request_error(g, b)) is Some by {
            match g {
                Generation::Bellatrix => {},
                Generation::Capella => {},
                Generation::Deneb => {},
                Generation::Electra => {},
            }
        }
    }
    if forall|g: Generation| (#[trigger] request_error(g, b)) is Some {
        assert(request_error(Generation::Electra, b) is Some);
        assert(request_error(Generation::Deneb, b) is Some);
        assert(request_error(Generation::Capella, b) is Some);
        assert(request_error(Generation::Bellatrix, b) is Some);
    }
}

/// Decodes an SSZ request body; a body that no generation accepts is a bad
/// request.
pub fn decode_ssz_body(bytes: &[u8]) -> (r: Result<SubmitBlockRequest, Rejection>)
    ensures
        match newest_accepting(bytes@) {
            Some(g) => r matches Ok(req) && request_from(req, g, bytes@),
            None => r == Err::<SubmitBlockRequest, Rejection>(Rejection::BadRequest),
        },
        bytes@.len() < BID_TRACE_BYTES + 4 ==> r is Err,
{
    match SubmitBlockRequest::from_ssz_bytes(bytes) {
        Ok(req) => Ok(req),
        Err(_) => Err(Rejection::BadRequest),
    }
}

impl BidTraceV1 {
    /// Every fixed-size field has its size.
    pub open spec fn well_formed(&self) -> bool {
        &&& self.parent_hash@.len() == 32
        &&& self.block_hash@.len() == 32
        &&& self.builder_pubkey@.len() == 48
        &&& self.proposer_pubkey@.len() == 48
        &&& self.proposer_fee_recipient@.len() == 20
        &&& self.value@.len() == 32
    }
}

impl ExecutionPayload {
    /// Fixed-size fields have their size, lists keep their bounds, and fields
    /// that generation `g` lacks are empty or zero.
    pub open spec fn well_formed(&self, g: Generation) -> bool {
        &&& self.parent_hash@.len() == 32
        &&& self.fee_recipient@.len() == 20
        &&& self.state_root@.len() == 32
        &&& self.receipts_root@.len() == 32
        &&& self.logs_bloom@.len() == 256
        &&& self.prev_randao@.len() == 32
        &&& self.extra_data@.len() <= MAX_EXTRA_DATA_BYTES
        &&& self.base_fee_per_gas@.len() == 32
        &&& self.block_hash@.len() == 32
        &&& self.transactions@.len() <= MAX_TRANSACTIONS
        &&& forall|i: int| 0 <= i < self.transactions@.len()
            ==> (#[trigger] self.transactions@[i])@.len() <= MAX_BYTES_PER_TRANSACTION
        &&& self.withdrawals@.len() <= MAX_WITHDRAWALS
        &&& forall|i: int| 0 <= i < self.withdrawals@.len() ==> (#[trigger] self.withdrawals@[i]).address@.len() == 20
        &&& !g.has_withdrawals() ==> self.withdrawals@.len() == 0
        &&& !g.has_blob_gas() ==> self.blob_gas_used == 0 && self.excess_blob_gas == 0
        &&& !g.has_execution_requests() ==> self.execution_requests@.len() == 0
    }
}

impl SubmitBlockRequest {
    pub open spec fn well_formed(&self) -> bool {
        &&& self.message.well_formed()
        &&& self.execution_payload.well_formed(self.generation)
        &&& self.signature@.len() == SIGNATURE_BYTES
    }
}

proof fn lemma_concat_left(a: Seq<u8>, b: Seq<u8>, start: int, len: int)
    requires
        0 <= start,
        0 <= len,
        start + len <= a.len(),
    ensures
        at(a + b, start, len) == at(a, start, len),
{
    assert(at(a + b, start, len) =~= at(a, start, len));
}

proof fn lemma_concat_right(a: Seq<u8>, b: Seq<u8>, start: int, len: int)
    requires
        0 <= start,
        0 <= len,
        start + len <= b.len(),
    ensures
        at(a + b, a.len() + start, len) == at(b, start, len),
{
    assert(at(a + b, a.len() + start, len) =~= at(b, start, len));
}

/// The 252 SSZ bytes of a trace.
pub fn encode_bid_trace(t: &BidTraceV1) -> (r: Vec<u8>)
    requires
        t.well_formed(),
    ensures
        r@.len() == BID_TRACE_BYTES,
        bid_trace_from(*t, r@),
{
    let slot = u64_bytes(t.slot);
    let gas_limit = u64_bytes(t.gas_limit);
    let gas_used = u64_bytes(t.gas_used);
    let block_number = u64_bytes(t.block_number);
    let num_tx = u64_bytes(t.num_tx);
    let mut out: Vec<u8> = Vec::new();
    push_all(&mut out, slot.as_slice());
    push_all(&mut out, t.parent_hash.as_slice());
    push_all(&mut out, t.block_hash.as_slice());
    push_all(&mut out, t.builder_pubkey.as_slice());
    push_all(&mut out, t.proposer_pubkey.as_slice());
    push_all(&mut out, t.proposer_fee_recipient.as_slice());
    push_all(&mut out, gas_limit.as_slice());
    push_all(&mut out, gas_used.as_slice());
    push_all(&mut out, t.value.as_slice());
    push_all(&mut out, block_number.as_slice());
    push_all(&mut out, num_tx.as_slice());
    assert(at(out@, 0, 8) =~= slot@);
    assert(at(out@, 8, 32) =~= t.parent_hash@);
    assert(at(out@, 40, 32) =~= t.block_hash@);
    assert(at(out@, 72, 48) =~= t.builder_pubkey@);
    assert(at(out@, 120, 48) =~= t.proposer_pubkey@);
    assert(at(out@, 168, 20) =~= t.proposer_fee_recipient@);
    assert(at(out@, 188, 8) =~= gas_limit@);
    assert(at(out@, 196, 8) =~= gas_used@);
    assert(at(out@, 204, 32) =~= t.value@);
    assert(at(out@, 236, 8) =~= block_number@);
    assert(at(out@, 244, 8) =~= num_tx@);
    out
}

/// The 44 SSZ bytes of a withdrawal.
fn encode_withdrawal(w: &Withdrawal) -> (r: Vec<u8>)
    requires
        w.address@.len() == 20,
    ensures
        r@.len() == WITHDRAWAL_BYTES,
        withdrawal_from(*w, r@, 0),
{
    let index = u64_bytes(w.index);
    let validator_index = u64_bytes(w.validator_index);
    let amount = u64_bytes(w.amount);
    let mut out: Vec<u8> = Vec::new();
    push_all(&mut out, index.as_slice());
    push_all(&mut out, validator_index.as_slice());
    push_all(&mut out, w.address.as_slice());
    push_all(&mut out, amount.as_slice());
    assert(at(out@, 0, 8) =~= index@);
    assert(at(out@, 8, 8) =~= validator_index@);
    assert(at(out@, 16, 20) =~= w.address@);
    assert(at(out@, 36, 8) =~= amount@);
    out
}

/// The SSZ bytes of a list of withdrawals, one after another.
pub fn encode_withdrawals(ws: &Vec<Withdrawal>) -> (r: Vec<u8>)
    requires
        forall|i: int| 0 <= i < ws@.len() ==> (#[trigger] ws@[i]).address@.len() == 20,
    ensures
        withdrawals_from(ws@, r@),
{
    let mut out: Vec<u8> = Vec::new();
    let mut i: usize = 0;
    while i < ws.len()
        invariant
            i <= ws@.len(),
            forall|j: int| 0 <= j < ws@.len() ==> (#[trigger] ws@[j]).address@.len() == 20,
            out@.len() == i * 44,
            forall|j: int| 0 <= j < i ==> withdrawal_from(#[trigger] ws@[j], out@, j * 44),
        decreases ws@.len() - i,
    {
        let w = encode_withdrawal(&ws[i]);
        let ghost before = out@;
        push_all(&mut out, w.as_slice());
        proof {
            assert forall|j: int| 0 <= j < i + 1 implies withdrawal_from(#[trigger] ws@[j], out@, j * 44) by {
                if j < i {
                    assert(withdrawal_from(ws@[j], before, j * 44));
                    lemma_concat_left(before, w@, j * 44, 8);
                    lemma_concat_left(before, w@, j * 44 + 8, 8);
                    lemma_concat_left(before, w@, j * 44 + 16, 20);
                    lemma_concat_left(before, w@, j * 44 + 36, 8);
                } else {
                    lemma_concat_right(before, w@, 0, 8);
                    lemma_concat_right(before, w@, 8, 8);
                    lemma_concat_right(before, w@, 16, 20);
                    lemma_concat_right(before, w@, 36, 8);
                }
            }
        }
        i = i + 1;
    }
    out
}

/// Framed, the transactions and the execution requests fit within their
/// bound.
pub open spec fn payload_fits(p: ExecutionPayload) -> bool {
    total_len(bytes_views(p.transactions@)) + 4 * p.transactions@.len() + p.execution_requests@.len()
        <= MAX_FRAMED_PAYLOAD_BYTES
}

/// The SSZ bytes of a payload of generation `g`; `None` only where its
/// transactions and execution requests are too large to frame.
pub fn encode_payload(p: &ExecutionPayload, g: Generation) -> (r: Option<Vec<u8>>)
    requires
        p.well_formed(g),
    ensures
        r matches Some(b) ==> payload_error(g, b@) is None && payload_from(*p, g, b@),
        r matches Some(b) ==> b@.len() <= total_len(bytes_views(p.transactions@)) + 4 * p.transactions@.len()
            + p.execution_requests@.len() + 1500,
        payload_fits(*p) ==> r is Some,
        r matches Some(b) ==> leading_offset(b@, payload_layout(g), 10),
{
    if !check_offsets_fit(&p.transactions) {
        return None;
    }
    let transactions = frame_variable_list(&p.transactions);
    let ghost framed_len = transactions@.len();
    let mut parts: Vec<Vec<u8>> = Vec::new();
    proof {
        assert(bytes_views(parts@) =~= Seq::<Seq<u8>>::empty());
    }
    push_part(&mut parts, p.parent_hash.clone());
    push_part(&mut parts, p.fee_recipient.clone());
    push_part(&mut parts, p.state_root.clone());
    push_part(&mut parts, p.receipts_root.clone());
    push_part(&mut parts, p.logs_bloom.clone());
    push_part(&mut parts, p.prev_randao.clone());
    push_part(&mut parts, u64_bytes(p.block_number));
    push_part(&mut parts, u64_bytes(p.gas_limit));
    push_part(&mut parts, u64_bytes(p.gas_used));
    push_part(&mut parts, u64_bytes(p.timestamp));
    push_part(&mut parts, p.extra_data.clone());
    push_part(&mut parts, p.base_fee_per_gas.clone());
    push_part(&mut parts, p.block_hash.clone());
    push_part(&mut parts, transactions);
    assert(total_len(bytes_views(parts@)) <= 600 + 32 + framed_len);
    let ghost withdrawal_bytes: Seq<u8> = Seq::empty();
    if g.carries_withdrawals() {
        let w = encode_withdrawals(&p.withdrawals);
        proof {
            withdrawal_bytes = w@;
            assert(w@.len() == p.withdrawals@.len() * 44);
        }
        push_part(&mut parts, w);
    }
    if g.carries_blob_gas() {
        push_part(&mut parts, u64_bytes(p.blob_gas_used));
        push_part(&mut parts, u64_bytes(p.excess_blob_gas));
    }
    if g.carries_execution_requests() {
        push_part(&mut parts, p.execution_requests.clone());
    }
    assert(total_len(bytes_views(parts@)) <= 600 + 32 + 704 + 16 + framed_len + p.execution_requests@.len());
    let layout = payload_layout_vec(g);
    proof {
        lemma_payload_layout_sizes(g);
    }
    let ghost pv = bytes_views(parts@);
    assert(pv.len() == layout@.len());
    assert forall|i: int| 0 <= i < layout@.len() && (#[trigger] layout@[i]).0 implies pv[i].len() == layout@[i].1 by {
        assert(pv[i] == parts@[i]@);
    }
    if !check_offsets_fit(&parts) {
        return None;
    }
    let fixed = fixed_part_size(layout.as_slice());
    let b = frame_container(&parts, layout.as_slice(), fixed);
    proof {
        let fs = container_split(b@, layout@)->Ok_0;
        assert(fs == pv);
        assert forall|i: int| 0 <= i < parts@.len() implies fs[i] == (#[trigger] parts@[i])@ by {}
        assert(variable_list_split(fs[13], MAX_TRANSACTIONS) is Ok);
        let txs = bytes_views(p.transactions@);
        assert(!some_transaction_too_long(txs)) by {
            assert forall|i: int| 0 <= i < txs.len() implies (#[trigger] txs[i]).len() <= MAX_BYTES_PER_TRANSACTION by {
                assert(txs[i] == p.transactions@[i]@);
            }
        }
        if g.has_withdrawals() {
            let n = p.withdrawals@.len() as int;
            assert(fs[14] == withdrawal_bytes);
            assert(withdrawal_bytes.len() == n * 44);
            assert((n * 44) / 44 == n) by (nonlinear_arith);
            assert((n * 44) % 44 == 0) by (nonlinear_arith);
        }
    }
    Some(b)
}

impl SubmitBlockRequest {
    /// The SSZ bytes of the submission in its own generation's layout; `None`
    /// only where its transactions and execution requests are too large to
    /// frame.
    pub fn to_ssz_bytes(&self) -> (r: Option<Vec<u8>>)
        requires
            self.well_formed(),
        ensures
            payload_fits(self.execution_payload) ==> r is Some,
            r matches Some(b) ==> accepts_leading(b@, self.generation) && newest_accepting(b@) is Some,
            r matches Some(b) ==> request_error(self.generation, b@) is None && request_from(
                *self,
                self.generation,
                b@,
            ),
    {
        let payload = match encode_payload(&self.execution_payload, self.generation) {
            Some(b) => b,
            None => return None,
        };
        let mut parts: Vec<Vec<u8>> = Vec::new();
        proof {
            assert(bytes_views(parts@) =~= Seq::<Seq<u8>>::empty());
        }
        push_part(&mut parts, encode_bid_trace(&self.message));
        push_part(&mut parts, payload);
        push_part(&mut parts, self.signature.clone());
        let layout = request_layout_vec();
        proof {
            lemma_request_layout_sizes();
        }
        let ghost pv = bytes_views(parts@);
        assert(pv[0] == parts@[0]@ && pv[1] == parts@[1]@ && pv[2] == parts@[2]@);
        if !check_offsets_fit(&parts) {
            return None;
        }
        let fixed = fixed_part_size(layout.as_slice());
        let b = frame_container(&parts, layout.as_slice(), fixed);
        Some(b)
    }
}

pub open spec fn same_trace(m: BidTraceV1, n: BidTraceV1) -> bool {
    &&& m.slot == n.slot && m.parent_hash@ == n.parent_hash@ && m.block_hash@ == n.block_hash@
    &&& m.builder_pubkey@ == n.builder_pubkey@ && m.proposer_pubkey@ == n.proposer_pubkey@
    &&& m.proposer_fee_recipient@ == n.proposer_fee_recipient@ && m.gas_limit == n.gas_limit
    &&& m.gas_used == n.gas_used && m.value@ == n.value@ && m.block_number == n.block_number
    &&& m.num_tx == n.num_tx
}

pub open spec fn same_withdrawal(v: Withdrawal, w: Withdrawal) -> bool {
    v.index == w.index && v.validator_index == w.validator_index && v.address@ == w.address@
        && v.amount == w.amount
}

pub open spec fn same_payload(p: ExecutionPayload, q: ExecutionPayload) -> bool {
    &&& p.parent_hash@ == q.parent_hash@ && p.fee_recipient@ == q.fee_recipient@
    &&& p.state_root@ == q.state_root@ && p.receipts_root@ == q.receipts_root@
    &&& p.logs_bloom@ == q.logs_bloom@ && p.prev_randao@ == q.prev_randao@
    &&& p.block_number == q.block_number && p.gas_limit == q.gas_limit
    &&& p.gas_used == q.gas_used && p.timestamp == q.timestamp
    &&& p.extra_data@ == q.extra_data@ && p.base_fee_per_gas@ == q.base_fee_per_gas@
    &&& p.block_hash@ == q.block_hash@
    &&& bytes_views(p.transactions@) == bytes_views(q.transactions@)
    &&& p.withdrawals@.len() == q.withdrawals@.len()
    &&& forall|i: int| 0 <= i < p.withdrawals@.len() ==> same_withdrawal(#[trigger] p.withdrawals@[i], q.withdrawals@[i])
    &&& p.blob_gas_used == q.blob_gas_used && p.excess_blob_gas == q.excess_blob_gas
    &&& p.execution_requests@ == q.execution_requests@
}

/// Two submissions hold the same values, field for field.
pub open spec fn same_request(a: SubmitBlockRequest, b: SubmitBlockRequest) -> bool {
    &&& a.generation == b.generation
    &&& same_trace(a.message, b.message)
    &&& same_payload(a.execution_payload, b.execution_payload)
    &&& a.signature@ == b.signature@
}

/// The size of the fixed part of generation `g`'s payload, which tells the
/// generations apart.
pub open spec fn payload_fixed_bytes(g: Generation) -> nat {
    match g {
        Generation::Bellatrix => 508,
        Generation::Capella => 512,
        Generation::Deneb => 528,
        Generation::Electra => 532,
    }
}

/// Every payload layout's first variable field is `extra_data`, field 10,
/// whose offset stands at byte 436; the fixed parts differ in size.
pub proof fn lemma_payload_layout_sizes(g: Generation)
    ensures
        first_variable(payload_layout(g), 10),
        fixed_prefix(payload_layout(g), 10) == 436,
        fixed_size(payload_layout(g)) == payload_fixed_bytes(g),
{
    reveal_with_fuel(fixed_prefix, 19);
    let l = payload_layout(g);
    assert(forall|j: int| 0 <= j < 10 ==> (#[trigger] l[j]).0);
}

/// The submission layout's first variable field is the payload, field 1,
/// whose offset stands at byte 252.
pub proof fn lemma_request_layout_sizes()
    ensures
        first_variable(request_layout(), 1),
        fixed_prefix(request_layout(), 1) == BID_TRACE_BYTES,
{
    reveal_with_fuel(fixed_prefix, 2);
}

/// `b` splits as a submission whose own first offset, and its payload's, are
/// the sizes of their fixed parts, the payload's being generation `g`'s.
pub open spec fn accepts_leading(b: Seq<u8>, g: Generation) -> bool {
    &&& container_split(b, request_layout()) is Ok
    &&& leading_offset(b, request_layout(), 1)
    &&& leading_offset(container_split(b, request_layout())->Ok_0[1], payload_layout(g), 10)
}

proof fn lemma_trace_determined(m: BidTraceV1, n: BidTraceV1, b: Seq<u8>)
    requires
        bid_trace_from(m, b),
        bid_trace_from(n, b),
    ensures
        same_trace(m, n),
{
}

proof fn lemma_payload_determined(p: ExecutionPayload, q: ExecutionPayload, g: Generation, b: Seq<u8>)
    requires
        payload_from(p, g, b),
        payload_from(q, g, b),
    ensures
        same_payload(p, q),
{
    let fs = container_split(b, payload_layout(g))->Ok_0;
    assert(p.block_number == q.block_number && p.gas_limit == q.gas_limit);
    assert(p.gas_used == q.gas_used && p.timestamp == q.timestamp);
    assert(bytes_views(p.transactions@) == bytes_views(q.transactions@));
    assert(p.withdrawals@.len() == q.withdrawals@.len());
    assert(p.blob_gas_used == q.blob_gas_used && p.excess_blob_gas == q.excess_blob_gas);
    assert(p.execution_requests@ == q.execution_requests@);
    if g.has_withdrawals() {
        assert forall|i: int| 0 <= i < p.withdrawals@.len() implies same_withdrawal(
            #[trigger] p.withdrawals@[i],
            q.withdrawals@[i],
        ) by {
            assert(withdrawal_from(p.withdrawals@[i], fs[14], i * 44));
            assert(withdrawal_from(q.withdrawals@[i], fs[14], i * 44));
        }
    }
}

/// SSZ round trip: the bytes that `to_ssz_bytes` writes for a submission and
/// the submission that `from_ssz_bytes` reads back from them are of the same
/// generation and hold the same values. The payload's first offset, the size
/// of its fixed part, tells the generations apart.
pub proof fn lemma_ssz_round_trip(req: SubmitBlockRequest, b: Seq<u8>, back: SubmitBlockRequest)
    requires
        request_from(req, req.generation, b),
        accepts_leading(b, req.generation),
        request_from(back, back.generation, b),
        accepts_leading(b, back.generation),
    ensures
        back.generation == req.generation,
        same_request(req, back),
{
    let (g, h) = (req.generation, back.generation);
    lemma_payload_layout_sizes(g);
    lemma_payload_layout_sizes(h);
    assert(payload_fixed_bytes(g) == payload_fixed_bytes(h));
    let parts = container_split(b, request_layout())->Ok_0;
    lemma_trace_determined(req.message, back.message, parts[0]);
    lemma_payload_determined(req.execution_payload, back.execution_payload, g, parts[1]);
}

impl BidTraceV1 {
    pub fn is_well_formed(&self) -> (r: bool)
        ensures
            r == self.well_formed(),
    {
        self.parent_hash.len() == 32 && self.block_hash.len() == 32 && self.builder_pubkey.len() == 48
            && self.proposer_pubkey.len() == 48 && self.proposer_fee_recipient.len() == 20
            && self.value.len() == 32
    }
}

impl ExecutionPayload {
    pub fn is_well_formed(&self, g: Generation) -> (r: bool)
        ensures
            r == self.well_formed(g),
    {
        if !(self.parent_hash.len() == 32 && self.fee_recipient.len() == 20 && self.state_root.len() == 32
            && self.receipts_root.len() == 32 && self.logs_bloom.len() == 256 && self.prev_randao.len() == 32
            && self.extra_data.len() <= MAX_EXTRA_DATA_BYTES && self.base_fee_per_gas.len() == 32
            && self.block_hash.len() == 32 && self.transactions.len() <= MAX_TRANSACTIONS
            && self.withdrawals.len() <= MAX_WITHDRAWALS) {
            return false;
        }
        if !g.carries_withdrawals() && self.withdrawals.len() != 0 {
            return false;
        }
        if !g.carries_blob_gas() && (self.blob_gas_used != 0 || self.excess_blob_gas != 0) {
            return false;
        }
        if !g.carries_execution_requests() && self.execution_requests.len() != 0 {
            return false;
        }
        let mut i: usize = 0;
        while i < self.transactions.len()
            invariant
                i <= self.transactions@.len(),
                forall|j: int| 0 <= j < i ==> (#[trigger] self.transactions@[j])@.len() <= MAX_BYTES_PER_TRANSACTION,
            decreases self.transactions@.len() - i,
        {
            if self.transactions[i].len() > MAX_BYTES_PER_TRANSACTION {
                return false;
            }
            i = i + 1;
        }
        let mut k: usize = 0;
        while k < self.withdrawals.len()
            invariant
                k <= self.withdrawals@.len(),
                forall|j: int| 0 <= j < k ==> (#[trigger] self.withdrawals@[j]).address@.len() == 20,
            decreases self.withdrawals@.len() - k,
        {
            if self.withdrawals[k].address.len() != 20 {
                return false;
            }
            k = k + 1;
        }
        true
    }
}

impl SubmitBlockRequest {
    /// Whether every field has its size and every list keeps its bound, so
    /// that the submission can be written as SSZ.
    pub fn is_well_formed(&self) -> (r: bool)
        ensures
            r == self.well_formed(),
    {
        self.message.is_well_formed() && self.execution_payload.is_well_formed(self.generation)
            && self.signature.len() == SIGNATURE_BYTES
    }
}

} // verus!
