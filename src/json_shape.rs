//! Which schema generation a JSON submission's field set selects. A JSON
//! submission carries no generation tag: each generation is tried in turn,
//! oldest first, and one matches when the submission holds exactly its
//! fields, none missing and none extra.

use vstd::prelude::*;
use vstd::string::StrSliceExecFns;
use crate::submission::Generation;

verus! {

pub open spec fn str_views(v: Seq<&'static str>) -> Seq<Seq<char>> {
    v.map_values(|s: &'static str| s@)
}

pub open spec fn string_views(v: Seq<String>) -> Seq<Seq<char>> {
    v.map_values(|s: String| s@)
}

/// The keys are exactly the names: each key is a name and each name a key.
pub open spec fn same_fields(keys: Seq<Seq<char>>, names: Seq<Seq<char>>) -> bool {
    &&& forall|i: int| 0 <= i < keys.len() ==> names.contains(#[trigger] keys[i])
    &&& forall|j: int| 0 <= j < names.len() ==> keys.contains(#[trigger] names[j])
}

/// The top-level fields of a submission, in every generation.
pub open spec fn request_fields() -> Seq<Seq<char>> {
    seq!["message"@, "execution_payload"@, "signature"@]
}

/// The fields of the execution payload of generation `g`.
pub open spec fn payload_fields(g: Generation) -> Seq<Seq<char>> {
    let base = seq![
        "parent_hash"@, "fee_recipient"@, "state_root"@, "receipts_root"@, "logs_bloom"@,
        "prev_randao"@, "block_number"@, "gas_limit"@, "gas_used"@, "timestamp"@,
        "extra_data"@, "base_fee_per_gas"@, "block_hash"@, "transactions"@,
    ];
    if g.has_execution_requests() {
        base.push("withdrawals"@).push("blob_gas_used"@).push("excess_blob_gas"@).push("execution_requests"@)
    } else if g.has_blob_gas() {
        base.push("withdrawals"@).push("blob_gas_used"@).push("excess_blob_gas"@)
    } else if g.has_withdrawals() {
        base.push("withdrawals"@)
    } else {
        base
    }
}

pub open spec fn shape_matches(g: Generation, top: Seq<Seq<char>>, payload: Seq<Seq<char>>) -> bool {
    same_fields(top, request_fields()) && same_fields(payload, payload_fields(g))
}

/// The first generation, oldest first, whose fields are exactly those given.
pub open spec fn json_generation_of(top: Seq<Seq<char>>, payload: Seq<Seq<char>>) -> Option<Generation> {
    if shape_matches(Generation::Bellatrix, top, payload) {
        Some(Generation::Bellatrix)
    } else if shape_matches(Generation::Capella, top, payload) {
        Some(Generation::Capella)
    } else if shape_matches(Generation::Deneb, top, payload) {
        Some(Generation::Deneb)
    } else if shape_matches(Generation::Electra, top, payload) {
        Some(Generation::Electra)
    } else {
        None
    }
}

/// Whether two strings hold the same characters.
pub fn same_text(a: &str, b: &str) -> (r: bool)
    ensures
        r == (a@ == b@),
{
    let n = a.unicode_len();
    if n != b.unicode_len() {
        return false;
    }
    let mut i: usize = 0;
    while i < n
        invariant
            n == a@.len(),
            n == b@.len(),
            i <= n,
            forall|j: int| 0 <= j < i ==> a@[j] == b@[j],
        decreases n - i,
    {
        if a.get_char(i) != b.get_char(i) {
            return false;
        }
        i = i + 1;
    }
    assert(a@ =~= b@);
    true
}

/// Whether `s` is one of `names`.
fn contains_text(names: &Vec<&'static str>, s: &str) -> (r: bool)
    ensures
        r == str_views(names@).contains(s@),
{
    let mut i: usize = 0;
    while i < names.len()
        invariant
            i <= names@.len(),
            forall|j: int| 0 <= j < i ==> names@[j]@ != s@,
        decreases names@.len() - i,
    {
        if same_text(names[i], s) {
            assert(str_views(names@)[i as int] == s@);
            return true;
        }
        i = i + 1;
    }
    assert forall|j: int| 0 <= j < str_views(names@).len() implies str_views(names@)[j] != s@ by {
        assert(str_views(names@)[j] == names@[j]@);
    }
    false
}

/// Whether `s` is one of `keys`.
fn contains_key(keys: &Vec<String>, s: &str) -> (r: bool)
    ensures
        r == string_views(keys@).contains(s@),
{
    let mut i: usize = 0;
    while i < keys.len()
        invariant
            i <= keys@.len(),
            forall|j: int| 0 <= j < i ==> keys@[j]@ != s@,
        decreases keys@.len() - i,
    {
        if same_text(keys[i].as_str(), s) {
            assert(string_views(keys@)[i as int] == s@);
            return true;
        }
        i = i + 1;
    }
    assert forall|j: int| 0 <= j < string_views(keys@).len() implies string_views(keys@)[j] != s@ by {
        assert(string_views(keys@)[j] == keys@[j]@);
    }
    false
}

/// Whether the keys are exactly the names.
pub fn has_exactly(keys: &Vec<String>, names: &Vec<&'static str>) -> (r: bool)
    ensures
        r == same_fields(string_views(keys@), str_views(names@)),
{
    let ghost kv = string_views(keys@);
    let ghost nv = str_views(names@);
    let mut i: usize = 0;
    while i < keys.len()
        invariant
            i <= keys@.len(),
            kv == string_views(keys@),
            nv == str_views(names@),
            forall|j: int| 0 <= j < i ==> nv.contains(#[trigger] kv[j]),
        decreases keys@.len() - i,
    {
        if !contains_text(names, keys[i].as_str()) {
            assert(!nv.contains(kv[i as int]));
            return false;
        }
        i = i + 1;
    }
    let mut j: usize = 0;
    while j < names.len()
        invariant
            j <= names@.len(),
            kv == string_views(keys@),
            nv == str_views(names@),
            forall|x: int| 0 <= x < kv.len() ==> nv.contains(#[trigger] kv[x]),
            forall|x: int| 0 <= x < j ==> kv.contains(#[trigger] nv[x]),
        decreases names@.len() - j,
    {
        if !contains_key(keys, names[j]) {
            assert(!kv.contains(nv[j as int]));
            return false;
        }
        j = j + 1;
    }
    true
}

fn request_field_names() -> (r: Vec<&'static str>)
    ensures
        str_views(r@) == request_fields(),
{
    let mut v: Vec<&'static str> = Vec::new();
    v.push("message");
    v.push("execution_payload");
    v.push("signature");
    assert(str_views(v@) =~= request_fields());
    v
}

fn payload_field_names(g: Generation) -> (r: Vec<&'static str>)
    ensures
        str_views(r@) == payload_fields(g),
{
    let mut v: Vec<&'static str> = Vec::new();
    v.push("parent_hash");
    v.push("fee_recipient");
    v.push("state_root");
    v.push("receipts_root");
    v.push("logs_bloom");
    v.push("prev_randao");
    v.push("block_number");
    v.push("gas_limit");
    v.push("gas_used");
    v.push("timestamp");
    v.push("extra_data");
    v.push("base_fee_per_gas");
    v.push("block_hash");
    v.push("transactions");
    if g.carries_withdrawals() {
        v.push("withdrawals");
    }
    if g.carries_blob_gas() {
        v.push("blob_gas_used");
        v.push("excess_blob_gas");
    }
    if g.carries_execution_requests() {
        v.push("execution_requests");
    }
    assert(str_views(v@) =~= payload_fields(g));
    v
}

fn matches_shape(g: Generation, top: &Vec<String>, payload: &Vec<String>) -> (r: bool)
    ensures
        r == shape_matches(g, string_views(top@), string_views(payload@)),
{
    has_exactly(top, &request_field_names()) && has_exactly(payload, &payload_field_names(g))
}

/// Picks the generation of a JSON submission from its top-level keys and the
/// keys of its execution payload: the first generation, oldest first, whose
/// fields are exactly these. A field set that mixes generations, or lacks a
/// field, selects none.
pub fn json_generation(top: &Vec<String>, payload: &Vec<String>) -> (r: Option<Generation>)
    ensures
        r == json_generation_of(string_views(top@), string_views(payload@)),
{
    if matches_shape(Generation::Bellatrix, top, payload) {
        Some(Generation::Bellatrix)
    } else if matches_shape(Generation::Capella, top, payload) {
        Some(Generation::Capella)
    } else if matches_shape(Generation::Deneb, top, payload) {
        Some(Generation::Deneb)
    } else if matches_shape(Generation::Electra, top, payload) {
        Some(Generation::Electra)
    } else {
        None
    }
}

/// A submission matches a generation only with exactly that generation's
/// fields; so a payload that carries a Deneb field without the Capella field
/// that every later generation also has mixes generations and matches none.
pub proof fn lemma_mixed_generations_rejected(top: Seq<Seq<char>>, payload: Seq<Seq<char>>)
    requires
        payload.contains("blob_gas_used"@),
        !payload.contains("withdrawals"@),
    ensures
        json_generation_of(top, payload) is None,
{
    reveal_strlit("blob_gas_used");
    reveal_strlit("parent_hash");
    reveal_strlit("fee_recipient");
    reveal_strlit("state_root");
    reveal_strlit("receipts_root");
    reveal_strlit("logs_bloom");
    reveal_strlit("prev_randao");
    reveal_strlit("block_number");
    reveal_strlit("gas_limit");
    reveal_strlit("gas_used");
    reveal_strlit("timestamp");
    reveal_strlit("extra_data");
    reveal_strlit("base_fee_per_gas");
    reveal_strlit("block_hash");
    reveal_strlit("transactions");
    let bellatrix = payload_fields(Generation::Bellatrix);
    assert forall|i: int| 0 <= i < bellatrix.len() implies #[trigger] bellatrix[i] != "blob_gas_used"@ by {
        assert(bellatrix[i].len() != 13 || bellatrix[i][0] != 'b');
    }
    let k = choose|k: int| 0 <= k < payload.len() && payload[k] == "blob_gas_used"@;
    assert(!same_fields(payload, bellatrix)) by {
        assert(!bellatrix.contains(payload[k]));
    }
    assert(payload_fields(Generation::Capella)[14] == "withdrawals"@);
    assert(payload_fields(Generation::Deneb)[14] == "withdrawals"@);
    assert(payload_fields(Generation::Electra)[14] == "withdrawals"@);
}

} // verus!
