//! The SSZ primitives the submission codec is built on: splitting a container
//! or a list of variable-size items into its parts and framing parts back
//! into one, both done by the `ssz` crate, and little-endian integers.

use vstd::prelude::*;

verus! {

#[verifier::external_type_specification]
#[verifier::external_body]
pub struct ExSszDecodeError(ssz::DecodeError);

/// Why SSZ bytes did not decode into a submission.
#[derive(Debug, PartialEq)]
pub enum SszError {
    /// The offsets or lengths of a container or list were malformed.
    Framing(ssz::DecodeError),
    /// A bounded list held more items, or bytes, than its bound.
    TooLong { max: usize },
    /// A list of fixed-size items was not a whole number of items.
    UnevenList { len: usize, item: usize },
}

/// What the `ssz` crate makes of `bytes` as a container whose fields are laid
/// out as `layout`: each field is `(true, n)` for a fixed size of `n` bytes or
/// `(false, _)` for a variable size, reached through an offset.
pub uninterp spec fn container_split(bytes: Seq<u8>, layout: Seq<(bool, usize)>) -> Result<Seq<Seq<u8>>, SszError>;

/// What the `ssz` crate makes of `bytes` as a list of at most `max`
/// variable-size byte strings.
pub uninterp spec fn variable_list_split(bytes: Seq<u8>, max: usize) -> Result<Seq<Seq<u8>>, SszError>;

pub open spec fn bytes_views(v: Seq<Vec<u8>>) -> Seq<Seq<u8>> {
    v.map_values(|b: Vec<u8>| b@)
}

/// The value of little-endian bytes.
pub open spec fn le_value(s: Seq<u8>) -> nat
    decreases s.len(),
{
    if s.len() == 0 {
        0
    } else {
        s[0] as nat + 256 * le_value(s.drop_first())
    }
}

/// A layout small enough that its fixed part cannot overflow.
pub open spec fn small_layout(layout: Seq<(bool, usize)>) -> bool {
    layout.len() <= 64 && forall|i: int| 0 <= i < layout.len() ==> #[trigger] layout[i].1 <= 4096
}

/// Relies on ssz::SszDecoderBuilder (register_type_parameterized, build) and
/// SszDecoder::decode_next_with: one slice per registered field, in order, a
/// fixed field taking exactly its size; the first offset is read where the
/// first variable field stands and must equal the size of the fixed part.
#[verifier::external_body]
pub(crate) fn split_container(bytes: &[u8], layout: &[(bool, usize)]) -> (r: Result<Vec<Vec<u8>>, SszError>)
    requires
        small_layout(layout@),
    ensures
        match r {
            Ok(parts) => container_split(bytes@, layout@) == Ok::<Seq<Seq<u8>>, SszError>(bytes_views(parts@)),
            Err(e) => container_split(bytes@, layout@) == Err::<Seq<Seq<u8>>, SszError>(e),
        },
        r matches Ok(parts) ==> parts@.len() == layout@.len() && forall|i: int|
            0 <= i < layout@.len() && (#[trigger] layout@[i]).0 ==> parts@[i]@.len() == layout@[i].1,
        forall|k: int| r is Ok && #[trigger] first_variable(layout@, k) ==> leading_offset(bytes@, layout@, k),
{
    let mut builder = ssz::SszDecoderBuilder::new(bytes);
    for (fixed, len) in layout {
        builder.register_type_parameterized(*fixed, *len).map_err(SszError::Framing)?;
    }
    let mut decoder = builder.build().map_err(SszError::Framing)?;
    let mut parts = Vec::new();
    for _ in layout {
        parts.push(decoder.decode_next_with(|s| Ok(s.to_vec())).map_err(SszError::Framing)?);
    }
    Ok(parts)
}

/// Relies on ssz::decode_list_of_variable_length_items for byte strings: the
/// items in order, and an error where there are more than `max`.
#[verifier::external_body]
pub(crate) fn split_variable_list(bytes: &[u8], max: usize) -> (r: Result<Vec<Vec<u8>>, SszError>)
    ensures
        match r {
            Ok(items) => variable_list_split(bytes@, max) == Ok::<Seq<Seq<u8>>, SszError>(bytes_views(items@)),
            Err(e) => variable_list_split(bytes@, max) == Err::<Seq<Seq<u8>>, SszError>(e),
        },
        r matches Ok(items) ==> items@.len() <= max,
{
    ssz::decode_list_of_variable_length_items::<Vec<u8>, Vec<Vec<u8>>>(bytes, Some(max))
        .map_err(SszError::Framing)
}

/// Relies on ssz's `Decode` for `u64`: eight bytes, little-endian.
#[verifier::external_body]
pub(crate) fn read_u64(bytes: &[u8]) -> (r: u64)
    requires
        bytes@.len() == 8,
    ensures
        r as nat == le_value(bytes@),
{
    <u64 as ssz::Decode>::from_ssz_bytes(bytes).unwrap_or_default()
}

/// The bytes `b[start..start + len]`, copied.
pub fn copy_range(b: &[u8], start: usize, len: usize) -> (r: Vec<u8>)
    requires
        start + len <= b@.len(),
    ensures
        r@ == b@.subrange(start as int, start + len),
{
    let n = b.len();
    let mut out: Vec<u8> = Vec::new();
    let mut i: usize = 0;
    while i < len
        invariant
            start + len <= b@.len(),
            n == b@.len(),
            i <= len,
            out@ == b@.subrange(start as int, start + i),
        decreases len - i,
    {
        out.push(b[start + i]);
        i = i + 1;
        assert(out@ =~= b@.subrange(start as int, start + i));
    }
    out
}

/// The little-endian `u64` at `b[start..start + 8]`.
pub fn u64_at(b: &[u8], start: usize) -> (r: u64)
    requires
        start + 8 <= b@.len(),
    ensures
        r as nat == le_value(b@.subrange(start as int, start + 8)),
{
    let len = b.len();
    assert(start + 8 <= len);
    read_u64(vstd::slice::slice_subrange(b, start, start + 8))
}

/// The total length of byte strings.
pub open spec fn total_len(s: Seq<Seq<u8>>) -> nat
    decreases s.len(),
{
    if s.len() == 0 {
        0
    } else {
        total_len(s.drop_last()) + s.last().len()
    }
}

/// The bytes a field takes in the fixed part: its size, or four bytes of
/// offset for a variable field.
pub open spec fn slot_size(field: (bool, usize)) -> nat {
    if field.0 {
        field.1 as nat
    } else {
        4
    }
}

/// The bytes of the fixed part taken by the first `n` fields.
pub open spec fn fixed_prefix(layout: Seq<(bool, usize)>, n: int) -> nat
    decreases n,
{
    if n <= 0 {
        0
    } else {
        fixed_prefix(layout, n - 1) + slot_size(layout[n - 1])
    }
}

/// The bytes of the fixed part of a container.
pub open spec fn fixed_size(layout: Seq<(bool, usize)>) -> nat {
    fixed_prefix(layout, layout.len() as int)
}

/// Field `k` is the first variable field of the layout.
pub open spec fn first_variable(layout: Seq<(bool, usize)>, k: int) -> bool {
    &&& 0 <= k < layout.len()
    &&& !layout[k].0
    &&& forall|j: int| 0 <= j < k ==> (#[trigger] layout[j]).0
}

/// Where field `k` is the first variable field, the four bytes of its offset
/// hold the size of the fixed part, little-endian.
pub open spec fn leading_offset(bytes: Seq<u8>, layout: Seq<(bool, usize)>, k: int) -> bool {
    let at = fixed_prefix(layout, k) as int;
    &&& at + 4 <= bytes.len()
    &&& le_value(bytes.subrange(at, at + 4)) == fixed_size(layout)
}

/// Parts that fill the layout: one per field, fixed ones of their size.
pub open spec fn fills_layout(parts: Seq<Seq<u8>>, layout: Seq<(bool, usize)>) -> bool {
    &&& parts.len() == layout.len()
    &&& forall|i: int| 0 <= i < layout.len() && (#[trigger] layout[i]).0 ==> parts[i].len() == layout[i].1
}

/// Byte strings whose SSZ framing keeps every offset within four bytes.
pub open spec fn offsets_fit(parts: Seq<Seq<u8>>) -> bool {
    total_len(parts) + 4 * parts.len() <= u32::MAX
}

proof fn lemma_total_len_prefix(s: Seq<Seq<u8>>, i: int)
    requires
        0 <= i <= s.len(),
    ensures
        total_len(s.take(i)) <= total_len(s),
    decreases s.len() - i,
{
    if i < s.len() {
        lemma_total_len_prefix(s, i + 1);
        assert(s.take(i + 1).drop_last() =~= s.take(i));
    } else {
        assert(s.take(i) =~= s);
    }
}

/// Whether framing `parts` keeps every offset within four bytes.
pub fn check_offsets_fit(parts: &Vec<Vec<u8>>) -> (r: bool)
    ensures
        r == offsets_fit(bytes_views(parts@)),
{
    let ghost v = bytes_views(parts@);
    let mut sum: u64 = 0;
    let mut i: usize = 0;
    while i < parts.len()
        invariant
            v == bytes_views(parts@),
            i <= parts@.len(),
            sum as nat == total_len(v.take(i as int)) + 4 * i,
            sum <= u32::MAX,
        decreases parts@.len() - i,
    {
        assert(v.take(i + 1).drop_last() =~= v.take(i as int));
        assert(v[i as int] == parts@[i as int]@);
        let len = parts[i].len();
        if len as u64 > u32::MAX as u64 - sum || (len as u64) + 4 > u32::MAX as u64 - sum {
            proof {
                lemma_total_len_prefix(v, i + 1);
                assert(v.take(i + 1).len() == i + 1);
            }
            return false;
        }
        sum = sum + len as u64 + 4;
        i = i + 1;
    }
    assert(v.take(parts@.len() as int) =~= v);
    true
}

/// The size of the fixed part of a container.
pub fn fixed_part_size(layout: &[(bool, usize)]) -> (r: usize)
    requires
        small_layout(layout@),
    ensures
        r == fixed_size(layout@),
{
    let mut sum: usize = 0;
    let mut i: usize = 0;
    while i < layout.len()
        invariant
            small_layout(layout@),
            i <= layout@.len(),
            sum == fixed_prefix(layout@, i as int),
            sum <= i * 4096,
        decreases layout@.len() - i,
    {
        let (fixed, len) = layout[i];
        assert(layout@[i as int].1 <= 4096);
        if fixed {
            sum = sum + len;
        } else {
            sum = sum + 4;
        }
        i = i + 1;
    }
    sum
}

/// Relies on ssz::SszEncoder (container, append_parameterized, finalize): it
/// writes fixed fields in place and variable ones behind offsets, which
/// SszDecoderBuilder splits back into the same parts; the first offset is the
/// size of the fixed part.
#[verifier::external_body]
pub(crate) fn frame_container(parts: &Vec<Vec<u8>>, layout: &[(bool, usize)], num_fixed_bytes: usize) -> (r: Vec<u8>)
    requires
        small_layout(layout@),
        fills_layout(bytes_views(parts@), layout@),
        num_fixed_bytes == fixed_size(layout@),
        offsets_fit(bytes_views(parts@)),
    ensures
        container_split(r@, layout@) is Ok,
        container_split(r@, layout@)->Ok_0 == bytes_views(parts@),
        r@.len() <= total_len(bytes_views(parts@)) + 4 * parts@.len(),
        forall|k: int| #[trigger] first_variable(layout@, k) ==> leading_offset(r@, layout@, k),
{
    let mut buf = Vec::new();
    let mut encoder = ssz::SszEncoder::container(&mut buf, num_fixed_bytes);
    for (part, (fixed, _)) in parts.iter().zip(layout) {
        encoder.append_parameterized(*fixed, |b| b.extend_from_slice(part));
    }
    encoder.finalize();
    buf
}

/// Relies on ssz's `Encode` for a list of byte strings: offsets, then the
/// items, which decode_list_of_variable_length_items splits back into the
/// same items under any bound that admits their number.
#[verifier::external_body]
pub(crate) fn frame_variable_list(items: &Vec<Vec<u8>>) -> (r: Vec<u8>)
    requires
        offsets_fit(bytes_views(items@)),
    ensures
        forall|max: usize| items@.len() <= max ==> (#[trigger] variable_list_split(r@, max)) is Ok,
        forall|max: usize| items@.len() <= max ==> (#[trigger] variable_list_split(r@, max))->Ok_0
            == bytes_views(items@),
        r@.len() == total_len(bytes_views(items@)) + 4 * items@.len(),
{
    ssz::Encode::as_ssz_bytes(items)
}

/// Relies on ssz's `Encode` for `u64`: eight bytes, little-endian.
#[verifier::external_body]
pub(crate) fn u64_bytes(n: u64) -> (r: Vec<u8>)
    ensures
        r@.len() == 8,
        le_value(r@) == n as nat,
{
    ssz::Encode::as_ssz_bytes(&n)
}

/// Appends `b` to `out`.
pub fn push_all(out: &mut Vec<u8>, b: &[u8])
    ensures
        final(out)@ == old(out)@ + b@,
{
    let ghost start = out@;
    let mut i: usize = 0;
    while i < b.len()
        invariant
            i <= b@.len(),
            out@ == start + b@.take(i as int),
        decreases b@.len() - i,
    {
        out.push(b[i]);
        i = i + 1;
        assert(out@ =~= start + b@.take(i as int));
    }
    assert(b@.take(b@.len() as int) =~= b@);
}

/// Appends a part to the parts of a container.
pub fn push_part(parts: &mut Vec<Vec<u8>>, part: Vec<u8>)
    ensures
        final(parts)@ == old(parts)@.push(part),
        bytes_views(final(parts)@) == bytes_views(old(parts)@).push(part@),
        total_len(bytes_views(final(parts)@)) == total_len(bytes_views(old(parts)@)) + part@.len(),
{
    let ghost before = bytes_views(parts@);
    let ghost v = part@;
    parts.push(part);
    assert(bytes_views(parts@) =~= before.push(v));
    assert(before.push(v).drop_last() =~= before);
}

} // verus!
