use vstd::prelude::*;

use crate::bytes::byte_lists;
use crate::transaction_model::call_log_view;

verus! {

/// The first byte of every Scrypto SBOR payload.
pub const SCRYPTO_PAYLOAD_PREFIX: u8 = 0x5c;

/// Value kind of `u8`.
pub const VALUE_KIND_U8: u8 = 0x07;

/// Value kind of strings.
pub const VALUE_KIND_STRING: u8 = 0x0c;

/// Value kind of arrays.
pub const VALUE_KIND_ARRAY: u8 = 0x20;

/// Value kind of tuples.
pub const VALUE_KIND_TUPLE: u8 = 0x21;

/// The largest size a payload may hold.
pub const MAX_SIZE: usize = 0x0FFF_FFFF;

/// A size as variable-length little-endian groups of seven bits, each but the
/// last with its high bit set.
pub open spec fn size_bytes(n: nat) -> Seq<u8>
    decreases n,
{
    if n < 128 {
        seq![n as u8]
    } else {
        seq![((n % 128) + 128) as u8] + size_bytes(n / 128)
    }
}

/// The body of an array of bytes: element kind, size, bytes.
pub open spec fn bytes_body(b: Seq<u8>) -> Seq<u8> {
    seq![VALUE_KIND_U8] + size_bytes(b.len()) + b
}

/// The concatenated bodies of a list of byte strings.
pub open spec fn bytes_bodies(v: Seq<Seq<u8>>) -> Seq<u8>
    decreases v.len(),
{
    if v.len() == 0 {
        Seq::empty()
    } else {
        bytes_bodies(v.drop_last()) + bytes_body(v.last())
    }
}

/// The body of an array of byte strings.
pub open spec fn byte_lists_body(v: Seq<Seq<u8>>) -> Seq<u8> {
    seq![VALUE_KIND_ARRAY] + size_bytes(v.len()) + bytes_bodies(v)
}

/// The body of a recorded call: a tuple of its function id and its arguments.
pub open spec fn call_body(call: (u8, Seq<Seq<u8>>)) -> Seq<u8> {
    size_bytes(2) + seq![VALUE_KIND_U8, call.0, VALUE_KIND_ARRAY] + byte_lists_body(call.1)
}

/// The concatenated bodies of a list of recorded calls.
pub open spec fn call_bodies(v: Seq<(u8, Seq<Seq<u8>>)>) -> Seq<u8>
    decreases v.len(),
{
    if v.len() == 0 {
        Seq::empty()
    } else {
        call_bodies(v.drop_last()) + call_body(v.last())
    }
}

/// The payload of a byte string.
pub open spec fn bytes_payload(b: Seq<u8>) -> Seq<u8> {
    seq![SCRYPTO_PAYLOAD_PREFIX, VALUE_KIND_ARRAY] + bytes_body(b)
}

/// The payload of a list of recorded calls.
pub open spec fn call_log_payload(v: Seq<(u8, Seq<Seq<u8>>)>) -> Seq<u8> {
    seq![SCRYPTO_PAYLOAD_PREFIX, VALUE_KIND_ARRAY, VALUE_KIND_TUPLE] + size_bytes(v.len()) + call_bodies(v)
}

/// Whether every size within a list of recorded calls fits a payload.
pub open spec fn call_log_sizes_fit(v: Seq<(u8, Seq<Seq<u8>>)>) -> bool {
    &&& v.len() <= MAX_SIZE
    &&& forall|i: int| 0 <= i < v.len() ==> (#[trigger] v[i]).1.len() <= MAX_SIZE
    &&& forall|i: int, j: int| 0 <= i < v.len() && 0 <= j < v[i].1.len() ==> (#[trigger] v[i].1[j]).len() <= MAX_SIZE
}

/// Appends the encoding of a size.
pub fn write_size(out: &mut Vec<u8>, n: usize)
    requires
        n <= MAX_SIZE,
    ensures
        final(out)@ == old(out)@ + size_bytes(n as nat),
{
    let mut rest: usize = n;
    let ghost start = old(out)@;
    while rest >= 128
        invariant
            rest <= n,
            start + size_bytes(n as nat) == out@ + size_bytes(rest as nat),
        decreases rest,
    {
        let group: u8 = ((rest % 128) + 128) as u8;
        let ghost before = out@;
        out.push(group);
        proof {
            assert(size_bytes(rest as nat) == seq![group] + size_bytes((rest / 128) as nat));
            assert(before + size_bytes(rest as nat) =~= out@ + size_bytes((rest / 128) as nat));
        }
        rest = rest / 128;
    }
    let ghost before = out@;
    out.push(rest as u8);
    assert(size_bytes(rest as nat) == seq![rest as u8]);
    assert(before + size_bytes(rest as nat) =~= out@);
}

/// Appends the body of an array of bytes.
fn write_bytes_body(out: &mut Vec<u8>, b: &Vec<u8>)
    requires
        b@.len() <= MAX_SIZE,
    ensures
        final(out)@ == old(out)@ + bytes_body(b@),
{
    out.push(VALUE_KIND_U8);
    write_size(out, b.len());
    let ghost mid = out@;
    let mut i: usize = 0;
    while i < b.len()
        invariant
            i <= b@.len(),
            out@ == mid + b@.subrange(0, i as int),
        decreases b@.len() - i,
    {
        out.push(b[i]);
        i = i + 1;
        assert(out@ =~= mid + b@.subrange(0, i as int));
    }
    assert(b@.subrange(0, b@.len() as int) =~= b@);
    assert(out@ =~= old(out)@ + bytes_body(b@));
}

/// Appends the body of an array of byte strings.
fn write_byte_lists_body(out: &mut Vec<u8>, v: &Vec<Vec<u8>>)
    requires
        v@.len() <= MAX_SIZE,
        forall|j: int| 0 <= j < v@.len() ==> (#[trigger] v@[j])@.len() <= MAX_SIZE,
    ensures
        final(out)@ == old(out)@ + byte_lists_body(byte_lists(v@)),
{
    out.push(VALUE_KIND_ARRAY);
    write_size(out, v.len());
    let ghost mid = out@;
    let mut i: usize = 0;
    while i < v.len()
        invariant
            i <= v@.len(),
            forall|j: int| 0 <= j < v@.len() ==> (#[trigger] v@[j])@.len() <= MAX_SIZE,
            out@ == mid + bytes_bodies(byte_lists(v@).subrange(0, i as int)),
        decreases v@.len() - i,
    {
        write_bytes_body(out, &v[i]);
        proof {
            let s = byte_lists(v@).subrange(0, i + 1);
            assert(s.drop_last() =~= byte_lists(v@).subrange(0, i as int));
            assert(s.last() == v@[i as int]@);
        }
        i = i + 1;
    }
    assert(byte_lists(v@).subrange(0, v@.len() as int) =~= byte_lists(v@));
    assert(out@ =~= old(out)@ + byte_lists_body(byte_lists(v@)));
}

/// The payload of a byte string.
pub fn encode_bytes_payload(b: &Vec<u8>) -> (r: Vec<u8>)
    requires
        b@.len() <= MAX_SIZE,
    ensures
        r@ == bytes_payload(b@),
{
    let mut out: Vec<u8> = Vec::new();
    out.push(SCRYPTO_PAYLOAD_PREFIX);
    out.push(VALUE_KIND_ARRAY);
    write_bytes_body(&mut out, b);
    assert(out@ =~= bytes_payload(b@));
    out
}

/// The payload of a list of recorded calls.
pub fn encode_call_log_payload(v: &Vec<(u8, Vec<Vec<u8>>)>) -> (r: Vec<u8>)
    requires
        call_log_sizes_fit(call_log_view(v@)),
    ensures
        r@ == call_log_payload(call_log_view(v@)),
{
    let ghost cv = call_log_view(v@);
    let mut out: Vec<u8> = Vec::new();
    out.push(SCRYPTO_PAYLOAD_PREFIX);
    out.push(VALUE_KIND_ARRAY);
    out.push(VALUE_KIND_TUPLE);
    write_size(&mut out, v.len());
    let ghost mid = out@;
    let mut i: usize = 0;
    while i < v.len()
        invariant
            i <= v@.len(),
            cv == call_log_view(v@),
            call_log_sizes_fit(cv),
            out@ == mid + call_bodies(cv.subrange(0, i as int)),
        decreases v@.len() - i,
    {
        let ghost before = out@;
        write_size(&mut out, 2);
        out.push(VALUE_KIND_U8);
        out.push(v[i].0);
        out.push(VALUE_KIND_ARRAY);
        proof {
            assert(cv[i as int].1 == byte_lists(v@[i as int].1@));
            assert forall|j: int| 0 <= j < v@[i as int].1@.len() implies (#[trigger] v@[i as int].1@[j])@.len()
                <= MAX_SIZE by {
                assert(cv[i as int].1[j] == v@[i as int].1@[j]@);
            }
        }
        write_byte_lists_body(&mut out, &v[i].1);
        proof {
            let s = cv.subrange(0, i + 1);
            assert(s.drop_last() =~= cv.subrange(0, i as int));
            assert(s.last() == cv[i as int]);
            assert(out@ =~= before + call_body(cv[i as int]));
        }
        i = i + 1;
    }
    assert(cv.subrange(0, v@.len() as int) =~= cv);
    assert(out@ =~= call_log_payload(cv));
    out
}

} // verus!
