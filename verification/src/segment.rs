//! The payload data segment: a 4-byte big-endian length prefix covering the
//! payload plus its terminator, then the payload bytes, then one zero byte.
//! Also the guest-side reading model: copying a segment into linear memory
//! and decoding the embedded message back out of it.

use vstd::prelude::*;
use crate::patch::PatchError;

verus! {

/// Most significant byte of `n` in big-endian order.
pub open spec fn be_byte0(n: u32) -> u8 {
    ((n >> 24) & 0xff) as u8
}

pub open spec fn be_byte1(n: u32) -> u8 {
    ((n >> 16) & 0xff) as u8
}

pub open spec fn be_byte2(n: u32) -> u8 {
    ((n >> 8) & 0xff) as u8
}

/// Least significant byte of `n` in big-endian order.
pub open spec fn be_byte3(n: u32) -> u8 {
    (n & 0xff) as u8
}

/// The 4-byte big-endian encoding of `n`.
pub open spec fn be_bytes_of(n: u32) -> Seq<u8> {
    seq![be_byte0(n), be_byte1(n), be_byte2(n), be_byte3(n)]
}

/// The value read back from 4 bytes in big-endian order.
pub open spec fn be_val(b0: u8, b1: u8, b2: u8, b3: u8) -> u32 {
    (((b0 as u32) << 24) | ((b1 as u32) << 16) | ((b2 as u32) << 8)) | (b3 as u32)
}

/// Reading the four bytes of `n` back in big-endian order yields `n`.
pub proof fn lemma_be_round_trip(n: u32)
    ensures
        be_val(be_byte0(n), be_byte1(n), be_byte2(n), be_byte3(n)) == n,
{
    assert((((((n >> 24) & 0xff) as u8) as u32) << 24) | (((((n >> 16) & 0xff) as u8) as u32)
        << 16) | (((((n >> 8) & 0xff) as u8) as u32) << 8) | (((n & 0xff) as u8) as u32) == n)
        by (bit_vector);
}

/// A payload the segment builder accepts: no embedded terminator byte, and
/// short enough for its length plus the terminator to fit the 4-byte prefix.
pub open spec fn payload_ok(p: Seq<u8>) -> bool {
    &&& forall|i: int| 0 <= i < p.len() ==> p[i] != 0
    &&& p.len() + 1 <= u32::MAX
}

/// The bytes of the injected segment: big-endian `payload length + 1`, the
/// payload, one zero byte.
pub open spec fn seg_bytes(p: Seq<u8>) -> Seq<u8> {
    be_bytes_of((p.len() + 1) as u32) + p + seq![0u8]
}

/// Encodes the payload as the injected segment's bytes, rejecting payloads
/// with an embedded terminator or too long for the length prefix.
pub fn encode_payload(payload: &Vec<u8>) -> (r: Result<Vec<u8>, PatchError>)
    ensures
        match r {
            Ok(bytes) => payload_ok(payload@) && bytes@ == seg_bytes(payload@),
            Err(e) => e == PatchError::PayloadEncodingError && !payload_ok(payload@),
        },
{
    if payload.len() > (u32::MAX - 1) as usize {
        return Err(PatchError::PayloadEncodingError);
    }
    let n = payload.len();
    let mut k: usize = 0;
    while k < n
        invariant
            n == payload@.len(),
            0 <= k <= n,
            forall|i: int| 0 <= i < k ==> payload@[i] != 0,
        decreases n - k,
    {
        if payload[k] == 0 {
            return Err(PatchError::PayloadEncodingError);
        }
        k += 1;
    }
    let prefix: u32 = (payload.len() + 1) as u32;
    let mut bytes: Vec<u8> = Vec::new();
    proof {
        assert(((prefix >> 24) & 0xff) < 256 && ((prefix >> 16) & 0xff) < 256 && ((prefix >> 8)
            & 0xff) < 256 && (prefix & 0xff) < 256) by (bit_vector);
    }
    bytes.push(((prefix >> 24) & 0xff) as u8);
    bytes.push(((prefix >> 16) & 0xff) as u8);
    bytes.push(((prefix >> 8) & 0xff) as u8);
    bytes.push((prefix & 0xff) as u8);
    let mut j: usize = 0;
    while j < n
        invariant
            n == payload@.len(),
            n + 1 <= u32::MAX,
            0 <= j <= n,
            bytes@.len() == 4 + j,
            bytes@.subrange(0, 4) =~= be_bytes_of((payload@.len() + 1) as u32),
            bytes@.subrange(4, bytes@.len() as int) =~= payload@.subrange(0, j as int),
        decreases n - j,
    {
        bytes.push(payload[j]);
        proof {
            assert(bytes@.subrange(0, 4) =~= be_bytes_of((payload@.len() + 1) as u32));
            assert(bytes@.subrange(4, bytes@.len() as int) =~= payload@.subrange(0, j + 1));
        }
        j += 1;
    }
    let ghost pre = bytes@;
    bytes.push(0u8);
    proof {
        let p = payload@;
        let c = (p.len() + 1) as u32;
        let sb = seg_bytes(p);
        assert(be_bytes_of(c).len() == 4);
        assert(sb.len() == 4 + p.len() + 1);
        assert(bytes@.len() == sb.len());
        assert forall|i: int| 0 <= i < bytes@.len() implies bytes@[i] == sb[i] by {
            if i < 4 {
                assert(bytes@[i] == pre[i]);
                assert(pre[i] == pre.subrange(0, 4)[i]);
                assert(sb[i] == be_bytes_of(c)[i]);
            } else if i < 4 + p.len() {
                assert(bytes@[i] == pre[i]);
                assert(pre[i] == pre.subrange(4, pre.len() as int)[i - 4]);
                assert(pre.subrange(4, pre.len() as int)[i - 4] == p.subrange(0, n as int)[i - 4]);
                assert(p.subrange(0, n as int)[i - 4] == p[i - 4]);
                assert(sb[i] == p[i - 4]);
            } else {
                assert(bytes@[i] == 0u8);
                assert(sb[i] == 0u8);
            }
        }
        assert(bytes@ =~= seg_bytes(payload@));
    }
    Ok(bytes)
}

/// Copies `size` bytes of the data segment `data`, starting at `offset`,
/// into `mem` at `dest`; bytes outside the destination range are untouched.
pub fn memory_init(mem: &mut Vec<u8>, data: &Vec<u8>, dest: u32, offset: u32, size: u32)
    requires
        dest as int + size as int <= old(mem)@.len(),
        offset as int + size as int <= data@.len(),
    ensures
        final(mem)@.len() == old(mem)@.len(),
        forall|i: int|
            0 <= i < size as int ==> #[trigger] final(mem)@[dest as int + i] == data@[offset as int
                + i],
        forall|i: int|
            0 <= i < old(mem)@.len() && !(dest as int <= i < dest as int + size as int)
                ==> #[trigger] final(mem)@[i] == old(mem)@[i],
{
    let mut k: usize = 0;
    let sz = size as usize;
    let ml = mem.len();
    let dl = data.len();
    while k < sz
        invariant
            sz == size as usize,
            0 <= k <= sz,
            ml == mem@.len(),
            dl == data@.len(),
            dest as int + size as int <= mem@.len(),
            offset as int + size as int <= data@.len(),
            mem@.len() == old(mem)@.len(),
            forall|i: int| 0 <= i < k ==> #[trigger] mem@[dest as int + i] == data@[offset as int
                + i],
            forall|i: int|
                0 <= i < old(mem)@.len() && !(dest as int <= i < dest as int + size as int)
                    ==> #[trigger] mem@[i] == old(mem)@[i],
        decreases sz - k,
    {
        let b = data[offset as usize + k];
        mem[dest as usize + k] = b;
        k += 1;
    }
}

/// Allocates a fresh buffer of `size` bytes and fills it from the data
/// segment at `offset`, as the rewritten placeholder would fill memory.
pub fn load_from_data(data: &Vec<u8>, offset: u32, size: u32) -> (r: Vec<u8>)
    requires
        offset as int + size as int <= data@.len(),
    ensures
        r@ == data@.subrange(offset as int, offset as int + size as int),
{
    let mut buf: Vec<u8> = Vec::new();
    let sz = size as usize;
    let dl = data.len();
    let mut k: usize = 0;
    while k < sz
        invariant
            sz == size as usize,
            0 <= k <= sz,
            dl == data@.len(),
            offset as int + size as int <= data@.len(),
            buf@.len() == k,
            forall|i: int| 0 <= i < k ==> #[trigger] buf@[i] == data@[offset as int + i],
        decreases sz - k,
    {
        buf.push(data[offset as usize + k]);
        k += 1;
    }
    proof {
        assert(buf@ =~= data@.subrange(offset as int, offset as int + size as int));
    }
    buf
}

/// Reads `size` bytes out of the data segment at `offset`, as the guest-side
/// consumer reads a slice out of the injected region.
pub fn load_slice_from_data(data: &Vec<u8>, offset: u32, size: u32) -> (r: Vec<u8>)
    requires
        offset as int + size as int <= data@.len(),
    ensures
        r@ == data@.subrange(offset as int, offset as int + size as int),
{
    load_from_data(data, offset, size)
}

pub open spec fn has_zero(s: Seq<u8>) -> bool {
    exists|i: int| 0 <= i < s.len() && s[i] == 0
}

/// Index of the first zero byte; meaningful only when `has_zero` holds.
pub open spec fn first_zero(s: Seq<u8>) -> int
    decreases s.len(),
{
    if s.len() == 0 {
        0
    } else if s[0] == 0 {
        0
    } else {
        1 + first_zero(s.drop_first())
    }
}

pub proof fn lemma_first_zero(s: Seq<u8>)
    requires
        has_zero(s),
    ensures
        0 <= first_zero(s) < s.len(),
        s[first_zero(s)] == 0,
        forall|j: int| 0 <= j < first_zero(s) ==> s[j] != 0,
    decreases s.len(),
{
    if s.len() == 0 {
    } else if s[0] == 0 {
    } else {
        let i = choose|i: int| 0 <= i < s.len() && s[i] == 0;
        assert(s.drop_first()[i - 1] == 0);
        lemma_first_zero(s.drop_first());
        assert forall|j: int| 0 <= j < first_zero(s) implies s[j] != 0 by {
            if j > 0 {
                assert(s[j] == s.drop_first()[j - 1]);
            }
        }
    }
}

/// What the guest-side consumer reads out of a data segment: the 4-byte
/// big-endian length, then that many bytes taken as a zero-terminated byte
/// string.  `None` when the segment is too short, the length overruns it, or
/// no terminator is present.
pub open spec fn decode_spec(d: Seq<u8>) -> Option<Seq<u8>> {
    if d.len() < 4 {
        Option::None
    } else {
        let n = be_val(d[0], d[1], d[2], d[3]) as int;
        if 4 + n > d.len() {
            Option::None
        } else {
            let s = d.subrange(4, 4 + n);
            if has_zero(s) {
                Option::Some(s.take(first_zero(s)))
            } else {
                Option::None
            }
        }
    }
}

/// Reads the embedded message back out of a data segment, as the guest-side
/// consumer does: length prefix first, then the zero-terminated byte run.
pub fn read_embedded_message(data: &Vec<u8>) -> (r: Option<Vec<u8>>)
    ensures
        match r {
            Some(v) => decode_spec(data@) matches Some(s) && v@ == s,
            None => decode_spec(data@) is None,
        },
{
    if data.len() < 4 {
        return None;
    }
    let len_bytes = load_slice_from_data(data, 0, 4);
    let n = u32_from_be(len_bytes[0], len_bytes[1], len_bytes[2], len_bytes[3]);
    proof {
        assert(len_bytes@[0] == data@[0] && len_bytes@[1] == data@[1] && len_bytes@[2] == data@[2]
            && len_bytes@[3] == data@[3]);
    }
    if (n as usize) > data.len() - 4 {
        return None;
    }
    let s = load_slice_from_data(data, 4, n);
    let ghost sv = data@.subrange(4, 4 + n as int);
    let sn = s.len();
    proof {
        assert(sn == n as int);
    }
    let mut k: usize = 0;
    while k < sn
        invariant
            sn == s@.len(),
            sn <= u32::MAX,
            0 <= k <= sn,
            s@ == sv,
            sv == data@.subrange(4, 4 + (be_val(data@[0], data@[1], data@[2], data@[3]) as int)),
            data@.len() >= 4,
            4 + (be_val(data@[0], data@[1], data@[2], data@[3]) as int) <= data@.len(),
            forall|j: int| 0 <= j < k ==> s@[j] != 0,
        decreases sn - k,
    {
        if s[k] == 0 {
            proof {
                assert(has_zero(sv));
                lemma_first_zero(sv);
                let p = first_zero(sv);
                assert(!(p < k) && !(k < p));
            }
            let msg = load_slice_from_data(&s, 0, k as u32);
            proof {
                assert(k as u32 as int == k as int);
                assert(msg@ =~= sv.take(first_zero(sv)));
            }
            return Some(msg);
        }
        k += 1;
    }
    proof {
        assert(!has_zero(sv));
    }
    None
}

/// Combines four bytes read in big-endian order into their value.
pub fn u32_from_be(b0: u8, b1: u8, b2: u8, b3: u8) -> (r: u32)
    ensures
        r == be_val(b0, b1, b2, b3),
{
    (((b0 as u32) << 24) | ((b1 as u32) << 16) | ((b2 as u32) << 8)) | (b3 as u32)
}

/// Payload fidelity: decoding the injected segment of an accepted payload
/// yields exactly that payload.
pub proof fn lemma_payload_fidelity(p: Seq<u8>)
    requires
        payload_ok(p),
    ensures
        decode_spec(seg_bytes(p)) == Option::Some(p),
{
    let d = seg_bytes(p);
    let pl = (p.len() + 1) as u32;
    assert(d.len() == 4 + p.len() + 1);
    assert(d[0] == be_byte0(pl) && d[1] == be_byte1(pl) && d[2] == be_byte2(pl) && d[3]
        == be_byte3(pl));
    lemma_be_round_trip(pl);
    let n = be_val(d[0], d[1], d[2], d[3]) as int;
    assert(n == p.len() + 1);
    assert(4 + n <= d.len());
    let s = d.subrange(4, 4 + n);
    assert(s =~= p + seq![0u8]);
    assert(s[p.len() as int] == 0);
    assert(has_zero(s));
    lemma_first_zero(s);
    assert(forall|j: int| 0 <= j < p.len() ==> s[j] == p[j] && s[j] != 0);
    let z = first_zero(s);
    assert(!(z < p.len()) && z < s.len());
    assert(z == p.len());
    assert(s.take(z) =~= p);
}

} // verus!
