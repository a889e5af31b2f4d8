//! The record codec's primitives: little-endian scalars, length-prefixed
//! byte strings, 32-byte addresses and address lists, and optional
//! values tagged by a one-byte presence flag.
//!
//! Every primitive has a specification-level encoder (`Seq<u8>` it
//! produces) and decoder (what a buffer parses to), an executable
//! reader/writer proved against them, and a round-trip lemma.

use vstd::prelude::*;

use crate::addr::{addrs_wf, views_of, Addr};
use crate::error::BullPosterError;

verus! {

// ---------------------------------------------------------------------
// Specification encoders
// ---------------------------------------------------------------------

/// The four little-endian bytes of a 32-bit scalar.
pub open spec fn u32_le_bytes(v: u32) -> Seq<u8> {
    seq![
        (v & 0xff) as u8,
        ((v >> 8) & 0xff) as u8,
        ((v >> 16) & 0xff) as u8,
        ((v >> 24) & 0xff) as u8,
    ]
}

/// The 32-bit scalar read from four little-endian bytes.
pub open spec fn u32_from_le_bytes(b0: u8, b1: u8, b2: u8, b3: u8) -> u32 {
    (b0 as u32) | (b1 as u32) << 8 | (b2 as u32) << 16 | (b3 as u32) << 24
}

/// The eight little-endian bytes of a 64-bit scalar.
pub open spec fn u64_le_bytes(v: u64) -> Seq<u8> {
    seq![
        (v & 0xff) as u8,
        ((v >> 8) & 0xff) as u8,
        ((v >> 16) & 0xff) as u8,
        ((v >> 24) & 0xff) as u8,
        ((v >> 32) & 0xff) as u8,
        ((v >> 40) & 0xff) as u8,
        ((v >> 48) & 0xff) as u8,
        ((v >> 56) & 0xff) as u8,
    ]
}

/// The 64-bit scalar read from eight little-endian bytes.
pub open spec fn u64_from_le_bytes(
    b0: u8, b1: u8, b2: u8, b3: u8, b4: u8, b5: u8, b6: u8, b7: u8,
) -> u64 {
    (b0 as u64) | (b1 as u64) << 8 | (b2 as u64) << 16 | (b3 as u64) << 24
        | (b4 as u64) << 32 | (b5 as u64) << 40 | (b6 as u64) << 48 | (b7 as u64) << 56
}

/// A boolean as one byte, 0 or 1.
pub open spec fn enc_bool(b: bool) -> Seq<u8> {
    seq![if b { 1u8 } else { 0u8 }]
}

/// A byte string, prefixed by its 32-bit length.
pub open spec fn enc_bytes(b: Seq<u8>) -> Seq<u8> {
    u32_le_bytes(b.len() as u32) + b
}

/// An address: its 32 bytes, no prefix.
pub open spec fn enc_addr(a: Seq<u8>) -> Seq<u8> {
    a
}

/// The concatenation of a list of address encodings.
pub open spec fn cat_addrs(l: Seq<Seq<u8>>) -> Seq<u8>
    decreases l.len(),
{
    if l.len() == 0 {
        Seq::empty()
    } else {
        l[0] + cat_addrs(l.drop_first())
    }
}

/// An address list: a 32-bit count, then each address's 32 bytes.
pub open spec fn enc_addrs(l: Seq<Seq<u8>>) -> Seq<u8> {
    u32_le_bytes(l.len() as u32) + cat_addrs(l)
}

/// An optional address: presence tag, then the payload when present.
pub open spec fn enc_opt_addr(o: Option<Seq<u8>>) -> Seq<u8> {
    match o {
        Option::None => seq![0u8],
        Option::Some(a) => seq![1u8] + a,
    }
}

/// An optional 64-bit scalar: presence tag, then the payload when
/// present.
pub open spec fn enc_opt_u64(o: Option<u64>) -> Seq<u8> {
    match o {
        Option::None => seq![0u8],
        Option::Some(v) => seq![1u8] + u64_le_bytes(v),
    }
}

// ---------------------------------------------------------------------
// Specification decoders
// ---------------------------------------------------------------------

/// Parse a 32-bit scalar at `pos`; `None` when the buffer ends first.
pub open spec fn dec_u32(s: Seq<u8>, pos: int) -> Option<(u32, int)> {
    if 0 <= pos && pos + 4 <= s.len() {
        Some((u32_from_le_bytes(s[pos], s[pos + 1], s[pos + 2], s[pos + 3]), pos + 4))
    } else {
        None
    }
}

/// Parse a 64-bit scalar at `pos`.
pub open spec fn dec_u64(s: Seq<u8>, pos: int) -> Option<(u64, int)> {
    if 0 <= pos && pos + 8 <= s.len() {
        Some((
            u64_from_le_bytes(
                s[pos], s[pos + 1], s[pos + 2], s[pos + 3],
                s[pos + 4], s[pos + 5], s[pos + 6], s[pos + 7],
            ),
            pos + 8,
        ))
    } else {
        None
    }
}

/// Parse a boolean at `pos`; only the bytes 0 and 1 are accepted.
pub open spec fn dec_bool(s: Seq<u8>, pos: int) -> Option<(bool, int)> {
    if 0 <= pos && pos + 1 <= s.len() {
        if s[pos] == 0u8 {
            Some((false, pos + 1))
        } else if s[pos] == 1u8 {
            Some((true, pos + 1))
        } else {
            None
        }
    } else {
        None
    }
}

/// Parse a 32-byte address at `pos`.
pub open spec fn dec_addr(s: Seq<u8>, pos: int) -> Option<(Seq<u8>, int)> {
    if 0 <= pos && pos + 32 <= s.len() {
        Some((s.subrange(pos, pos + 32), pos + 32))
    } else {
        None
    }
}

/// Parse a length-prefixed byte string at `pos`; the declared length is
/// never trusted past the end of the buffer.
pub open spec fn dec_bytes(s: Seq<u8>, pos: int) -> Option<(Seq<u8>, int)> {
    match dec_u32(s, pos) {
        None => None,
        Some((n, p)) => {
            if p + n <= s.len() {
                Some((s.subrange(p, p + n), p + n))
            } else {
                None
            }
        },
    }
}

/// Parse exactly `n` consecutive addresses at `pos`.
pub open spec fn dec_addr_list(s: Seq<u8>, pos: int, n: nat) -> Option<(Seq<Seq<u8>>, int)>
    decreases n,
{
    if n == 0 {
        Some((Seq::empty(), pos))
    } else {
        match dec_addr(s, pos) {
            None => None,
            Some((a, p)) => match dec_addr_list(s, p, (n - 1) as nat) {
                None => None,
                Some((rest, p2)) => Some((seq![a] + rest, p2)),
            },
        }
    }
}

/// Parse a count-prefixed address list at `pos`.
pub open spec fn dec_addrs(s: Seq<u8>, pos: int) -> Option<(Seq<Seq<u8>>, int)> {
    match dec_u32(s, pos) {
        None => None,
        Some((n, p)) => dec_addr_list(s, p, n as nat),
    }
}

/// Parse an optional address at `pos`.
pub open spec fn dec_opt_addr(s: Seq<u8>, pos: int) -> Option<(Option<Seq<u8>>, int)> {
    match dec_bool(s, pos) {
        None => None,
        Some((present, p)) => {
            if present {
                match dec_addr(s, p) {
                    None => None,
                    Some((a, p2)) => Some((Some(a), p2)),
                }
            } else {
                Some((None, p))
            }
        },
    }
}

/// Parse an optional 64-bit scalar at `pos`.
pub open spec fn dec_opt_u64(s: Seq<u8>, pos: int) -> Option<(Option<u64>, int)> {
    match dec_bool(s, pos) {
        None => None,
        Some((present, p)) => {
            if present {
                match dec_u64(s, p) {
                    None => None,
                    Some((v, p2)) => Some((Some(v), p2)),
                }
            } else {
                Some((None, p))
            }
        },
    }
}

// ---------------------------------------------------------------------
// Round-trip lemmas for the scalar primitives
// ---------------------------------------------------------------------

/// Reading back the four little-endian bytes of `v` yields `v`.
pub proof fn lemma_u32_le_identity(v: u32)
    ensures
        u32_from_le_bytes(
            (v & 0xff) as u8,
            ((v >> 8) & 0xff) as u8,
            ((v >> 16) & 0xff) as u8,
            ((v >> 24) & 0xff) as u8,
        ) == v,
{
    assert(((v & 0xff) as u8 as u32) | (((v >> 8) & 0xff) as u8 as u32) << 8
        | (((v >> 16) & 0xff) as u8 as u32) << 16 | (((v >> 24) & 0xff) as u8 as u32) << 24
        == v) by (bit_vector);
}

/// The little-endian bytes of the scalar read from four bytes are those
/// four bytes.
pub proof fn lemma_u32_le_bytes_identity(b0: u8, b1: u8, b2: u8, b3: u8)
    ensures
        u32_le_bytes(u32_from_le_bytes(b0, b1, b2, b3)) == seq![b0, b1, b2, b3],
{
    let v = u32_from_le_bytes(b0, b1, b2, b3);
    assert((((b0 as u32) | (b1 as u32) << 8 | (b2 as u32) << 16 | (b3 as u32) << 24) & 0xff) as u8
        == b0) by (bit_vector);
    assert(((((b0 as u32) | (b1 as u32) << 8 | (b2 as u32) << 16 | (b3 as u32) << 24) >> 8) & 0xff)
        as u8 == b1) by (bit_vector);
    assert(((((b0 as u32) | (b1 as u32) << 8 | (b2 as u32) << 16 | (b3 as u32) << 24) >> 16) & 0xff)
        as u8 == b2) by (bit_vector);
    assert(((((b0 as u32) | (b1 as u32) << 8 | (b2 as u32) << 16 | (b3 as u32) << 24) >> 24) & 0xff)
        as u8 == b3) by (bit_vector);
    assert(u32_le_bytes(v) =~= seq![b0, b1, b2, b3]);
}

/// Reading back the eight little-endian bytes of `v` yields `v`.
pub proof fn lemma_u64_le_identity(v: u64)
    ensures
        u64_from_le_bytes(
            (v & 0xff) as u8,
            ((v >> 8) & 0xff) as u8,
            ((v >> 16) & 0xff) as u8,
            ((v >> 24) & 0xff) as u8,
            ((v >> 32) & 0xff) as u8,
            ((v >> 40) & 0xff) as u8,
            ((v >> 48) & 0xff) as u8,
            ((v >> 56) & 0xff) as u8,
        ) == v,
{
    assert(((v & 0xff) as u8 as u64) | (((v >> 8) & 0xff) as u8 as u64) << 8
        | (((v >> 16) & 0xff) as u8 as u64) << 16 | (((v >> 24) & 0xff) as u8 as u64) << 24
        | (((v >> 32) & 0xff) as u8 as u64) << 32 | (((v >> 40) & 0xff) as u8 as u64) << 40
        | (((v >> 48) & 0xff) as u8 as u64) << 48 | (((v >> 56) & 0xff) as u8 as u64) << 56
        == v) by (bit_vector);
}

/// The little-endian bytes of the scalar read from eight bytes are those
/// eight bytes.
pub proof fn lemma_u64_le_bytes_identity(
    b0: u8, b1: u8, b2: u8, b3: u8, b4: u8, b5: u8, b6: u8, b7: u8,
)
    ensures
        u64_le_bytes(u64_from_le_bytes(b0, b1, b2, b3, b4, b5, b6, b7))
            == seq![b0, b1, b2, b3, b4, b5, b6, b7],
{
    let v = u64_from_le_bytes(b0, b1, b2, b3, b4, b5, b6, b7);
    assert({
        let w = (b0 as u64) | (b1 as u64) << 8 | (b2 as u64) << 16 | (b3 as u64) << 24
            | (b4 as u64) << 32 | (b5 as u64) << 40 | (b6 as u64) << 48 | (b7 as u64) << 56;
        (w & 0xff) as u8 == b0 && ((w >> 8) & 0xff) as u8 == b1 && ((w >> 16) & 0xff) as u8 == b2
            && ((w >> 24) & 0xff) as u8 == b3 && ((w >> 32) & 0xff) as u8 == b4
            && ((w >> 40) & 0xff) as u8 == b5 && ((w >> 48) & 0xff) as u8 == b6
            && ((w >> 56) & 0xff) as u8 == b7
    }) by (bit_vector);
    assert(u64_le_bytes(v) =~= seq![b0, b1, b2, b3, b4, b5, b6, b7]);
}

} // verus!

verus! {

// ---------------------------------------------------------------------
// Executable readers
// ---------------------------------------------------------------------

/// Read a little-endian 32-bit scalar.
pub fn read_u32(data: &[u8], pos: usize) -> (r: Result<(u32, usize), BullPosterError>)
    ensures
        match r {
            Ok((v, p)) => dec_u32(data@, pos as int) == Some((v, p as int)),
            Err(e) => e == BullPosterError::MalformedRecord && dec_u32(data@, pos as int).is_none(),
        },
{
    if data.len() < 4 || pos > data.len() - 4 {
        return Err(BullPosterError::MalformedRecord);
    }
    let b0 = data[pos];
    let b1 = data[pos + 1];
    let b2 = data[pos + 2];
    let b3 = data[pos + 3];
    let v = (b0 as u32) | (b1 as u32) << 8 | (b2 as u32) << 16 | (b3 as u32) << 24;
    Ok((v, pos + 4))
}

/// Read a little-endian 64-bit scalar.
pub fn read_u64(data: &[u8], pos: usize) -> (r: Result<(u64, usize), BullPosterError>)
    ensures
        match r {
            Ok((v, p)) => dec_u64(data@, pos as int) == Some((v, p as int)),
            Err(e) => e == BullPosterError::MalformedRecord && dec_u64(data@, pos as int).is_none(),
        },
{
    if data.len() < 8 || pos > data.len() - 8 {
        return Err(BullPosterError::MalformedRecord);
    }
    let b0 = data[pos];
    let b1 = data[pos + 1];
    let b2 = data[pos + 2];
    let b3 = data[pos + 3];
    let b4 = data[pos + 4];
    let b5 = data[pos + 5];
    let b6 = data[pos + 6];
    let b7 = data[pos + 7];
    let v = (b0 as u64) | (b1 as u64) << 8 | (b2 as u64) << 16 | (b3 as u64) << 24
        | (b4 as u64) << 32 | (b5 as u64) << 40 | (b6 as u64) << 48 | (b7 as u64) << 56;
    Ok((v, pos + 8))
}

/// Read a boolean; only the bytes 0 and 1 are structurally valid.
pub fn read_bool(data: &[u8], pos: usize) -> (r: Result<(bool, usize), BullPosterError>)
    ensures
        match r {
            Ok((v, p)) => dec_bool(data@, pos as int) == Some((v, p as int)),
            Err(e) => e == BullPosterError::MalformedRecord && dec_bool(data@, pos as int).is_none(),
        },
{
    if pos >= data.len() {
        return Err(BullPosterError::MalformedRecord);
    }
    let b = data[pos];
    if b == 0 {
        Ok((false, pos + 1))
    } else if b == 1 {
        Ok((true, pos + 1))
    } else {
        Err(BullPosterError::MalformedRecord)
    }
}

/// Read a 32-byte address.
pub fn read_addr(data: &[u8], pos: usize) -> (r: Result<(Addr, usize), BullPosterError>)
    ensures
        match r {
            Ok((a, p)) => a.wf() && dec_addr(data@, pos as int) == Some((a@, p as int)),
            Err(e) => e == BullPosterError::MalformedRecord && dec_addr(data@, pos as int).is_none(),
        },
{
    let dlen = data.len();
    if dlen < 32 || pos > dlen - 32 {
        return Err(BullPosterError::MalformedRecord);
    }
    let mut bytes: Vec<u8> = Vec::new();
    let mut i: usize = 0;
    while i < 32
        invariant
            i <= 32,
            pos + 32 <= dlen,
            dlen == data@.len(),
            bytes@.len() == i,
            forall|j: int| 0 <= j < i ==> bytes@[j] == data@[pos + j],
        decreases 32 - i,
    {
        bytes.push(data[pos + i]);
        i += 1;
    }
    let a = Addr { bytes };
    assert(a@ =~= data@.subrange(pos as int, pos as int + 32));
    Ok((a, pos + 32))
}

/// Read a length-prefixed byte string.
pub fn read_bytes(data: &[u8], pos: usize) -> (r: Result<(Vec<u8>, usize), BullPosterError>)
    ensures
        match r {
            Ok((b, p)) => b@.len() <= u32::MAX
                && dec_bytes(data@, pos as int) == Some((b@, p as int)),
            Err(e) => e == BullPosterError::MalformedRecord
                && dec_bytes(data@, pos as int).is_none(),
        },
{
    let (n32, p) = match read_u32(data, pos) {
        Ok(x) => x,
        Err(e) => {
            return Err(e);
        },
    };
    let n = n32 as usize;
    let dlen = data.len();
    if n > dlen - p {
        return Err(BullPosterError::MalformedRecord);
    }
    let mut out: Vec<u8> = Vec::new();
    let mut i: usize = 0;
    while i < n
        invariant
            i <= n,
            p + n <= dlen,
            dlen == data@.len(),
            out@.len() == i,
            forall|j: int| 0 <= j < i ==> out@[j] == data@[p + j],
        decreases n - i,
    {
        out.push(data[p + i]);
        i += 1;
    }
    assert(out@ =~= data@.subrange(p as int, p as int + n as int));
    Ok((out, p + n))
}

/// Read a count-prefixed address list.
pub fn read_addrs(data: &[u8], pos: usize) -> (r: Result<(Vec<Addr>, usize), BullPosterError>)
    ensures
        match r {
            Ok((l, p)) => addrs_wf(l@) && l@.len() <= u32::MAX
                && (forall|i: int| 0 <= i < views_of(l@).len()
                    ==> (#[trigger] views_of(l@)[i]).len() == 32)
                && dec_addrs(data@, pos as int) == Some((views_of(l@), p as int)),
            Err(e) => e == BullPosterError::MalformedRecord
                && dec_addrs(data@, pos as int).is_none(),
        },
{
    let (n32, p0) = match read_u32(data, pos) {
        Ok(x) => x,
        Err(e) => {
            return Err(e);
        },
    };
    let n = n32 as usize;
    let mut out: Vec<Addr> = Vec::new();
    let mut p = p0;
    let mut i: usize = 0;
    proof {
        match dec_addr_list(data@, p0 as int, n as nat) {
            None => {},
            Some(pr) => {
                assert(views_of(out@) + pr.0 =~= pr.0);
            },
        }
    }
    while i < n
        invariant
            i <= n,
            n == n32 as usize,
            dec_u32(data@, pos as int) == Some((n32, p0 as int)),
            out@.len() == i,
            addrs_wf(out@),
            dec_addr_list(data@, p0 as int, n as nat) == match dec_addr_list(
                data@,
                p as int,
                (n - i) as nat,
            ) {
                None => None::<(Seq<Seq<u8>>, int)>,
                Some((rest, pe)) => Some((views_of(out@) + rest, pe)),
            },
        decreases n - i,
    {
        let (a, p2) = match read_addr(data, p) {
            Ok(x) => x,
            Err(e) => {
                proof {
                    assert(dec_addr_list(data@, p as int, (n - i) as nat).is_none());
                    assert(n as nat == n32 as nat);
                    assert(dec_addrs(data@, pos as int).is_none());
                }
                return Err(BullPosterError::MalformedRecord);
            },
        };
        proof {
            let ghost old_out = out@;
            assert(views_of(old_out.push(a)) =~= views_of(old_out) + seq![a@]);
        }
        let ghost prev_out = out@;
        let ghost prev_p = p as int;
        out.push(a);
        p = p2;
        i += 1;
        proof {
            assert(addrs_wf(out@)) by {
                assert(forall|k: int| 0 <= k < prev_out.len()
                    ==> (#[trigger] out@[k]) == prev_out[k]);
                assert(out@[prev_out.len() as int] == a);
            }
            match dec_addr_list(data@, p as int, (n - i) as nat) {
                None => {
                    assert(dec_addr_list(data@, prev_p, (n - i + 1) as nat).is_none());
                },
                Some((rest, pe)) => {
                    assert(dec_addr_list(data@, prev_p, (n - i + 1) as nat)
                        == Some((seq![a@] + rest, pe)));
                    assert(views_of(out@) =~= views_of(prev_out) + seq![a@]);
                    assert(views_of(prev_out) + (seq![a@] + rest)
                        =~= views_of(out@) + rest);
                },
            }
        }
    }
    proof {
        assert(dec_addr_list(data@, p as int, 0) == Some((Seq::<Seq<u8>>::empty(), p as int)));
        assert(views_of(out@) + Seq::<Seq<u8>>::empty() =~= views_of(out@));
        assert forall|k: int| 0 <= k < views_of(out@).len()
            implies (#[trigger] views_of(out@)[k]).len() == 32 by {
            assert(views_of(out@)[k] == out@[k]@);
        }
    }
    Ok((out, p))
}

/// Read an optional 32-byte address.
pub fn read_opt_addr(data: &[u8], pos: usize) -> (r: Result<
    (Option<Addr>, usize),
    BullPosterError,
>)
    ensures
        match r {
            Ok((o, p)) => match o {
                Some(a) => a.wf() && dec_opt_addr(data@, pos as int)
                    == Some((Some(a@), p as int)),
                None => dec_opt_addr(data@, pos as int) == Some((
                    None::<Seq<u8>>,
                    p as int,
                )),
            },
            Err(e) => e == BullPosterError::MalformedRecord
                && dec_opt_addr(data@, pos as int).is_none(),
        },
{
    let (present, p) = match read_bool(data, pos) {
        Ok(x) => x,
        Err(e) => {
            return Err(e);
        },
    };
    if present {
        let (a, p2) = match read_addr(data, p) {
            Ok(x) => x,
            Err(e) => {
                return Err(e);
            },
        };
        Ok((Some(a), p2))
    } else {
        Ok((None, p))
    }
}

/// Read an optional 64-bit scalar.
pub fn read_opt_u64(data: &[u8], pos: usize) -> (r: Result<
    (Option<u64>, usize),
    BullPosterError,
>)
    ensures
        match r {
            Ok((o, p)) => dec_opt_u64(data@, pos as int) == Some((o, p as int)),
            Err(e) => e == BullPosterError::MalformedRecord
                && dec_opt_u64(data@, pos as int).is_none(),
        },
{
    let (present, p) = match read_bool(data, pos) {
        Ok(x) => x,
        Err(e) => {
            return Err(e);
        },
    };
    if present {
        let (v, p2) = match read_u64(data, p) {
            Ok(x) => x,
            Err(e) => {
                return Err(e);
            },
        };
        Ok((Some(v), p2))
    } else {
        Ok((None, p))
    }
}

} // verus!

verus! {

// ---------------------------------------------------------------------
// Executable writers: each appends one field's encoding to an output
// vector under construction.
// ---------------------------------------------------------------------

/// Append the four little-endian bytes of `v`.
pub fn push_u32(out: &mut Vec<u8>, v: u32)
    ensures
        final(out)@ == old(out)@ + u32_le_bytes(v),
{
    let b0 = (v & 0xff) as u8;
    let b1 = ((v >> 8) & 0xff) as u8;
    let b2 = ((v >> 16) & 0xff) as u8;
    let b3 = ((v >> 24) & 0xff) as u8;
    out.push(b0);
    out.push(b1);
    out.push(b2);
    out.push(b3);
    assert(out@ =~= old(out)@ + u32_le_bytes(v));
}

/// Append the eight little-endian bytes of `v`.
pub fn push_u64(out: &mut Vec<u8>, v: u64)
    ensures
        final(out)@ == old(out)@ + u64_le_bytes(v),
{
    let b0 = (v & 0xff) as u8;
    let b1 = ((v >> 8) & 0xff) as u8;
    let b2 = ((v >> 16) & 0xff) as u8;
    let b3 = ((v >> 24) & 0xff) as u8;
    let b4 = ((v >> 32) & 0xff) as u8;
    let b5 = ((v >> 40) & 0xff) as u8;
    let b6 = ((v >> 48) & 0xff) as u8;
    let b7 = ((v >> 56) & 0xff) as u8;
    out.push(b0);
    out.push(b1);
    out.push(b2);
    out.push(b3);
    out.push(b4);
    out.push(b5);
    out.push(b6);
    out.push(b7);
    assert(out@ =~= old(out)@ + u64_le_bytes(v));
}

/// Append a boolean as one byte.
pub fn push_bool(out: &mut Vec<u8>, b: bool)
    ensures
        final(out)@ == old(out)@ + enc_bool(b),
{
    out.push(if b { 1u8 } else { 0u8 });
    assert(out@ =~= old(out)@ + enc_bool(b));
}

/// Append an address's 32 bytes.
pub fn push_addr(out: &mut Vec<u8>, a: &Addr)
    requires
        a.wf(),
    ensures
        final(out)@ == old(out)@ + enc_addr(a@),
{
    let mut i: usize = 0;
    while i < 32
        invariant
            i <= 32,
            a.bytes@.len() == 32,
            out@ == old(out)@ + a@.subrange(0, i as int),
        decreases 32 - i,
    {
        out.push(a.bytes[i]);
        assert(out@ =~= old(out)@ + a@.subrange(0, i + 1));
        i += 1;
    }
    assert(a@.subrange(0, 32) =~= a@);
}

/// Append a length-prefixed byte string.
pub fn push_bytes(out: &mut Vec<u8>, b: &Vec<u8>)
    requires
        b@.len() <= u32::MAX,
    ensures
        final(out)@ == old(out)@ + enc_bytes(b@),
{
    push_u32(out, b.len() as u32);
    let ghost mid = out@;
    let n = b.len();
    let mut i: usize = 0;
    while i < n
        invariant
            i <= n,
            n == b@.len(),
            out@ == mid + b@.subrange(0, i as int),
        decreases n - i,
    {
        out.push(b[i]);
        assert(out@ =~= mid + b@.subrange(0, i + 1));
        i += 1;
    }
    assert(b@.subrange(0, n as int) =~= b@);
    assert(out@ =~= old(out)@ + enc_bytes(b@));
}

/// Append a count-prefixed address list.
pub fn push_addrs(out: &mut Vec<u8>, l: &Vec<Addr>)
    requires
        l@.len() <= u32::MAX,
        addrs_wf(l@),
    ensures
        final(out)@ == old(out)@ + enc_addrs(views_of(l@)),
{
    push_u32(out, l.len() as u32);
    let ghost mid = out@;
    let n = l.len();
    let mut i: usize = 0;
    while i < n
        invariant
            i <= n,
            n == l@.len(),
            addrs_wf(l@),
            out@ == mid + cat_addrs(views_of(l@).subrange(0, i as int)),
        decreases n - i,
    {
        proof {
            assert(cat_addrs(views_of(l@).subrange(0, 0)) =~= Seq::<u8>::empty());
        }
        push_addr(out, &l[i]);
        proof {
            let vs = views_of(l@);
            lemma_cat_addrs_snoc(vs.subrange(0, i as int), vs[i as int]);
            assert(vs.subrange(0, i as int).push(vs[i as int]) =~= vs.subrange(0, i + 1));
            assert(out@ =~= mid + cat_addrs(vs.subrange(0, i + 1)));
        }
        i += 1;
    }
    proof {
        assert(views_of(l@).subrange(0, n as int) =~= views_of(l@));
        assert(out@ =~= old(out)@ + enc_addrs(views_of(l@)));
    }
}

/// Appending one more address to a list extends its concatenation.
pub proof fn lemma_cat_addrs_snoc(l: Seq<Seq<u8>>, a: Seq<u8>)
    ensures
        cat_addrs(l.push(a)) == cat_addrs(l) + a,
    decreases l.len(),
{
    if l.len() == 0 {
        assert(l.push(a)[0] == a);
        assert(l.push(a).drop_first() =~= Seq::<Seq<u8>>::empty());
        assert(cat_addrs(Seq::<Seq<u8>>::empty()) == Seq::<u8>::empty());
        assert(cat_addrs(l.push(a)) == a + cat_addrs(l.push(a).drop_first()));
        assert(cat_addrs(l.push(a)) =~= cat_addrs(l) + a);
    } else {
        assert(l.push(a).drop_first() =~= l.drop_first().push(a));
        lemma_cat_addrs_snoc(l.drop_first(), a);
        assert(cat_addrs(l.push(a)) == l[0] + cat_addrs(l.drop_first().push(a)));
        assert(cat_addrs(l.push(a)) =~= cat_addrs(l) + a);
    }
}

/// Append an optional address.
pub fn push_opt_addr(out: &mut Vec<u8>, o: &Option<Addr>)
    requires
        match o {
            Some(a) => a.wf(),
            None => true,
        },
    ensures
        final(out)@ == old(out)@ + enc_opt_addr(match o {
            Some(a) => Some(a@),
            None => None,
        }),
{
    match o {
        Some(a) => {
            push_bool(out, true);
            push_addr(out, a);
            assert(out@ =~= old(out)@ + enc_opt_addr(Some(a@)));
        },
        None => {
            push_bool(out, false);
            assert(out@ =~= old(out)@ + enc_opt_addr(None::<Seq<u8>>));
        },
    }
}

/// Append an optional 64-bit scalar.
pub fn push_opt_u64(out: &mut Vec<u8>, o: &Option<u64>)
    ensures
        final(out)@ == old(out)@ + enc_opt_u64(*o),
{
    match o {
        Some(v) => {
            push_bool(out, true);
            push_u64(out, *v);
            assert(out@ =~= old(out)@ + enc_opt_u64(Some(*v)));
        },
        None => {
            push_bool(out, false);
            assert(out@ =~= old(out)@ + enc_opt_u64(None::<u64>));
        },
    }
}

// ---------------------------------------------------------------------
// Fixed-capacity buffer helpers
// ---------------------------------------------------------------------

/// Copy `src` over the front of `dst`, leaving the rest of `dst`
/// untouched. The buffer keeps its capacity.
pub fn copy_into(dst: &mut Vec<u8>, src: &Vec<u8>)
    requires
        src@.len() <= old(dst)@.len(),
    ensures
        final(dst)@.len() == old(dst)@.len(),
        final(dst)@.subrange(0, src@.len() as int) == src@,
        forall|i: int| src@.len() <= i < old(dst)@.len()
            ==> final(dst)@[i] == old(dst)@[i],
{
    let n = src.len();
    let mut i: usize = 0;
    while i < n
        invariant
            i <= n,
            n == src@.len(),
            dst@.len() == old(dst)@.len(),
            n <= dst@.len(),
            forall|j: int| 0 <= j < i ==> dst@[j] == src@[j],
            forall|j: int| i <= j < dst@.len() ==> dst@[j] == old(dst)@[j],
        decreases n - i,
    {
        dst.set(i, src[i]);
        i += 1;
    }
    assert(dst@.subrange(0, n as int) =~= src@);
}

/// Zero the byte range `[from, to)` of a buffer, leaving everything
/// else untouched.
pub fn zero_range(buf: &mut Vec<u8>, from: usize, to: usize)
    requires
        from <= to,
        to <= old(buf)@.len(),
    ensures
        final(buf)@.len() == old(buf)@.len(),
        forall|i: int| 0 <= i < from ==> final(buf)@[i] == old(buf)@[i],
        forall|i: int| from <= i < to ==> final(buf)@[i] == 0u8,
        forall|i: int| to <= i < old(buf)@.len() ==> final(buf)@[i] == old(buf)@[i],
{
    let mut i = from;
    while i < to
        invariant
            from <= i <= to,
            to <= buf@.len(),
            buf@.len() == old(buf)@.len(),
            forall|j: int| 0 <= j < from ==> buf@[j] == old(buf)@[j],
            forall|j: int| from <= j < i ==> buf@[j] == 0u8,
            forall|j: int| i <= j < buf@.len() ==> buf@[j] == old(buf)@[j],
        decreases to - i,
    {
        buf.set(i, 0u8);
        i += 1;
    }
}

} // verus!

verus! {

// ---------------------------------------------------------------------
// Decode-of-encode lemmas: a buffer that carries a field's encoding at
// `pos` parses back to the value that was encoded.
// ---------------------------------------------------------------------

/// A subrange of a subrange, re-addressed from the outer sequence.
pub proof fn lemma_subrange_of_subrange(s: Seq<u8>, pos: int, len: int, i: int, j: int)
    requires
        0 <= pos,
        0 <= i <= j <= len,
        pos + len <= s.len(),
    ensures
        s.subrange(pos + i, pos + j) == s.subrange(pos, pos + len).subrange(i, j),
{
    assert(s.subrange(pos + i, pos + j) =~= s.subrange(pos, pos + len).subrange(i, j));
}

/// A 32-bit scalar's encoding parses back to the scalar.
pub proof fn lemma_dec_u32_of_enc(s: Seq<u8>, pos: int, v: u32)
    requires
        0 <= pos,
        pos + 4 <= s.len(),
        s.subrange(pos, pos + 4) == u32_le_bytes(v),
    ensures
        dec_u32(s, pos) == Some((v, pos + 4)),
{
    assert(s[pos] == u32_le_bytes(v)[0]);
    assert(s[pos + 1] == u32_le_bytes(v)[1]);
    assert(s[pos + 2] == u32_le_bytes(v)[2]);
    assert(s[pos + 3] == u32_le_bytes(v)[3]);
    lemma_u32_le_identity(v);
}

/// A 64-bit scalar's encoding parses back to the scalar.
pub proof fn lemma_dec_u64_of_enc(s: Seq<u8>, pos: int, v: u64)
    requires
        0 <= pos,
        pos + 8 <= s.len(),
        s.subrange(pos, pos + 8) == u64_le_bytes(v),
    ensures
        dec_u64(s, pos) == Some((v, pos + 8)),
{
    assert(forall|j: int| 0 <= j < 8 ==> s[pos + j] == #[trigger] u64_le_bytes(v)[j]);
    lemma_u64_le_identity(v);
}

/// A boolean's encoding parses back to the boolean.
pub proof fn lemma_dec_bool_of_enc(s: Seq<u8>, pos: int, b: bool)
    requires
        0 <= pos,
        pos + 1 <= s.len(),
        s.subrange(pos, pos + 1) == enc_bool(b),
    ensures
        dec_bool(s, pos) == Some((b, pos + 1)),
{
    assert(s[pos] == enc_bool(b)[0]);
}

/// An address's encoding parses back to the address.
pub proof fn lemma_dec_addr_of_enc(s: Seq<u8>, pos: int, a: Seq<u8>)
    requires
        0 <= pos,
        a.len() == 32,
        pos + 32 <= s.len(),
        s.subrange(pos, pos + 32) == a,
    ensures
        dec_addr(s, pos) == Some((a, pos + 32)),
{
}

/// A byte string's encoding parses back to the byte string.
pub proof fn lemma_dec_bytes_of_enc(s: Seq<u8>, pos: int, b: Seq<u8>)
    requires
        0 <= pos,
        b.len() <= u32::MAX,
        pos + enc_bytes(b).len() <= s.len(),
        s.subrange(pos, pos + enc_bytes(b).len()) == enc_bytes(b),
    ensures
        dec_bytes(s, pos) == Some((b, pos + enc_bytes(b).len())),
{
    let n32 = b.len() as u32;
    let e = enc_bytes(b);
    lemma_subrange_of_subrange(s, pos, e.len() as int, 0, 4);
    assert(e.subrange(0, 4) =~= u32_le_bytes(n32));
    lemma_dec_u32_of_enc(s, pos, n32);
    lemma_subrange_of_subrange(s, pos, e.len() as int, 4, e.len() as int);
    assert(e.subrange(4, e.len() as int) =~= b);
    assert(s.subrange(pos + 4, pos + 4 + n32 as int) == b);
}

/// The concatenation of `n` addresses parses back to those addresses.
pub proof fn lemma_dec_addr_list_of_cat(s: Seq<u8>, pos: int, l: Seq<Seq<u8>>)
    requires
        0 <= pos,
        forall|i: int| 0 <= i < l.len() ==> (#[trigger] l[i]).len() == 32,
        pos + cat_addrs(l).len() <= s.len(),
        s.subrange(pos, pos + cat_addrs(l).len()) == cat_addrs(l),
    ensures
        dec_addr_list(s, pos, l.len()) == Some((l, pos + cat_addrs(l).len())),
    decreases l.len(),
{
    if l.len() == 0 {
        assert(l =~= Seq::<Seq<u8>>::empty());
    } else {
        let a = l[0];
        let rest = l.drop_first();
        let cl = cat_addrs(l);
        assert(cl == a + cat_addrs(rest));
        lemma_subrange_of_subrange(s, pos, cl.len() as int, 0, 32);
        assert(cl.subrange(0, 32) =~= a);
        lemma_dec_addr_of_enc(s, pos, a);
        lemma_subrange_of_subrange(s, pos, cl.len() as int, 32, cl.len() as int);
        assert(cl.subrange(32, cl.len() as int) =~= cat_addrs(rest));
        assert(s.subrange(pos + 32, pos + 32 + cat_addrs(rest).len())
            == cat_addrs(rest));
        lemma_dec_addr_list_of_cat(s, pos + 32, rest);
        assert(seq![a] + rest =~= l);
    }
}

/// An address list's encoding parses back to the list.
pub proof fn lemma_dec_addrs_of_enc(s: Seq<u8>, pos: int, l: Seq<Seq<u8>>)
    requires
        0 <= pos,
        l.len() <= u32::MAX,
        forall|i: int| 0 <= i < l.len() ==> (#[trigger] l[i]).len() == 32,
        pos + enc_addrs(l).len() <= s.len(),
        s.subrange(pos, pos + enc_addrs(l).len()) == enc_addrs(l),
    ensures
        dec_addrs(s, pos) == Some((l, pos + enc_addrs(l).len())),
{
    let n32 = l.len() as u32;
    let e = enc_addrs(l);
    lemma_subrange_of_subrange(s, pos, e.len() as int, 0, 4);
    assert(e.subrange(0, 4) =~= u32_le_bytes(n32));
    lemma_dec_u32_of_enc(s, pos, n32);
    lemma_subrange_of_subrange(s, pos, e.len() as int, 4, e.len() as int);
    assert(e.subrange(4, e.len() as int) =~= cat_addrs(l));
    assert(s.subrange(pos + 4, pos + 4 + cat_addrs(l).len()) == cat_addrs(l));
    lemma_dec_addr_list_of_cat(s, pos + 4, l);
}

/// An optional address's encoding parses back to the option.
pub proof fn lemma_dec_opt_addr_of_enc(s: Seq<u8>, pos: int, o: Option<Seq<u8>>)
    requires
        0 <= pos,
        match o {
            Some(a) => a.len() == 32,
            None => true,
        },
        pos + enc_opt_addr(o).len() <= s.len(),
        s.subrange(pos, pos + enc_opt_addr(o).len()) == enc_opt_addr(o),
    ensures
        dec_opt_addr(s, pos) == Some((o, pos + enc_opt_addr(o).len())),
{
    match o {
        None => {
            assert(s.subrange(pos, pos + 1) =~= enc_bool(false));
            lemma_dec_bool_of_enc(s, pos, false);
        },
        Some(a) => {
            let e = enc_opt_addr(o);
            lemma_subrange_of_subrange(s, pos, 33, 0, 1);
            assert(e.subrange(0, 1) =~= enc_bool(true));
            lemma_dec_bool_of_enc(s, pos, true);
            lemma_subrange_of_subrange(s, pos, 33, 1, 33);
            assert(e.subrange(1, 33) =~= a);
            assert(s.subrange(pos + 1, pos + 33) == a);
            lemma_dec_addr_of_enc(s, pos + 1, a);
        },
    }
}

/// An optional 64-bit scalar's encoding parses back to the option.
pub proof fn lemma_dec_opt_u64_of_enc(s: Seq<u8>, pos: int, o: Option<u64>)
    requires
        0 <= pos,
        pos + enc_opt_u64(o).len() <= s.len(),
        s.subrange(pos, pos + enc_opt_u64(o).len()) == enc_opt_u64(o),
    ensures
        dec_opt_u64(s, pos) == Some((o, pos + enc_opt_u64(o).len())),
{
    match o {
        None => {
            assert(s.subrange(pos, pos + 1) =~= enc_bool(false));
            lemma_dec_bool_of_enc(s, pos, false);
        },
        Some(v) => {
            let e = enc_opt_u64(o);
            lemma_subrange_of_subrange(s, pos, 9, 0, 1);
            assert(e.subrange(0, 1) =~= enc_bool(true));
            lemma_dec_bool_of_enc(s, pos, true);
            lemma_subrange_of_subrange(s, pos, 9, 1, 9);
            assert(e.subrange(1, 9) =~= u64_le_bytes(v));
            assert(s.subrange(pos + 1, pos + 9) == u64_le_bytes(v));
            lemma_dec_u64_of_enc(s, pos + 1, v);
        },
    }
}

} // verus!

verus! {

/// Write a fully encoded record over the front of a fixed-capacity
/// buffer. The capacity never changes; bytes past the record keep their
/// previous contents (the caller zeroes a vacated tail, see
/// `zero_range`).
pub fn write_record(buffer: &mut Vec<u8>, rec: &Vec<u8>) -> (r: Result<usize, BullPosterError>)
    ensures
        final(buffer)@.len() == old(buffer)@.len(),
        match r {
            Ok(n) => n as int == rec@.len() && rec@.len() <= old(buffer)@.len()
                && final(buffer)@.subrange(0, n as int) == rec@
                && (forall|i: int| n <= i < final(buffer)@.len()
                    ==> final(buffer)@[i] == old(buffer)@[i]),
            Err(e) => e == BullPosterError::BufferTooSmall
                && rec@.len() > old(buffer)@.len()
                && final(buffer)@ == old(buffer)@,
        },
{
    if rec.len() > buffer.len() {
        return Err(BullPosterError::BufferTooSmall);
    }
    copy_into(buffer, rec);
    Ok(rec.len())
}

} // verus!

verus! {

/// Structural facts about a successfully parsed address list: it holds
/// exactly `n` addresses of 32 bytes each and consumes `32 * n` bytes.
pub proof fn lemma_dec_addr_list_props(s: Seq<u8>, pos: int, n: nat)
    ensures
        match dec_addr_list(s, pos, n) {
            Some((l, p)) => l.len() == n
                && (forall|i: int| 0 <= i < l.len() ==> (#[trigger] l[i]).len() == 32)
                && p == pos + 32 * n
                && (n > 0 ==> 0 <= pos && p <= s.len()),
            None => true,
        },
    decreases n,
{
    if n > 0 {
        match dec_addr(s, pos) {
            None => {},
            Some((a, p)) => {
                lemma_dec_addr_list_props(s, p, (n - 1) as nat);
                match dec_addr_list(s, p, (n - 1) as nat) {
                    None => {},
                    Some((rest, p2)) => {
                        let l = seq![a] + rest;
                        assert(l.len() == n);
                        assert forall|i: int| 0 <= i < l.len()
                            implies (#[trigger] l[i]).len() == 32 by {
                            if i == 0 {
                                assert(l[0] == a);
                            } else {
                                assert(l[i] == rest[i - 1]);
                            }
                        }
                    },
                }
            },
        }
    }
}

} // verus!

verus! {

/// Splitting a parsed concatenation: a buffer that carries `a + b` at
/// `pos` carries `a` at `pos` and `b` right after it.
pub proof fn lemma_split_concat(s: Seq<u8>, pos: int, a: Seq<u8>, b: Seq<u8>)
    requires
        0 <= pos,
        pos + a.len() + b.len() <= s.len(),
        s.subrange(pos, pos + a.len() + b.len()) == a + b,
    ensures
        s.subrange(pos, pos + a.len()) == a,
        s.subrange(pos + a.len(), pos + a.len() + b.len()) == b,
{
    assert(s.subrange(pos, pos + a.len()) =~= (a + b).subrange(0, a.len() as int));
    assert((a + b).subrange(0, a.len() as int) =~= a);
    assert(s.subrange(pos + a.len(), pos + a.len() + b.len())
        =~= (a + b).subrange(a.len() as int, (a + b).len() as int));
    assert((a + b).subrange(a.len() as int, (a + b).len() as int) =~= b);
}

} // verus!

verus! {

/// Byte-for-byte equality of two byte vectors.
pub fn bytes_eq(a: &Vec<u8>, b: &Vec<u8>) -> (r: bool)
    ensures
        r == (a@ == b@),
{
    if a.len() != b.len() {
        assert(a@ != b@);
        return false;
    }
    let n = a.len();
    let mut i: usize = 0;
    while i < n
        invariant
            i <= n,
            n == a@.len(),
            n == b@.len(),
            forall|j: int| 0 <= j < i ==> a@[j] == b@[j],
        decreases n - i,
    {
        if a[i] != b[i] {
            assert(a@ != b@);
            return false;
        }
        i += 1;
    }
    assert(a@ =~= b@);
    true
}

} // verus!
