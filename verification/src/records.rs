//! Byte layout of the fixed-size records the dispatcher writes onto the user
//! signal stack: the signal-info record and the user-context record, both
//! little-endian at fixed offsets.

use vstd::prelude::*;
use vstd::bytes::{
    spec_u64_from_le_bytes, spec_u64_to_le_bytes, lemma_auto_spec_u64_to_from_le_bytes,
    spec_u64_to_le_bytes_to_open,
};
use crate::info::SigInfo;
use crate::ucontext::SignalUserContext;

verus! {

/// Size in bytes of the signal-info record on the user stack.
pub const SIG_INFO_SIZE: usize = 40;

/// Size in bytes of the user-context record on the user stack.
pub const UCTX_SIZE: usize = 16;

/// Offset of the program counter inside the user-context record.
pub const UCTX_PC_OFFSET: usize = 0;

/// The four little-endian bytes of `x`.
pub open spec fn spec_u32_le(x: u32) -> Seq<u8> {
    seq![
        (x & 0xff) as u8,
        ((x >> 8) & 0xff) as u8,
        ((x >> 16) & 0xff) as u8,
        ((x >> 24) & 0xff) as u8,
    ]
}

/// The signal-info record as bytes: seven 32-bit fields, four bytes of
/// padding, then the pointer-sized value, all little-endian.
pub open spec fn spec_siginfo_bytes(si: SigInfo) -> Seq<u8> {
    spec_u32_le(si.si_signo as u32) + spec_u32_le(si.si_errno as u32)
        + spec_u32_le(si.si_code as u32) + spec_u32_le(si.pad)
        + spec_u32_le(si.pid as u32) + spec_u32_le(si.uid)
        + spec_u32_le(si.si_val_int as u32) + spec_u32_le(0u32)
        + spec_u64_to_le_bytes(si.si_val_ptr as u64)
}

/// The user-context record as bytes: program counter then mask, each eight
/// bytes little-endian.
pub open spec fn spec_ucontext_bytes(uc: SignalUserContext) -> Seq<u8> {
    spec_u64_to_le_bytes(uc.pc as u64) + spec_u64_to_le_bytes(uc.mask)
}

/// Appends the four little-endian bytes of `x`.
fn push_u32_le(buf: &mut Vec<u8>, x: u32)
    ensures
        final(buf)@ == old(buf)@ + spec_u32_le(x),
{
    buf.push((x & 0xff) as u8);
    buf.push(((x >> 8) & 0xff) as u8);
    buf.push(((x >> 16) & 0xff) as u8);
    buf.push(((x >> 24) & 0xff) as u8);
    proof {
        assert(buf@ =~= old(buf)@ + spec_u32_le(x));
    }
}

/// Appends the eight little-endian bytes of `x`.
fn push_u64_le(buf: &mut Vec<u8>, x: u64)
    ensures
        final(buf)@ == old(buf)@ + spec_u64_to_le_bytes(x),
{
    proof {
        spec_u64_to_le_bytes_to_open(x);
    }
    buf.push((x & 0xff) as u8);
    buf.push(((x >> 8) & 0xff) as u8);
    buf.push(((x >> 16) & 0xff) as u8);
    buf.push(((x >> 24) & 0xff) as u8);
    buf.push(((x >> 32) & 0xff) as u8);
    buf.push(((x >> 40) & 0xff) as u8);
    buf.push(((x >> 48) & 0xff) as u8);
    buf.push(((x >> 56) & 0xff) as u8);
    proof {
        assert(buf@ =~= old(buf)@ + spec_u64_to_le_bytes(x));
    }
}

/// Serializes the signal-info record.
pub fn siginfo_to_bytes(si: &SigInfo) -> (r: Vec<u8>)
    ensures
        r@ == spec_siginfo_bytes(*si),
        r@.len() == SIG_INFO_SIZE,
{
    let mut buf: Vec<u8> = Vec::new();
    push_u32_le(&mut buf, #[verifier::truncate] (si.si_signo as u32));
    push_u32_le(&mut buf, #[verifier::truncate] (si.si_errno as u32));
    push_u32_le(&mut buf, #[verifier::truncate] (si.si_code as u32));
    push_u32_le(&mut buf, si.pad);
    push_u32_le(&mut buf, #[verifier::truncate] (si.pid as u32));
    push_u32_le(&mut buf, si.uid);
    push_u32_le(&mut buf, #[verifier::truncate] (si.si_val_int as u32));
    push_u32_le(&mut buf, 0u32);
    push_u64_le(&mut buf, si.si_val_ptr as u64);
    proof {
        assert(buf@ =~= spec_siginfo_bytes(*si));
        lemma_auto_spec_u64_to_from_le_bytes();
    }
    buf
}

/// Serializes the user-context record.
pub fn ucontext_to_bytes(uc: &SignalUserContext) -> (r: Vec<u8>)
    ensures
        r@ == spec_ucontext_bytes(*uc),
        r@.len() == UCTX_SIZE,
{
    let mut buf: Vec<u8> = Vec::new();
    push_u64_le(&mut buf, uc.pc as u64);
    push_u64_le(&mut buf, uc.mask);
    proof {
        assert(buf@ =~= spec_ucontext_bytes(*uc));
        lemma_auto_spec_u64_to_from_le_bytes();
    }
    buf
}

/// Reads the little-endian 64-bit value at offset `off` of `b`.
pub fn u64_from_le_at(b: &Vec<u8>, off: usize) -> (r: u64)
    requires
        off + 8 <= b@.len(),
    ensures
        r == spec_u64_from_le_bytes(b@.subrange(off as int, off as int + 8)),
        spec_u64_to_le_bytes(r) == b@.subrange(off as int, off as int + 8),
{
    let n = b.len();
    proof {
        assert(off + 8 <= n);
    }
    let b0 = b[off] as u64;
    let b1 = b[off + 1] as u64;
    let b2 = b[off + 2] as u64;
    let b3 = b[off + 3] as u64;
    let b4 = b[off + 4] as u64;
    let b5 = b[off + 5] as u64;
    let b6 = b[off + 6] as u64;
    let b7 = b[off + 7] as u64;
    let r = b0 | b1 << 8 | b2 << 16 | b3 << 24 | b4 << 32 | b5 << 40 | b6 << 48 | b7 << 56;
    proof {
        let s = b@.subrange(off as int, off as int + 8);
        assert((
            (r == b0 | b1 << 8 | b2 << 16 | b3 << 24 | b4 << 32 | b5 << 40 | b6 << 48 | b7 << 56)
            && (b0 < 256) && (b1 < 256) && (b2 < 256) && (b3 < 256)
            && (b4 < 256) && (b5 < 256) && (b6 < 256) && (b7 < 256)
        ) ==> (
            b0 == (r & 0xff) && b1 == ((r >> 8) & 0xff) && b2 == ((r >> 16) & 0xff)
            && b3 == ((r >> 24) & 0xff) && b4 == ((r >> 32) & 0xff) && b5 == ((r >> 40) & 0xff)
            && b6 == ((r >> 48) & 0xff) && b7 == ((r >> 56) & 0xff)
        )) by (bit_vector);
        spec_u64_to_le_bytes_to_open(r);
        assert(spec_u64_to_le_bytes(r) =~= s);
        lemma_auto_spec_u64_to_from_le_bytes();
    }
    r
}

} // verus!
