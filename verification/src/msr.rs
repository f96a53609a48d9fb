//! Model-specific registers: their addresses per CPU vendor, and the
//! little-endian byte layout used to request and return a register value.

use vstd::prelude::*;
use crate::error::RaplError;

verus! {

/// The value of a little-endian byte sequence.
pub open spec fn le_value(b: Seq<u8>) -> nat
    decreases b.len(),
{
    if b.len() == 0 {
        0
    } else {
        b[0] as nat + 256 * le_value(b.drop_first())
    }
}

/// The `k` lowest little-endian bytes of `n`.
pub open spec fn le_bytes(n: nat, k: nat) -> Seq<u8>
    decreases k,
{
    if k == 0 {
        Seq::empty()
    } else {
        seq![(n % 256) as u8] + le_bytes(n / 256, (k - 1) as nat)
    }
}

/// The bytes that ask the MSR driver for register `msr`: its index in little-endian order.
pub fn msr_request(msr: u32) -> (res: [u8; 4])
    ensures
        res@ == le_bytes(msr as nat, 4),
{
    let b0: u8 = (msr & 0xff) as u8;
    let b1: u8 = ((msr >> 8u32) & 0xff) as u8;
    let b2: u8 = ((msr >> 16u32) & 0xff) as u8;
    let b3: u8 = ((msr >> 24u32) & 0xff) as u8;
    proof {
        assert(msr & 0xff == msr % 256) by (bit_vector);
        assert((msr >> 8u32) & 0xff == (msr / 256) % 256) by (bit_vector);
        assert((msr >> 16u32) & 0xff == (msr / 65536) % 256) by (bit_vector);
        assert((msr >> 24u32) & 0xff == (msr / 16777216) % 256) by (bit_vector);
        reveal_with_fuel(le_bytes, 5);
        assert((msr as nat / 256) / 256 == msr as nat / 65536);
        assert((msr as nat / 65536) / 256 == msr as nat / 16777216);
    }
    let res = [b0, b1, b2, b3];
    assert(res@ =~= le_bytes(msr as nat, 4));
    res
}

/// The register value returned by the MSR driver: eight bytes in little-endian order.
pub fn msr_value(bytes: [u8; 8]) -> (res: u64)
    ensures
        res == le_value(bytes@),
{
    let b0: u8 = bytes[0];
    let b1: u8 = bytes[1];
    let b2: u8 = bytes[2];
    let b3: u8 = bytes[3];
    let b4: u8 = bytes[4];
    let b5: u8 = bytes[5];
    let b6: u8 = bytes[6];
    let b7: u8 = bytes[7];
    let res: u64 = (b0 as u64) | ((b1 as u64) << 8u64) | ((b2 as u64) << 16u64) | ((b3 as u64)
        << 24u64) | ((b4 as u64) << 32u64) | ((b5 as u64) << 40u64) | ((b6 as u64) << 48u64) | ((
    b7 as u64) << 56u64);
    proof {
        assert(res == b0 as u64 + b1 as u64 * 0x100 + b2 as u64 * 0x10000 + b3 as u64 * 0x1000000
            + b4 as u64 * 0x100000000 + b5 as u64 * 0x10000000000 + b6 as u64 * 0x1000000000000
            + b7 as u64 * 0x100000000000000) by (bit_vector)
            requires
                res == (b0 as u64) | ((b1 as u64) << 8u64) | ((b2 as u64) << 16u64) | ((b3 as u64)
                    << 24u64) | ((b4 as u64) << 32u64) | ((b5 as u64) << 40u64) | ((b6 as u64)
                    << 48u64) | ((b7 as u64) << 56u64),
        ;
        lemma_le_value_8(bytes@);
    }
    res
}

/// `le_value` of an eight-byte sequence, written out.
proof fn lemma_le_value_8(b: Seq<u8>)
    requires
        b.len() == 8,
    ensures
        le_value(b) == b[0] + b[1] * 0x100 + b[2] * 0x10000 + b[3] * 0x1000000 + b[4]
            * 0x100000000 + b[5] * 0x10000000000 + b[6] * 0x1000000000000 + b[7]
            * 0x100000000000000,
{
    reveal_with_fuel(le_value, 9);
    assert(b.drop_first().drop_first() =~= b.subrange(2, 8));
    assert(b.subrange(2, 8).drop_first() =~= b.subrange(3, 8));
    assert(b.subrange(3, 8).drop_first() =~= b.subrange(4, 8));
    assert(b.subrange(4, 8).drop_first() =~= b.subrange(5, 8));
    assert(b.subrange(5, 8).drop_first() =~= b.subrange(6, 8));
    assert(b.subrange(6, 8).drop_first() =~= b.subrange(7, 8));
    assert(b.subrange(7, 8).drop_first() =~= b.subrange(8, 8));
}

/// `256` to the power `k`: the number of values that `k` bytes can hold.
pub open spec fn pow256(k: nat) -> nat
    decreases k,
{
    if k == 0 {
        1
    } else {
        256 * pow256((k - 1) as nat)
    }
}

proof fn lemma_div_mod_256(n: nat, k: nat)
    requires
        k > 0,
        n < pow256(k),
    ensures
        n / 256 < pow256((k - 1) as nat),
        n == n % 256 + 256 * (n / 256),
        n % 256 < 256,
{
    let p: nat = pow256((k - 1) as nat);
    assert(n < 256 * p);
    assert(n / 256 < p) by (nonlinear_arith)
        requires
            n < 256 * p,
    ;
    assert(n == n % 256 + 256 * (n / 256)) by (nonlinear_arith);
}

/// Encoding a number that fits in `k` bytes, then decoding it, gives the number back.
pub proof fn lemma_le_value_of_bytes(n: nat, k: nat)
    requires
        n < pow256(k),
    ensures
        le_bytes(n, k).len() == k,
        le_value(le_bytes(n, k)) == n,
    decreases k,
{
    if k > 0 {
        lemma_div_mod_256(n, k);
        lemma_le_value_of_bytes(n / 256, (k - 1) as nat);
        let rest = le_bytes(n / 256, (k - 1) as nat);
        assert((seq![(n % 256) as u8] + rest).drop_first() =~= rest);
    }
}

/// Decoding a byte sequence, then encoding the value in as many bytes, gives the
/// sequence back: distinct byte layouts never decode to the same value.
pub proof fn lemma_le_bytes_of_value(b: Seq<u8>)
    ensures
        le_value(b) < pow256(b.len()),
        le_bytes(le_value(b), b.len()) == b,
    decreases b.len(),
{
    if b.len() > 0 {
        let rest = b.drop_first();
        lemma_le_bytes_of_value(rest);
        let r: nat = le_value(rest);
        let b0: nat = b[0] as nat;
        let v: nat = b0 + 256 * r;
        assert(v % 256 == b0 && v / 256 == r) by (nonlinear_arith)
            requires
                v == b0 + 256 * r,
                b0 < 256,
        ;
        assert(v < 256 * pow256(rest.len())) by (nonlinear_arith)
            requires
                v == b0 + 256 * r,
                b0 < 256,
                r < pow256(rest.len()),
        ;
        assert(le_bytes(v, b.len()) =~= b);
    }
}

/// A driver that serves register reads can be asked for any register.
pub open spec fn device_ready<F: Fn([u8; 4]) -> Result<[u8; 8], RaplError>>(device: F) -> bool {
    forall|req: [u8; 4]| call_requires(device, (req,))
}

/// The value of a register read, given what the driver answered.
pub open spec fn decoded(raw: Result<[u8; 8], RaplError>) -> Result<u64, RaplError> {
    match raw {
        Ok(bytes) => Ok(le_value(bytes@) as u64),
        Err(e) => Err(e),
    }
}

/// `res` is what reading register `msr` gives when `device` answers the request
/// for it: the decoded bytes, or the driver's error.
pub open spec fn device_answer<F: Fn([u8; 4]) -> Result<[u8; 8], RaplError>>(
    device: F,
    msr: u32,
    res: Result<u64, RaplError>,
) -> bool {
    exists|req: [u8; 4], raw: Result<[u8; 8], RaplError>|
        #[trigger] call_ensures(device, (req,), raw) && req@ == le_bytes(msr as nat, 4) && res
            == decoded(raw)
}

/// Reads register `msr` (a 32-bit register index) through the driver `device`.
pub fn read_msr_wrapper<F: Fn([u8; 4]) -> Result<[u8; 8], RaplError>>(msr: u32, device: &F) -> (res:
    Result<u64, RaplError>)
    requires
        device_ready(*device),
    ensures
        device_answer(*device, msr, res),
{
    let request = msr_request(msr);
    let raw = device(request);
    match raw {
        Ok(bytes) => Ok(msr_value(bytes)),
        Err(e) => Err(e),
    }
}

/// Reads register `msr` through the driver `device`. The driver takes 32-bit
/// register indices, so only the low 32 bits of `msr` are sent.
pub fn read_msr<F: Fn([u8; 4]) -> Result<[u8; 8], RaplError>>(msr: u64, device: &F) -> (res: Result<
    u64,
    RaplError,
>)
    requires
        device_ready(*device),
    ensures
        device_answer(*device, msr as u32, res),
{
    read_msr_wrapper(msr as u32, device)
}

/// The request for a 32-bit register index decodes back to that index.
pub proof fn lemma_request_round_trip(msr: u32)
    ensures
        le_value(le_bytes(msr as nat, 4)) == msr,
{
    reveal_with_fuel(pow256, 5);
    lemma_le_value_of_bytes(msr as nat, 4);
}

/// Eight little-endian bytes hold any 64-bit register value exactly.
pub proof fn lemma_value_round_trip(value: u64)
    ensures
        le_bytes(value as nat, 8).len() == 8,
        le_value(le_bytes(value as nat, 8)) == value,
{
    reveal_with_fuel(pow256, 9);
    lemma_le_value_of_bytes(value as nat, 8);
}

/// The driver refuses register `msr`: every answer it can give to the request for
/// that register is an error.
pub open spec fn device_refuses<F: Fn([u8; 4]) -> Result<[u8; 8], RaplError>>(device: F, msr: u32) -> bool {
    forall|req: [u8; 4], raw: Result<[u8; 8], RaplError>|
        #[trigger] call_ensures(device, (req,), raw) && req@ == le_bytes(msr as nat, 4) ==> raw is Err
}

/// A register that the driver refuses never reads successfully.
pub proof fn lemma_refused_register_never_reads<F: Fn([u8; 4]) -> Result<[u8; 8], RaplError>>(
    device: F,
    msr: u32,
    value: u64,
)
    requires
        device_refuses(device, msr),
    ensures
        !device_answer(device, msr, Ok(value)),
{
}

} // verus!
