//! The two transmissions of the launch handshake: one byte that releases the
//! child, and sixteen bytes that carry the child's start time back.

use crate::error::StatError;
use vstd::prelude::*;

verus! {

/// Number of bytes that release the child.
pub const GO_LEN: usize = 1;

/// The byte that the parent writes to release the child.
pub const GO_BYTE: u8 = 1;

/// Number of bytes that carry a start time.
pub const START_TIME_LEN: usize = 16;

/// The status with which the child exits where it cannot run the command.
/// The parent takes every child that exits with it as one that never ran
/// the command, also where the command ran and chose this status itself:
/// the two cannot be told apart.
pub const NOT_LAUNCHED: i32 = 127;

/// 256 to the power `k`.
pub open spec fn pow256(k: nat) -> nat
    decreases k,
{
    if k == 0 {
        1
    } else {
        256 * pow256((k - 1) as nat)
    }
}

/// The `len` low bytes of `n`, least significant first.
pub open spec fn le_bytes(n: nat, len: nat) -> Seq<u8>
    decreases len,
{
    if len == 0 {
        Seq::<u8>::empty()
    } else {
        seq![(n % 256) as u8] + le_bytes(n / 256, (len - 1) as nat)
    }
}

/// The number that `bytes` spell, least significant first.
pub open spec fn le_value(bytes: Seq<u8>) -> nat
    decreases bytes.len(),
{
    if bytes.len() == 0 {
        0
    } else {
        bytes[0] as nat + 256 * le_value(bytes.skip(1))
    }
}

/// The sixteen bytes that carry the time `nanos`.
pub open spec fn start_time_bytes(nanos: u128) -> Seq<u8> {
    le_bytes(nanos as nat, 16)
}

/// Sixteen bytes count exactly the values of a `u128`.
pub proof fn lemma_pow256_sixteen()
    ensures
        pow256(16) == 0x1_0000_0000_0000_0000_0000_0000_0000_0000,
        forall|k: nat| k <= 16 ==> 1 <= #[trigger] pow256(k) <= pow256(16),
{
    reveal_with_fuel(pow256, 17);
    assert forall|k: nat| k <= 16 implies 1 <= #[trigger] pow256(k) <= pow256(16) by {
        lemma_pow256_monotonic(k, 16);
    }
}

/// `pow256` is positive and grows with its argument.
pub proof fn lemma_pow256_monotonic(j: nat, k: nat)
    requires
        j <= k,
    ensures
        1 <= pow256(j) <= pow256(k),
    decreases k,
{
    if k == 0 {
    } else if j == k {
        lemma_pow256_monotonic(0, (k - 1) as nat);
        lemma_pow256_positive(j);
    } else {
        lemma_pow256_monotonic(j, (k - 1) as nat);
    }
}

/// `pow256` is never zero.
pub proof fn lemma_pow256_positive(k: nat)
    ensures
        1 <= pow256(k),
    decreases k,
{
    if k > 0 {
        lemma_pow256_positive((k - 1) as nat);
    }
}

/// `le_bytes` gives as many bytes as asked for.
pub proof fn lemma_le_bytes_len(n: nat, len: nat)
    ensures
        le_bytes(n, len).len() == len,
    decreases len,
{
    if len > 0 {
        lemma_le_bytes_len(n / 256, (len - 1) as nat);
    }
}

/// What `len` bytes spell is below 256 to the power `len`.
pub proof fn lemma_le_value_bound(bytes: Seq<u8>)
    ensures
        le_value(bytes) < pow256(bytes.len()),
    decreases bytes.len(),
{
    if bytes.len() > 0 {
        lemma_le_value_bound(bytes.skip(1));
    }
}

/// Reading back the bytes of a number gives the number, where the number
/// fits in that many bytes.
pub proof fn lemma_le_round_trip(n: nat, len: nat)
    requires
        n < pow256(len),
    ensures
        le_value(le_bytes(n, len)) == n,
    decreases len,
{
    if len > 0 {
        let rest = le_bytes(n / 256, (len - 1) as nat);
        let all = le_bytes(n, len);
        assert(all.skip(1) =~= rest);
        assert(all[0] == (n % 256) as u8);
        lemma_le_round_trip(n / 256, (len - 1) as nat);
    }
}

/// Writing down what bytes spell, in as many bytes, gives the same bytes.
pub proof fn lemma_le_bytes_of_value(bytes: Seq<u8>)
    ensures
        le_bytes(le_value(bytes), bytes.len()) == bytes,
    decreases bytes.len(),
{
    if bytes.len() > 0 {
        let tail = bytes.skip(1);
        lemma_le_bytes_of_value(tail);
        let n = le_value(bytes);
        assert(n % 256 == bytes[0] as nat);
        assert(n / 256 == le_value(tail));
        assert(le_bytes(n, bytes.len()) =~= bytes);
    } else {
        assert(le_bytes(0, 0) =~= bytes);
    }
}

/// A start time survives the handshake: the sixteen bytes written for it
/// spell it, for every value of the clock.
pub proof fn lemma_start_time_round_trip(nanos: u128)
    ensures
        start_time_bytes(nanos).len() == 16,
        le_value(start_time_bytes(nanos)) == nanos,
{
    lemma_pow256_sixteen();
    lemma_le_bytes_len(nanos as nat, 16);
    lemma_le_round_trip(nanos as nat, 16);
}

/// Sixteen bytes spell a time that a clock can show, and only these
/// sixteen bytes are written for that time: no two transmissions carry the
/// same start time.
pub proof fn lemma_start_time_unique(bytes: Seq<u8>)
    requires
        bytes.len() == 16,
    ensures
        le_value(bytes) <= u128::MAX,
        start_time_bytes(le_value(bytes) as u128) == bytes,
{
    lemma_pow256_sixteen();
    lemma_le_value_bound(bytes);
    lemma_le_bytes_of_value(bytes);
}

/// The bytes that carry the start time `nanos` to the parent.
pub fn encode_start_time(nanos: u128) -> (bytes: [u8; 16])
    ensures
        bytes@ == start_time_bytes(nanos),
{
    let mut bytes: [u8; 16] = [0u8; 16];
    let mut rest: u128 = nanos;
    let mut i: usize = 0;
    assert(bytes@.take(0) + le_bytes(nanos as nat, 16) =~= le_bytes(nanos as nat, 16));
    while i < 16
        invariant
            i <= 16,
            bytes@.len() == 16,
            bytes@.take(i as int) + le_bytes(rest as nat, (16 - i) as nat) == le_bytes(
                nanos as nat,
                16,
            ),
        decreases 16 - i,
    {
        let ghost before = bytes@;
        let low: u8 = (rest % 256) as u8;
        bytes[i] = low;
        proof {
            let tail = le_bytes((rest / 256) as nat, (15 - i) as nat);
            assert(le_bytes(rest as nat, (16 - i) as nat) == seq![low] + tail);
            assert(bytes@.take(i + 1) =~= before.take(i as int) + seq![low]);
            assert(bytes@.take(i + 1) + tail =~= before.take(i as int) + (seq![low] + tail));
        }
        rest = rest / 256;
        i = i + 1;
    }
    assert(bytes@ =~= bytes@.take(16) + le_bytes(rest as nat, 0));
    bytes
}

/// The time that sixteen received bytes carry.
pub fn decode_start_time(bytes: &[u8; 16]) -> (nanos: u128)
    ensures
        nanos == le_value(bytes@),
{
    let mut value: u128 = 0;
    let mut i: usize = 16;
    assert(bytes@.skip(16) =~= Seq::<u8>::empty());
    while i > 0
        invariant
            i <= 16,
            bytes@.len() == 16,
            value == le_value(bytes@.skip(i as int)),
        decreases i,
    {
        i = i - 1;
        let b: u8 = bytes[i];
        proof {
            let tail = bytes@.skip(i + 1);
            let here = bytes@.skip(i as int);
            assert(here.skip(1) =~= tail);
            assert(here[0] == b);
            lemma_le_value_bound(tail);
            lemma_le_value_bound(here);
            lemma_pow256_sixteen();
            assert(pow256(here.len()) <= pow256(16));
        }
        value = value * 256 + b as u128;
    }
    assert(bytes@.skip(0) =~= bytes@);
    value
}

/// Whether the child may go on: the go pipe must have delivered exactly one
/// byte. Any other count means that the parent is gone or the pipe is
/// broken, and the child must not run the command.
pub fn accept_go(nread: usize) -> (r: Result<(), StatError>)
    ensures
        nread == GO_LEN <==> r is Ok,
        nread != GO_LEN ==> r == Err::<(), StatError>(
            StatError::Handshake { expected: GO_LEN, got: nread },
        ),
{
    if nread == GO_LEN {
        Ok(())
    } else {
        Err(StatError::Handshake { expected: GO_LEN, got: nread })
    }
}

/// The start time that the child sent: the start-time pipe must have
/// delivered exactly sixteen bytes, which are then read as a time. Any
/// other count is refused, whatever `bytes` holds.
pub fn accept_start_time(nread: usize, bytes: &[u8; 16]) -> (r: Result<u128, StatError>)
    ensures
        nread == START_TIME_LEN <==> r is Ok,
        nread == START_TIME_LEN ==> r == Ok::<u128, StatError>(le_value(bytes@) as u128),
        nread != START_TIME_LEN ==> r == Err::<u128, StatError>(
            StatError::Handshake { expected: START_TIME_LEN, got: nread },
        ),
{
    if nread == START_TIME_LEN {
        Ok(decode_start_time(bytes))
    } else {
        Err(StatError::Handshake { expected: START_TIME_LEN, got: nread })
    }
}

} // verus!
