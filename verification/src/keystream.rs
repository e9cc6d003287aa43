use vstd::prelude::*;

verus! {

/// Exact size, in bytes, of one encrypted crash-metrics record.
pub const CRASH_METRICS_SIZE: usize = 0x9388;

/// State of the 31-bit linear-congruential generator after `i` steps.
///
/// The generator starts at 0; each step multiplies by 0x343FD, adds
/// 0x269EC3 with 32-bit wraparound, and keeps the low 31 bits.  Keeping the
/// low 31 bits of the wrapped 32-bit result is the same as reducing the
/// unwrapped product modulo 2^31, which is how it is written here.
pub open spec fn lcg_state(i: nat) -> int
    decreases i,
{
    if i == 0 {
        0
    } else {
        (lcg_state((i - 1) as nat) * 0x343FD + 0x269EC3) % 0x8000_0000
    }
}

/// Byte `i` of the keystream: bits 16..31 of the state after `i + 1` steps,
/// truncated to their low byte.
pub open spec fn keystream_byte(i: nat) -> u8 {
    (((lcg_state(i + 1) / 0x1_0000) % 0x8000) % 0x100) as u8
}

/// The first `n` bytes of the keystream.
pub open spec fn keystream(n: nat) -> Seq<u8> {
    Seq::new(n, |i: int| keystream_byte(i as nat))
}

/// The generator state always stays within 31 bits.
pub proof fn lemma_lcg_state_bounds(i: nat)
    ensures
        0 <= lcg_state(i) < 0x8000_0000,
    decreases i,
{
    if i > 0 {
        lemma_lcg_state_bounds((i - 1) as nat);
    }
}

/// Produces the first `size` bytes of the fixed keystream.
///
/// The result depends on `size` alone, so two calls with equal sizes return
/// identical byte sequences.
pub fn generate_keystream(size: usize) -> (r: Vec<u8>)
    ensures
        r@ == keystream(size as nat),
{
    let mut out: Vec<u8> = Vec::new();
    let mut state: u64 = 0;
    let mut i: usize = 0;
    while i < size
        invariant
            i <= size,
            out@.len() == i,
            state == lcg_state(i as nat),
            forall|j: int| 0 <= j < i ==> out@[j] == keystream_byte(j as nat),
        decreases size - i,
    {
        proof {
            lemma_lcg_state_bounds(i as nat);
        }
        state = (state * 0x343FD + 0x269EC3) % 0x8000_0000;
        let b: u8 = (((state / 0x1_0000) % 0x8000) % 0x100) as u8;
        out.push(b);
        i = i + 1;
    }
    proof {
        assert(out@ =~= keystream(size as nat));
    }
    out
}

/// The keystream is deterministic: any two sequences that both equal the
/// keystream of the same length are equal to each other.
pub proof fn lemma_keystream_deterministic(a: Seq<u8>, b: Seq<u8>, n: nat)
    requires
        a == keystream(n),
        b == keystream(n),
    ensures
        a == b,
{
}

/// A shorter keystream is a prefix of every longer one.
pub proof fn lemma_keystream_prefix(m: nat, n: nat)
    requires
        m <= n,
    ensures
        keystream(n).take(m as int) == keystream(m),
{
    assert(keystream(n).take(m as int) =~= keystream(m));
}

} // verus!
