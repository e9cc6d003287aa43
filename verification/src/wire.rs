use vstd::prelude::*;

verus! {

/// Index of the first occurrence of `b` in `s`, or `s.len()` if `b` does not
/// occur.
pub open spec fn first_index(s: Seq<u8>, b: u8) -> int
    decreases s.len(),
{
    if s.len() == 0 {
        0
    } else if s[0] == b {
        0
    } else {
        1 + first_index(s.subrange(1, s.len() as int), b)
    }
}

/// What makes `first_index` the first occurrence: nothing before it matches,
/// and it matches unless `b` is absent altogether.
pub proof fn lemma_first_index(s: Seq<u8>, b: u8)
    ensures
        0 <= first_index(s, b) <= s.len(),
        forall|j: int| 0 <= j < first_index(s, b) ==> s[j] != b,
        first_index(s, b) < s.len() ==> s[first_index(s, b)] == b,
    decreases s.len(),
{
    if s.len() != 0 && s[0] != b {
        let tail = s.subrange(1, s.len() as int);
        lemma_first_index(tail, b);
        assert forall|j: int| 0 <= j < first_index(s, b) implies s[j] != b by {
            if j > 0 {
                assert(tail[j - 1] == s[j]);
            }
        }
    }
}

/// Any index with the two properties of `lemma_first_index` is `first_index`.
pub proof fn lemma_first_index_unique(s: Seq<u8>, b: u8, i: int)
    requires
        0 <= i <= s.len(),
        forall|j: int| 0 <= j < i ==> s[j] != b,
        i < s.len() ==> s[i] == b,
    ensures
        i == first_index(s, b),
{
    lemma_first_index(s, b);
    let f = first_index(s, b);
    if i < f {
        assert(s[i] != b);
    } else if f < i {
        assert(s[f] != b);
    }
}

/// The logical value of a padded string region: the bytes before the first
/// null terminator, or the first `size - 1` bytes of a region that holds no
/// terminator, so that the value never fills the whole region.  Bytes past
/// the region are never part of the value.
pub open spec fn padded_value(region: Seq<u8>) -> Seq<u8> {
    if first_index(region, 0) < region.len() {
        region.take(first_index(region, 0))
    } else if region.len() > 0 {
        region.take(region.len() - 1)
    } else {
        region
    }
}

/// A padded value always leaves room for its terminator: it is at most one
/// byte shorter than its region.
pub proof fn lemma_padded_value_len(region: Seq<u8>)
    ensures
        padded_value(region).len() <= region.len(),
        region.len() > 0 ==> padded_value(region).len() <= region.len() - 1,
{
    lemma_first_index(region, 0);
    let fi = first_index(region, 0);
    if fi < region.len() {
        assert(region[fi] == 0);
    }
}

/// Copies `buf[start..end]` into a fresh vector.
pub fn copy_range(buf: &Vec<u8>, start: usize, end: usize) -> (r: Vec<u8>)
    requires
        start <= end <= buf@.len(),
    ensures
        r@ == buf@.subrange(start as int, end as int),
{
    let mut out: Vec<u8> = Vec::new();
    let mut i: usize = start;
    while i < end
        invariant
            start <= i <= end <= buf@.len(),
            out@.len() == i - start,
            forall|j: int| 0 <= j < out@.len() ==> out@[j] == buf@[start + j],
        decreases end - i,
    {
        out.push(buf[i]);
        i = i + 1;
    }
    proof {
        assert(out@ =~= buf@.subrange(start as int, end as int));
    }
    out
}

/// Reads the padded string region of `size` bytes at `off`: the bytes up to
/// its first null terminator, never looking past the region, and at most
/// `size - 1` bytes even when the region holds no terminator.
pub fn read_padded(buf: &Vec<u8>, off: usize, size: usize) -> (r: Vec<u8>)
    requires
        off + size <= buf@.len(),
    ensures
        r@ == padded_value(buf@.subrange(off as int, off + size)),
{
    let len: usize = buf.len();
    let mut n: usize = 0;
    while n + 1 < size && buf[off + n] != 0
        invariant
            off + size <= len == buf@.len(),
            n <= size,
            size > 0 ==> n < size,
            size == 0 ==> n == 0,
            forall|j: int| off <= j < off + n ==> #[trigger] buf@[j] != 0,
        decreases size - n,
    {
        n = n + 1;
    }
    proof {
        let region = buf@.subrange(off as int, off + size);
        assert(forall|j: int| 0 <= j < n ==> region[j] == buf@[off + j]);
        if size == 0 {
            assert(padded_value(region) =~= region.take(n as int));
        } else if n + 1 < size {
            // The scan stopped on a terminator inside the region.
            assert(region[n as int] == buf@[off + n]);
            lemma_first_index_unique(region, 0, n as int);
        } else {
            // The first size - 1 bytes hold no terminator, so the value is
            // capped there whether or not the last region byte is one.
            lemma_first_index(region, 0);
            let fi = first_index(region, 0);
            if fi < n {
                assert(region[fi] != 0);
                assert(false);
            }
            assert(padded_value(region) == region.take(n as int));
        }
    }
    copy_range(buf, off, off + n)
}

/// The region that stores `value` in a padded string field of `size` bytes:
/// at most `size - 1` bytes of the value, a null terminator, and null
/// padding out to the full size.
pub open spec fn padded_region(value: Seq<u8>, size: int) -> Seq<u8> {
    let kept = if value.len() <= size - 1 {
        value.len() as int
    } else {
        size - 1
    };
    value.take(kept) + Seq::new((size - kept) as nat, |j: int| 0u8)
}

/// Builds the padded string region of `size` bytes that stores `value`,
/// truncating a value longer than `size - 1` bytes so that it can never
/// overflow into the next field.
pub fn make_padded_region(value: &Vec<u8>, size: usize) -> (r: Vec<u8>)
    requires
        1 <= size,
    ensures
        r@ == padded_region(value@, size as int),
        r@.len() == size,
{
    let kept: usize = if value.len() <= size - 1 {
        value.len()
    } else {
        size - 1
    };
    let mut out = copy_range(value, 0, kept);
    while out.len() < size
        invariant
            kept <= out@.len() <= size,
            out@.len() >= kept,
            out@.subrange(0, kept as int) == value@.take(kept as int),
            forall|j: int| kept <= j < out@.len() ==> out@[j] == 0,
        decreases size - out@.len(),
    {
        out.push(0);
    }
    proof {
        assert(out@ =~= padded_region(value@, size as int));
    }
    out
}

/// Round trip for padded strings: storing a terminator-free value in a
/// region of `size` bytes and reading it back yields the value itself when
/// it fits in `size - 1` bytes, and its first `size - 1` bytes otherwise.
pub proof fn lemma_padded_round_trip(value: Seq<u8>, size: int)
    requires
        1 <= size,
        forall|j: int| 0 <= j < value.len() ==> value[j] != 0,
    ensures
        padded_value(padded_region(value, size)) == value.take(
            if value.len() <= size - 1 {
                value.len() as int
            } else {
                size - 1
            },
        ),
{
    let kept = if value.len() <= size - 1 {
        value.len() as int
    } else {
        size - 1
    };
    let region = padded_region(value, size);
    assert(region[kept] == 0);
    lemma_first_index_unique(region, 0, kept);
    assert(region.take(kept) =~= value.take(kept));
}

/// The integer stored little-endian in the four bytes at `off`.
pub open spec fn le_u32_at(s: Seq<u8>, off: int) -> int {
    s[off] + s[off + 1] * 0x100 + s[off + 2] * 0x1_0000 + s[off + 3] * 0x100_0000
}

/// The integer stored little-endian in the eight bytes at `off`.
pub open spec fn le_u64_at(s: Seq<u8>, off: int) -> int {
    le_u32_at(s, off) + le_u32_at(s, off + 4) * 0x1_0000_0000
}

/// Reads the little-endian `u32` at `off`.
pub fn read_u32_le(buf: &Vec<u8>, off: usize) -> (x: u32)
    requires
        off + 4 <= buf@.len(),
    ensures
        x == le_u32_at(buf@, off as int),
{
    let n: usize = buf.len();
    assert(off + 4 <= n);
    buf[off] as u32 + (buf[off + 1] as u32) * 0x100 + (buf[off + 2] as u32) * 0x1_0000 + (buf[off
        + 3] as u32) * 0x100_0000
}

/// Reads the little-endian `u64` at `off`.
pub fn read_u64_le(buf: &Vec<u8>, off: usize) -> (x: u64)
    requires
        off + 8 <= buf@.len(),
    ensures
        x == le_u64_at(buf@, off as int),
{
    let n: usize = buf.len();
    assert(off + 8 <= n);
    let lo = read_u32_le(buf, off);
    let hi = read_u32_le(buf, off + 4);
    lo as u64 + (hi as u64) * 0x1_0000_0000
}

} // verus!
