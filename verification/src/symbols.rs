use vstd::prelude::*;

use crate::wire::{copy_range, first_index, lemma_first_index_unique};

verus! {

/// The `;` separator of the module and callstack fields.
pub const SEPARATOR: u8 = 0x3B;

/// The tokens of `s` split on `sep`, in order.  As with the usual string
/// split, an empty input gives one empty token, and a separator at the end
/// gives a trailing empty token.
pub open spec fn split_tokens(s: Seq<u8>, sep: u8) -> Seq<Seq<u8>>
    decreases s.len(),
{
    let k = first_index(s, sep);
    if 0 <= k < s.len() {
        seq![s.take(k)] + split_tokens(s.subrange(k + 1, s.len() as int), sep)
    } else {
        seq![s]
    }
}

/// The views of a vector of byte tokens.
pub open spec fn token_views(tokens: Seq<Vec<u8>>) -> Seq<Seq<u8>> {
    tokens.map_values(|t: Vec<u8>| t@)
}

/// Splits a byte field on a separator byte.
pub fn split_bytes(s: &Vec<u8>, sep: u8) -> (r: Vec<Vec<u8>>)
    ensures
        token_views(r@) == split_tokens(s@, sep),
{
    let len: usize = s.len();
    let mut result: Vec<Vec<u8>> = Vec::new();
    let mut start: usize = 0;
    proof {
        assert(s@.subrange(0, len as int) =~= s@);
        assert(token_views(result@) + split_tokens(s@, sep) =~= split_tokens(s@, sep));
    }
    loop
        invariant_except_break
            start <= len == s@.len(),
            token_views(result@) + split_tokens(s@.subrange(start as int, len as int), sep)
                == split_tokens(s@, sep),
        ensures
            token_views(result@) == split_tokens(s@, sep),
        decreases len - start,
    {
        let mut k: usize = start;
        while k < len && s[k] != sep
            invariant
                start <= k <= len == s@.len(),
                forall|j: int| start <= j < k ==> #[trigger] s@[j] != sep,
            decreases len - k,
        {
            k = k + 1;
        }
        let token = copy_range(s, start, k);
        proof {
            let sub = s@.subrange(start as int, len as int);
            assert(forall|j: int| 0 <= j < k - start ==> sub[j] == s@[start + j]);
            if k < len {
                assert(sub[k - start] == s@[k as int]);
            }
            lemma_first_index_unique(sub, sep, k - start);
            assert(sub.take(k - start) =~= token@);
            if k < len {
                assert(sub.subrange(k - start + 1, sub.len() as int) =~= s@.subrange(
                    k + 1,
                    len as int,
                ));
                assert(split_tokens(sub, sep) == seq![token@] + split_tokens(
                    s@.subrange(k + 1, len as int),
                    sep,
                ));
            } else {
                assert(sub =~= token@);
                assert(split_tokens(sub, sep) == seq![token@]);
            }
        }
        result.push(token);
        proof {
            assert(token_views(result@) =~= token_views(result@.drop_last()) + seq![token@]);
        }
        if k == len {
            break ;
        }
        start = k + 1;
    }
    result
}

/// Hexadecimal digits, upper or lower case.
pub open spec fn is_hex_digit(c: u8) -> bool {
    (0x30 <= c <= 0x39) || (0x41 <= c <= 0x46) || (0x61 <= c <= 0x66)
}

/// The value of one hexadecimal digit (0 for anything else).
pub open spec fn hex_digit_value(c: u8) -> int {
    if 0x30 <= c <= 0x39 {
        c - 0x30
    } else if 0x41 <= c <= 0x46 {
        c - 0x41 + 10
    } else if 0x61 <= c <= 0x66 {
        c - 0x61 + 10
    } else {
        0
    }
}

/// The number written in base 16 by the digits of `s`.
pub open spec fn hex_value(s: Seq<u8>) -> int
    decreases s.len(),
{
    if s.len() == 0 {
        0
    } else {
        hex_value(s.drop_last()) * 16 + hex_digit_value(s.last())
    }
}

/// Whether `s` is a hexadecimal numeral that fits in a `u64`: nonempty, all
/// digits, value at most `u64::MAX`.
pub open spec fn parses_as_hex(s: Seq<u8>) -> bool {
    &&& s.len() > 0
    &&& forall|j: int| 0 <= j < s.len() ==> is_hex_digit(#[trigger] s[j])
    &&& hex_value(s) <= u64::MAX
}

pub proof fn lemma_hex_value_nonneg(s: Seq<u8>)
    ensures
        hex_value(s) >= 0,
    decreases s.len(),
{
    if s.len() > 0 {
        lemma_hex_value_nonneg(s.drop_last());
    }
}

/// A numeral is at least as large as any of its prefixes.
pub proof fn lemma_hex_value_take_le(s: Seq<u8>, j: int)
    requires
        0 <= j <= s.len(),
    ensures
        hex_value(s.take(j)) <= hex_value(s),
    decreases s.len(),
{
    if j < s.len() {
        lemma_hex_value_nonneg(s.drop_last());
        assert(hex_digit_value(s.last()) >= 0);
        assert(s.drop_last().take(j) =~= s.take(j));
        lemma_hex_value_take_le(s.drop_last(), j);
    } else {
        assert(s.take(j) =~= s);
    }
}

/// Parses a bare hexadecimal numeral (no sign, no prefix) as a `u64`.
/// Returns `None` exactly when the token is empty, holds a non-digit, or
/// names a value too large for a `u64`.
pub fn parse_hex_u64(s: &Vec<u8>) -> (r: Option<u64>)
    ensures
        r is Some <==> parses_as_hex(s@),
        r is Some ==> r->0 == hex_value(s@),
{
    let len: usize = s.len();
    if len == 0 {
        return None;
    }
    let mut v: u64 = 0;
    let mut i: usize = 0;
    while i < len
        invariant
            i <= len == s@.len(),
            v == hex_value(s@.take(i as int)),
            forall|j: int| 0 <= j < i ==> is_hex_digit(#[trigger] s@[j]),
        decreases len - i,
    {
        let c = s[i];
        let d: u64 = if 0x30 <= c && c <= 0x39 {
            (c - 0x30) as u64
        } else if 0x41 <= c && c <= 0x46 {
            (c - 0x41 + 10) as u64
        } else if 0x61 <= c && c <= 0x66 {
            (c - 0x61 + 10) as u64
        } else {
            return None;
        };
        if v >= 0x1000_0000_0000_0000 {
            // One more digit would exceed 64 bits, and later digits only
            // grow the value further.
            proof {
                assert(s@.take(i + 1).drop_last() =~= s@.take(i as int));
                assert(hex_value(s@.take(i + 1)) > u64::MAX);
                lemma_hex_value_take_le(s@, i + 1);
            }
            return None;
        }
        proof {
            assert(s@.take(i + 1).drop_last() =~= s@.take(i as int));
            assert(s@.take(i + 1).last() == s@[i as int]);
        }
        v = v * 16 + d;
        i = i + 1;
    }
    proof {
        assert(s@.take(len as int) =~= s@);
    }
    Some(v)
}

/// The module field's tokens.
pub open spec fn module_tokens(field: Seq<u8>) -> Seq<Seq<u8>> {
    split_tokens(field, SEPARATOR)
}

/// How many complete five-token module groups the field holds.  A trailing
/// group of fewer than five tokens is malformed and never consulted.
pub open spec fn module_count(field: Seq<u8>) -> int {
    module_tokens(field).len() as int / 5
}

/// The display name of module group `i`: its first token.
pub open spec fn module_name(field: Seq<u8>, i: int) -> Seq<u8> {
    module_tokens(field)[5 * i]
}

/// The base address of module group `i`, when its second token parses as
/// hexadecimal; a group whose base does not parse is skipped.
pub open spec fn module_base(field: Seq<u8>, i: int) -> Option<u64> {
    let t = module_tokens(field)[5 * i + 1];
    if parses_as_hex(t) {
        Some(hex_value(t) as u64)
    } else {
        None
    }
}

/// Whether module group `i` can contain `addr`: its base parses and does
/// not exceed the address.
pub open spec fn module_matches(addr: u64, field: Seq<u8>, i: int) -> bool {
    &&& module_base(field, i) is Some
    &&& module_base(field, i)->0 <= addr
}

/// How far `addr` lies above the base of a matching module group.
pub open spec fn module_delta(addr: u64, field: Seq<u8>, i: int) -> int {
    addr - module_base(field, i)->0
}

/// The name reported when no module contains the address.
pub open spec fn unknown_name() -> Seq<u8> {
    seq![0x75u8, 0x6Eu8, 0x6Bu8, 0x6Eu8, 0x6Fu8, 0x77u8, 0x6Eu8]
}

/// The best (name, distance) candidate after considering the first `n`
/// module groups: `None` while no group has matched, then the matching group
/// with the smallest distance, taken only when it lies strictly closer than
/// the running best, so the first of equally close groups wins.
pub open spec fn best_upto(addr: u64, field: Seq<u8>, n: int) -> Option<(Seq<u8>, int)>
    decreases n,
{
    if n <= 0 {
        None
    } else {
        let prev = best_upto(addr, field, n - 1);
        if module_matches(addr, field, n - 1) && (prev is None || module_delta(addr, field, n - 1)
            < (prev->0).1) {
            Some((module_name(field, n - 1), module_delta(addr, field, n - 1)))
        } else {
            prev
        }
    }
}

/// The module name that symbolication reports for `addr`: the best
/// candidate's name, or `unknown` when no module group qualifies.
pub open spec fn resolve_spec(addr: u64, field: Seq<u8>) -> Seq<u8> {
    match best_upto(addr, field, module_count(field)) {
        Some(best) => best.0,
        None => unknown_name(),
    }
}

/// Module group `i` is the winner among the first `n` groups: it matches,
/// attains the best distance, and every earlier matching group lies
/// strictly farther away.
pub open spec fn is_winning_module(addr: u64, field: Seq<u8>, n: int, i: int) -> bool {
    &&& 0 <= i < n
    &&& module_matches(addr, field, i)
    &&& best_upto(addr, field, n) == Some((module_name(field, i), module_delta(addr, field, i)))
    &&& forall|j: int|
        0 <= j < i && module_matches(addr, field, j) ==> module_delta(addr, field, j)
            > module_delta(addr, field, i)
}

/// What the fold computes, stated directly: there is a candidate exactly
/// when some group matches; its distance never exceeds the delta of any
/// matching group; and it is the first group that attains the minimal delta.
pub proof fn lemma_best_upto_minimal(addr: u64, field: Seq<u8>, n: int)
    requires
        n >= 0,
    ensures
        best_upto(addr, field, n) is Some <==> exists|i: int|
            0 <= i < n && #[trigger] module_matches(addr, field, i),
        forall|i: int|
            0 <= i < n && module_matches(addr, field, i) ==> (best_upto(addr, field, n)->0).1
                <= module_delta(addr, field, i),
        best_upto(addr, field, n) is Some ==> exists|i: int| is_winning_module(addr, field, n, i),
    decreases n,
{
    if n > 0 {
        lemma_best_upto_minimal(addr, field, n - 1);
        let prev = best_upto(addr, field, n - 1);
        if module_matches(addr, field, n - 1) && (prev is None || module_delta(addr, field, n - 1)
            < (prev->0).1) {
            assert(is_winning_module(addr, field, n, n - 1));
        } else {
            if prev is Some {
                let w = choose|i: int| #[trigger] is_winning_module(addr, field, n - 1, i);
                assert(is_winning_module(addr, field, n, w));
            }
        }
    }
}

/// Symbolication as the display code uses it, proved for every input: among
/// the complete five-token module groups whose base address parses as
/// hexadecimal and does not exceed `address`, the name reported is that of
/// the first group with the smallest distance, and `unknown` is reported
/// when no group qualifies.
pub proof fn lemma_resolve_minimal(address: u64, field: Seq<u8>)
    ensures
        (forall|i: int|
            0 <= i < module_count(field) ==> !(#[trigger] module_matches(address, field, i)))
            ==> resolve_spec(address, field) == unknown_name(),
        (exists|i: int| 0 <= i < module_count(field) && #[trigger] module_matches(address, field, i))
            ==> exists|i: int|
            is_winning_module(address, field, module_count(field), i)
                && module_name(field, i) == resolve_spec(address, field),
{
    let n = module_count(field);
    lemma_best_upto_minimal(address, field, n);
    if best_upto(address, field, n) is Some {
        let w = choose|i: int| #[trigger] is_winning_module(address, field, n, i);
        assert(is_winning_module(address, field, n, w) && module_name(field, w) == resolve_spec(
            address,
            field,
        ));
    }
}

/// Finds the module most likely to contain `address`: the name of the
/// closest preceding module base in the semicolon-separated module field,
/// or `unknown` (as bytes) when no module base lies at or below the address.
pub fn resolve(address: u64, modules_field: &Vec<u8>) -> (r: Vec<u8>)
    ensures
        r@ == resolve_spec(address, modules_field@),
{
    let tokens = split_bytes(modules_field, SEPARATOR);
    let n_tokens: usize = tokens.len();
    let mut best_name: Vec<u8> = vec![0x75u8, 0x6Eu8, 0x6Bu8, 0x6Eu8, 0x6Fu8, 0x77u8, 0x6Eu8];
    let mut best_dist: u64 = 0;
    let mut found: bool = false;
    proof {
        assert(best_name@ =~= unknown_name());
    }
    let mut g: usize = 0;
    while g < n_tokens / 5
        invariant
            n_tokens == tokens@.len(),
            token_views(tokens@) == module_tokens(modules_field@),
            g <= n_tokens / 5,
            found <==> best_upto(address, modules_field@, g as int) is Some,
            found ==> best_upto(address, modules_field@, g as int) == Some(
                (best_name@, best_dist as int),
            ),
            !found ==> best_name@ == unknown_name(),
        decreases n_tokens / 5 - g,
    {
        proof {
            assert(5 * (g as int) + 1 < n_tokens);
            assert(token_views(tokens@)[5 * (g as int)] == tokens@[5 * (g as int)]@);
            assert(token_views(tokens@)[5 * (g as int) + 1] == tokens@[5 * (g as int) + 1]@);
        }
        let base = parse_hex_u64(&tokens[5 * g + 1]);
        if let Some(b) = base {
            if b <= address {
                let diff = address - b;
                if !found || diff < best_dist {
                    let name = &tokens[5 * g];
                    let name_len: usize = name.len();
                    best_name = copy_range(name, 0, name_len);
                    proof {
                        assert(best_name@ =~= tokens@[5 * (g as int)]@);
                    }
                    best_dist = diff;
                    found = true;
                }
            }
        }
        g = g + 1;
    }
    best_name
}

/// The first token of every five-token chunk of the module field, complete
/// or not: the list of module names in the order they appear.
pub open spec fn module_name_list(field: Seq<u8>) -> Seq<Seq<u8>> {
    let tokens = module_tokens(field);
    Seq::new((tokens.len() + 4) / 5, |i: int| tokens[5 * i])
}

/// Lists the module names of the field: the first token of each chunk of
/// five, including a trailing incomplete chunk.
pub fn module_names(modules_field: &Vec<u8>) -> (r: Vec<Vec<u8>>)
    ensures
        token_views(r@) == module_name_list(modules_field@),
{
    let tokens = split_bytes(modules_field, SEPARATOR);
    let n_tokens: usize = tokens.len();
    let n_chunks: usize = if n_tokens % 5 == 0 {
        n_tokens / 5
    } else {
        n_tokens / 5 + 1
    };
    let mut names: Vec<Vec<u8>> = Vec::new();
    let mut g: usize = 0;
    while g < n_chunks
        invariant
            n_tokens == tokens@.len(),
            n_chunks == (n_tokens + 4) / 5,
            token_views(tokens@) == module_tokens(modules_field@),
            g <= n_chunks,
            names@.len() == g,
            forall|i: int| 0 <= i < g ==> #[trigger] token_views(names@)[i] == tokens@[5 * i]@,
        decreases n_chunks - g,
    {
        proof {
            assert(5 * (g as int) < n_tokens);
        }
        let name = &tokens[5 * g];
        let name_len: usize = name.len();
        let ghost pre = names@;
        names.push(copy_range(name, 0, name_len));
        proof {
            assert(names@.last()@ =~= tokens@[5 * (g as int)]@);
            assert forall|i: int| 0 <= i < g + 1 implies #[trigger] token_views(names@)[i]
                == tokens@[5 * i]@ by {
                assert(token_views(names@)[i] == names@[i]@);
                if i < g {
                    assert(names@[i] == pre[i]);
                    assert(token_views(pre)[i] == pre[i]@);
                } else {
                    assert(names@[i] == names@.last());
                }
            }
        }
        g = g + 1;
    }
    proof {
        assert(token_views(names@) =~= module_name_list(modules_field@));
    }
    names
}

} // verus!
