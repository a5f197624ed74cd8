//! Wwise hash utilities.

use vstd::prelude::*;
use vstd::string::StringSliceAdditionalSpecFns;

verus! {

/// ASCII lower-casing of one byte (`u8::to_ascii_lowercase`).
pub open spec fn ascii_lower(b: u8) -> u8 {
    if 65 <= b && b <= 90 {
        (b + 32) as u8
    } else {
        b
    }
}

/// FNV1 offset basis.
pub open spec fn fnv1_basis() -> u32 {
    0x811C_9DC5
}

/// One FNV1 round over the lower-cased byte `b`.
pub open spec fn fnv1_step(h: u32, b: u8) -> u32 {
    vstd::wrapping::u32_specs::wrapping_mul(h, 0x0100_0193) ^ (ascii_lower(b) as u32)
}

/// FNV1-32 over every byte of `bytes`, each lower-cased first.
pub open spec fn fnv1_fold(bytes: Seq<u8>) -> u32
    decreases bytes.len(),
{
    if bytes.len() == 0 {
        fnv1_basis()
    } else {
        fnv1_step(fnv1_fold(bytes.drop_last()), bytes.last())
    }
}

/// Index of the last `'.'` byte in `bytes`, or -1 when there is none.
pub open spec fn last_dot(bytes: Seq<u8>) -> int
    decreases bytes.len(),
{
    if bytes.len() == 0 {
        -1
    } else if bytes.last() == 0x2E {
        bytes.len() - 1
    } else {
        last_dot(bytes.drop_last())
    }
}

/// The part of a name that is hashed: everything before the last `'.'`,
/// unless that dot is the first byte.
pub open spec fn hashed_stem(bytes: Seq<u8>) -> Seq<u8> {
    if last_dot(bytes) > 0 {
        bytes.take(last_dot(bytes))
    } else {
        bytes
    }
}

/// The Wwise name hash of the UTF-8 bytes of a name.
pub open spec fn spec_fnv1_32(bytes: Seq<u8>) -> u32 {
    if bytes.len() == 0 {
        0
    } else {
        fnv1_fold(hashed_stem(bytes))
    }
}

proof fn lemma_last_dot_scan(bytes: Seq<u8>, k: int)
    requires
        -1 <= k < bytes.len(),
        k >= 0 ==> bytes[k] == 0x2E,
        forall|j: int| k < j < bytes.len() ==> bytes[j] != 0x2E,
    ensures
        last_dot(bytes) == k,
    decreases bytes.len(),
{
    if bytes.len() > 0 && bytes.last() != 0x2E {
        lemma_last_dot_scan(bytes.drop_last(), k);
    }
}

proof fn lemma_last_dot_range(bytes: Seq<u8>)
    ensures
        -1 <= last_dot(bytes) < bytes.len(),
        last_dot(bytes) >= 0 ==> bytes[last_dot(bytes)] == 0x2E,
        forall|j: int| last_dot(bytes) < j < bytes.len() ==> bytes[j] != 0x2E,
    decreases bytes.len(),
{
    if bytes.len() > 0 && bytes.last() != 0x2E {
        lemma_last_dot_range(bytes.drop_last());
        assert forall|j: int| last_dot(bytes) < j < bytes.len() implies bytes[j] != 0x2E by {
            if j < bytes.len() - 1 {
                assert(bytes.drop_last()[j] == bytes[j]);
            }
        }
    }
}

/// Computes the FNV1-32 hash used by Wwise for asset name → ID mapping.
///
/// The input is lowercased before hashing. File extensions are stripped.
pub fn fnv1_32(input: &str) -> (h: u32)
    ensures
        h == spec_fnv1_32(input.spec_bytes()),
{
    let bytes = input.as_bytes();
    if bytes.len() == 0 {
        return 0;
    }
    // Find the last '.'
    let mut j: usize = bytes.len();
    let mut dot: usize = 0;
    let mut found = false;
    while j > 0
        invariant_except_break
            !found,
        invariant
            0 <= j <= bytes@.len(),
            forall|i: int| j <= i < bytes@.len() ==> bytes@[i] != 0x2E,
        ensures
            found ==> (dot < bytes@.len() && bytes@[dot as int] == 0x2E && forall|i: int|
                dot < i < bytes@.len() ==> bytes@[i] != 0x2E),
            !found ==> forall|i: int| 0 <= i < bytes@.len() ==> bytes@[i] != 0x2E,
        decreases j,
    {
        if bytes[j - 1] == 0x2E {
            dot = j - 1;
            found = true;
            break;
        }
        j = j - 1;
    }
    proof {
        if found {
            lemma_last_dot_scan(bytes@, dot as int);
        } else {
            lemma_last_dot_scan(bytes@, -1);
        }
    }
    let n: usize = if found && dot > 0 { dot } else { bytes.len() };
    assert(hashed_stem(bytes@) =~= bytes@.take(n as int));
    let mut hash: u32 = 0x811C_9DC5;
    let mut i: usize = 0;
    while i < n
        invariant
            n <= bytes@.len(),
            0 <= i <= n,
            hash == fnv1_fold(bytes@.take(i as int)),
        decreases n - i,
    {
        let b0 = bytes[i];
        let b = if b0 >= 65 && b0 <= 90 { b0 + 32 } else { b0 };
        hash = hash.wrapping_mul(0x0100_0193);
        hash = hash ^ (b as u32);
        assert(bytes@.take(i + 1).drop_last() =~= bytes@.take(i as int));
        i = i + 1;
    }
    hash
}

/// Computes the Wwise FOURCC tag from four ASCII characters (little-endian packed).
pub fn fourcc(chars: &[u8; 4]) -> (tag: u32)
    ensures
        tag == chars@[0] + chars@[1] * 256 + chars@[2] * 65536 + chars@[3] * 16777216,
{
    let a = chars[0] as u32;
    let b = chars[1] as u32;
    let c = chars[2] as u32;
    let d = chars[3] as u32;
    assert(a < 256 && b < 256 && c < 256 && d < 256 ==> a | (b << 8) | (c << 16) | (d << 24) == a
        + b * 256 + c * 65536 + d * 16777216) by (bit_vector);
    a | (b << 8) | (c << 16) | (d << 24)
}

proof fn lemma_fold_lower(a: Seq<u8>, b: Seq<u8>)
    requires
        a.len() == b.len(),
        forall|i: int| 0 <= i < a.len() ==> ascii_lower(#[trigger] a[i]) == ascii_lower(b[i]),
    ensures
        fnv1_fold(a) == fnv1_fold(b),
    decreases a.len(),
{
    if a.len() > 0 {
        lemma_fold_lower(a.drop_last(), b.drop_last());
        assert(ascii_lower(a[a.len() - 1]) == ascii_lower(b[b.len() - 1]));
    }
}

/// The name hash ignores ASCII case: two names whose bytes agree once
/// lower-cased hash alike.
pub proof fn lemma_fnv1_case_insensitive(a: Seq<u8>, b: Seq<u8>)
    requires
        a.map_values(|x: u8| ascii_lower(x)) == b.map_values(|x: u8| ascii_lower(x)),
    ensures
        spec_fnv1_32(a) == spec_fnv1_32(b),
{
    let la = a.map_values(|x: u8| ascii_lower(x));
    let lb = b.map_values(|x: u8| ascii_lower(x));
    assert(a.len() == la.len() && b.len() == lb.len());
    assert forall|i: int| 0 <= i < a.len() implies ascii_lower(#[trigger] a[i]) == ascii_lower(
        b[i],
    ) by {
        assert(la[i] == lb[i]);
    }
    assert forall|i: int| 0 <= i < a.len() implies (#[trigger] a[i] == 0x2E) == (b[i] == 0x2E) by {
        assert(ascii_lower(a[i]) == ascii_lower(b[i]));
    }
    lemma_last_dot_range(a);
    let d = last_dot(a);
    assert forall|j: int| d < j < b.len() implies b[j] != 0x2E by {
        assert((a[j] == 0x2E) == (b[j] == 0x2E));
    }
    if d >= 0 {
        assert((a[d] == 0x2E) == (b[d] == 0x2E));
    }
    lemma_last_dot_scan(b, last_dot(a));
    if d > 0 {
        lemma_fold_lower(a.take(d), b.take(d));
    } else {
        lemma_fold_lower(a, b);
    }
}

/// A file extension is not hashed: `stem.ext` hashes as the FNV1 of `stem`,
/// and as `stem` itself when the stem has no dot of its own.
pub proof fn lemma_fnv1_strips_extension(stem: Seq<u8>, ext: Seq<u8>)
    requires
        stem.len() > 0,
        !ext.contains(0x2E),
    ensures
        spec_fnv1_32(stem + seq![0x2Eu8] + ext) == fnv1_fold(stem),
        !stem.contains(0x2E) ==> spec_fnv1_32(stem) == fnv1_fold(stem),
{
    let full = stem + seq![0x2Eu8] + ext;
    assert forall|j: int| stem.len() < j < full.len() implies full[j] != 0x2E by {
        if full[j] == 0x2E {
            assert(ext[j - stem.len() - 1] == 0x2E);
            assert(ext.contains(0x2E));
        }
    }
    lemma_last_dot_scan(full, stem.len() as int);
    assert(full.take(stem.len() as int) =~= stem);
    if !stem.contains(0x2E) {
        assert forall|j: int| -1 < j < stem.len() implies stem[j] != 0x2E by {
            if stem[j] == 0x2E {
                assert(stem.contains(0x2E));
            }
        }
        lemma_last_dot_scan(stem, -1);
    }
}

} // verus!
