//! PCK language string map.
//!
//! The string map stores a count, then `(offset, id)` pairs, then
//! null-terminated UTF-16LE strings at those offsets (relative to the start of
//! the map).

use vstd::prelude::*;
use vstd::string::StringSliceAdditionalSpecFns;

use vstd::utf8::is_ascii_chars;

use crate::listing::{
    drawn_from, holds_all, is_sorted_listing, lemma_listing_map_full, lemma_sorted_listing_unique,
    listing_map, sort_by_id, sorted_listing,
};
use crate::bytes::{
    spec_u16_from_be_bytes, spec_u16_from_le_bytes, spec_u16_to_le_bytes, spec_u32_from_be_bytes,
    spec_u32_from_le_bytes, spec_u32_to_le_bytes, zc_read_u16_be, zc_read_u32_be,
};

verus! {

broadcast use crate::bytes::group_bytes;

// ── UTF-16 ──

/// The UTF-16 code units of one character.
pub open spec fn utf16_of_char(c: char) -> Seq<u16> {
    let v = c as u32;
    if v < 0x10000 {
        seq![v as u16]
    } else {
        seq![(0xD800 + (v - 0x10000) / 0x400) as u16, (0xDC00 + (v - 0x10000) % 0x400) as u16]
    }
}

/// The UTF-16 encoding of a character sequence.
pub open spec fn utf16_encode(s: Seq<char>) -> Seq<u16>
    decreases s.len(),
{
    if s.len() == 0 {
        Seq::empty()
    } else {
        utf16_encode(s.drop_last()) + utf16_of_char(s.last())
    }
}

/// A high (leading) surrogate code unit.
pub open spec fn is_high_surrogate(u: u16) -> bool {
    0xD800 <= u <= 0xDBFF
}

/// A low (trailing) surrogate code unit.
pub open spec fn is_low_surrogate(u: u16) -> bool {
    0xDC00 <= u <= 0xDFFF
}

/// Lossy UTF-16 decoding: a surrogate pair gives one character, any other
/// surrogate gives U+FFFD, every other unit gives the character of that value.
pub open spec fn utf16_decode_lossy(u: Seq<u16>) -> Seq<char>
    decreases u.len(),
{
    if u.len() == 0 {
        Seq::empty()
    } else if !is_high_surrogate(u[0]) && !is_low_surrogate(u[0]) {
        seq![(u[0] as u32) as char] + utf16_decode_lossy(u.drop_first())
    } else if is_high_surrogate(u[0]) && u.len() >= 2 && is_low_surrogate(u[1]) {
        seq![
            (0x10000 + (u[0] - 0xD800) * 0x400 + (u[1] - 0xDC00)) as char,
        ] + utf16_decode_lossy(u.subrange(2, u.len() as int))
    } else {
        seq!['\u{FFFD}'] + utf16_decode_lossy(u.drop_first())
    }
}

/// The code unit of each character, when each fits in one unit.
pub open spec fn units_of_ascii(s: Seq<char>) -> Seq<u16> {
    Seq::new(s.len(), |i: int| (s[i] as u32) as u16)
}

proof fn lemma_utf16_encode_ascii(s: Seq<char>)
    requires
        is_ascii_chars(s),
    ensures
        utf16_encode(s) == units_of_ascii(s),
    decreases s.len(),
{
    broadcast use vstd::utf8::is_ascii_chars_nat_bound;

    if s.len() > 0 {
        lemma_utf16_encode_ascii(s.drop_last());
        assert((s[s.len() - 1] as nat) < 128);
        assert(utf16_encode(s) =~= units_of_ascii(s));
    }
}

proof fn lemma_utf16_decode_ascii(s: Seq<char>)
    requires
        is_ascii_chars(s),
    ensures
        utf16_decode_lossy(units_of_ascii(s)) == s,
    decreases s.len(),
{
    broadcast use vstd::utf8::is_ascii_chars_nat_bound;

    if s.len() > 0 {
        let u = units_of_ascii(s);
        assert((s[0] as nat) < 128);
        assert(u.drop_first() =~= units_of_ascii(s.drop_first()));
        assert(is_ascii_chars(s.drop_first()));
        lemma_utf16_decode_ascii(s.drop_first());
        let c = s[0] as u32;
        assert((u[0] as u32) == c);
        vstd::utf8::char_u32_cast(s[0], c);
        assert(utf16_decode_lossy(u) =~= s);
    }
}

/// Decoding the UTF-16 encoding of an ASCII string gives the string back.
pub proof fn lemma_utf16_ascii_roundtrip(s: Seq<char>)
    requires
        is_ascii_chars(s),
    ensures
        utf16_encode(s) == units_of_ascii(s),
        utf16_encode(s).len() == s.len(),
        utf16_decode_lossy(utf16_encode(s)) == s,
{
    lemma_utf16_encode_ascii(s);
    lemma_utf16_decode_ascii(s);
}

/// Builds a string from UTF-16 code units with `String::from_utf16_lossy`.
///
/// Trusted: std documents that unpaired surrogates become U+FFFD and that the
/// rest is decoded as UTF-16, which `utf16_decode_lossy` states.
#[verifier::external_body]
fn string_from_utf16_lossy(units: &[u16]) -> (s: String)
    ensures
        s@ == utf16_decode_lossy(units@),
{
    String::from_utf16_lossy(units)
}

/// The UTF-16 code units of a string, from `str::encode_utf16`.
///
/// Trusted: std documents `encode_utf16` as the UTF-16 encoding of the
/// string, which `utf16_encode` states.
#[verifier::external_body]
fn encode_utf16_units(s: &str) -> (units: Vec<u16>)
    ensures
        units@ == utf16_encode(s@),
{
    s.encode_utf16().collect()
}


// ── Language map ──

/// Language ID → name, held in a `hashbrown::HashMap`.
#[verifier::external_body]
#[derive(Debug)]
pub struct LanguageMap {
    inner: hashbrown::HashMap<u32, String>,
}

/// What a language map holds: each language ID with its name.
pub uninterp spec fn language_map_entries(m: LanguageMap) -> Map<u32, Seq<char>>;

impl View for LanguageMap {
    type V = Map<u32, Seq<char>>;

    open spec fn view(&self) -> Map<u32, Seq<char>> {
        language_map_entries(*self)
    }
}

impl LanguageMap {
    /// An empty map (`hashbrown::HashMap::new`).
    ///
    /// Trusted: a new hash map holds nothing.
    #[verifier::external_body]
    pub fn new() -> (m: Self)
        ensures
            language_map_entries(m).dom() == Set::<u32>::empty(),
    {
        LanguageMap { inner: hashbrown::HashMap::new() }
    }

    /// Sets the name of `id` (`hashbrown::HashMap::insert`).
    ///
    /// Trusted: after an insert the key maps to the new value and every other
    /// key keeps its value.
    #[verifier::external_body]
    pub fn insert(&mut self, id: u32, name: String)
        ensures
            language_map_entries(*final(self)) == language_map_entries(*old(self)).insert(id, name@),
    {
        self.inner.insert(id, name);
    }

    /// The name of `id`, if it has one (`hashbrown::HashMap::get`).
    ///
    /// Trusted: `get` finds the value stored under the key, and only that.
    #[verifier::external_body]
    pub fn get(&self, id: u32) -> (r: Option<&String>)
        ensures
            match r {
                Some(name) => language_map_entries(*self).contains_key(id)
                    && language_map_entries(*self)[id] == name@,
                None => !language_map_entries(*self).contains_key(id),
            },
    {
        self.inner.get(&id)
    }

    /// The number of languages (`hashbrown::HashMap::len`).
    ///
    /// Trusted: `len` counts the keys.
    #[verifier::external_body]
    pub fn len(&self) -> (n: usize)
        ensures
            n == language_map_entries(*self).len(),
    {
        self.inner.len()
    }

    /// Every entry once, in the map's own order (`hashbrown::HashMap::iter`).
    ///
    /// Trusted: iteration yields each key once with its value. The order
    /// depends on the hasher's seed, so nothing is said of it.
    #[verifier::external_body]
    pub fn entries(&self) -> (v: Vec<(u32, &String)>)
        ensures
            v@.len() == language_map_entries(*self).len(),
            forall|i: int|
                0 <= i < v@.len() ==> language_map_entries(*self).contains_key(#[trigger] v@[i].0)
                    && language_map_entries(*self)[v@[i].0] == v@[i].1@,
            forall|i: int, j: int| 0 <= i < j < v@.len() ==> v@[i].0 != v@[j].0,
            forall|k: u32| #[trigger]
                language_map_entries(*self).contains_key(k) ==> exists|i: int|
                    0 <= i < v@.len() && v@[i].0 == k,
    {
        self.inner.iter().map(|(id, name)| (*id, name)).collect()
    }
}

// ── Parsing ──

/// The little-endian `u32` at `pos`.
pub open spec fn u32_at(d: Seq<u8>, pos: int) -> u32 {
    spec_u32_from_le_bytes(d.subrange(pos, pos + 4))
}

/// The number of `(offset, id)` pairs that parsing reads: the count, cut
/// short where the data ends.
pub open spec fn pairs_read(d: Seq<u8>) -> int {
    if d.len() < 4 {
        0
    } else if u32_at(d, 0) <= (d.len() - 4) / 8 {
        u32_at(d, 0) as int
    } else {
        (d.len() - 4) / 8
    }
}

/// The UTF-16 code units of a null-terminated UTF-16LE string at the start
/// of `d` (up to the terminator or the last whole unit).
pub open spec fn wstring_units(d: Seq<u8>) -> Seq<u16>
    decreases d.len(),
{
    if d.len() < 2 {
        Seq::empty()
    } else {
        let ch = spec_u16_from_le_bytes(d.subrange(0, 2));
        if ch == 0 {
            Seq::empty()
        } else {
            seq![ch] + wstring_units(d.subrange(2, d.len() as int))
        }
    }
}

/// The string stored at `offset` in `d`.
pub open spec fn wstring_at(d: Seq<u8>, offset: int) -> Seq<char> {
    utf16_decode_lossy(wstring_units(d.subrange(offset, d.len() as int)))
}

/// The map after the first `n` pairs: each pair whose offset lies inside the
/// data sets its ID to the string at that offset, later pairs winning.
pub open spec fn string_map_upto(d: Seq<u8>, n: int) -> Map<u32, Seq<char>>
    decreases n,
{
    if n <= 0 {
        Map::empty()
    } else {
        let m = string_map_upto(d, n - 1);
        let offset = u32_at(d, 4 + 8 * (n - 1));
        let id = u32_at(d, 8 + 8 * (n - 1));
        if offset < d.len() {
            m.insert(id, wstring_at(d, offset as int))
        } else {
            m
        }
    }
}

/// The language map that a string map's bytes describe.
pub open spec fn string_map_of(d: Seq<u8>) -> Map<u32, Seq<char>> {
    string_map_upto(d, pairs_read(d))
}

// ── The big-endian layout ──

/// The big-endian `u32` at `pos`.
pub open spec fn be32_at(d: Seq<u8>, pos: int) -> u32 {
    spec_u32_from_be_bytes(d.subrange(pos, pos + 4))
}

/// The number of `(offset, id)` pairs read from a big-endian string map.
pub open spec fn pairs_read_be(d: Seq<u8>) -> int {
    if d.len() < 4 {
        0
    } else if be32_at(d, 0) <= (d.len() - 4) / 8 {
        be32_at(d, 0) as int
    } else {
        (d.len() - 4) / 8
    }
}

/// The UTF-16 code units of a null-terminated UTF-16BE string at the start
/// of `d`.
pub open spec fn wstring_units_be(d: Seq<u8>) -> Seq<u16>
    decreases d.len(),
{
    if d.len() < 2 {
        Seq::empty()
    } else {
        let ch = spec_u16_from_be_bytes(d.subrange(0, 2));
        if ch == 0 {
            Seq::empty()
        } else {
            seq![ch] + wstring_units_be(d.subrange(2, d.len() as int))
        }
    }
}

/// The UTF-16BE string stored at `offset` in `d`.
pub open spec fn wstring_at_be(d: Seq<u8>, offset: int) -> Seq<char> {
    utf16_decode_lossy(wstring_units_be(d.subrange(offset, d.len() as int)))
}

/// The map after the first `n` pairs of a big-endian string map.
pub open spec fn string_map_upto_be(d: Seq<u8>, n: int) -> Map<u32, Seq<char>>
    decreases n,
{
    if n <= 0 {
        Map::empty()
    } else {
        let m = string_map_upto_be(d, n - 1);
        let offset = be32_at(d, 4 + 8 * (n - 1));
        let id = be32_at(d, 8 + 8 * (n - 1));
        if offset < d.len() {
            m.insert(id, wstring_at_be(d, offset as int))
        } else {
            m
        }
    }
}

/// The language map that a big-endian string map's bytes describe: the same
/// layout as the little-endian one, with every number and code unit stored
/// big-endian.
pub open spec fn string_map_of_be(d: Seq<u8>) -> Map<u32, Seq<char>> {
    string_map_upto_be(d, pairs_read_be(d))
}

/// Read a null-terminated UTF-16BE string from a byte slice.
fn read_wstring_be(data: &[u8]) -> (s: String)
    ensures
        s@ == utf16_decode_lossy(wstring_units_be(data@)),
{
    let mut chars: Vec<u16> = Vec::new();
    let mut i: usize = 0;
    let mut done = false;
    assert(data@.subrange(0, data@.len() as int) =~= data@);
    assert(chars@ + wstring_units_be(data@) =~= wstring_units_be(data@));
    while !done && data.len() - i >= 2
        invariant
            0 <= i <= data@.len(),
            done ==> wstring_units_be(data@.subrange(i as int, data@.len() as int)) == Seq::<u16>::empty(),
            chars@ + wstring_units_be(data@.subrange(i as int, data@.len() as int)) == wstring_units_be(
                data@,
            ),
        decreases data@.len() - i + (if done { 0int } else { 1int }),
    {
        let ghost rest = data@.subrange(i as int, data@.len() as int);
        let ch = zc_read_u16_be(&data[i..i + 2]).unwrap();
        assert(rest.subrange(0, 2) =~= data@.subrange(i as int, i + 2));
        if ch == 0 {
            assert(wstring_units_be(rest) =~= Seq::<u16>::empty());
            done = true;
        } else {
            let ghost next = data@.subrange(i + 2, data@.len() as int);
            assert(rest.subrange(2, rest.len() as int) =~= next);
            assert(wstring_units_be(rest) == seq![ch] + wstring_units_be(next));
            let ghost prev = chars@;
            chars.push(ch);
            assert(chars@ + wstring_units_be(next) =~= prev + wstring_units_be(rest)) by {
                assert(prev + (seq![ch] + wstring_units_be(next)) =~= (prev + seq![ch])
                    + wstring_units_be(next));
            }
            i = i + 2;
        }
    }
    proof {
        let rest = data@.subrange(i as int, data@.len() as int);
        assert(wstring_units_be(rest) =~= Seq::<u16>::empty());
        assert(chars@ + Seq::<u16>::empty() =~= chars@);
    }
    string_from_utf16_lossy(chars.as_slice())
}

/// Read a null-terminated UTF-16LE string from a byte slice.
fn read_wstring(data: &[u8]) -> (s: String)
    ensures
        s@ == utf16_decode_lossy(wstring_units(data@)),
{
    let mut chars: Vec<u16> = Vec::new();
    let mut i: usize = 0;
    let mut done = false;
    assert(data@.subrange(0, data@.len() as int) =~= data@);
    assert(chars@ + wstring_units(data@) =~= wstring_units(data@));
    while !done && data.len() - i >= 2
        invariant
            0 <= i <= data@.len(),
            done ==> wstring_units(data@.subrange(i as int, data@.len() as int)) == Seq::<u16>::empty(),
            chars@ + wstring_units(data@.subrange(i as int, data@.len() as int)) == wstring_units(
                data@,
            ),
        decreases data@.len() - i + (if done { 0int } else { 1int }),
    {
        let ghost rest = data@.subrange(i as int, data@.len() as int);
        let ch = vstd::bytes::u16_from_le_bytes(&data[i..i + 2]);
        assert(rest.subrange(0, 2) =~= data@.subrange(i as int, i + 2));
        if ch == 0 {
            assert(wstring_units(rest) =~= Seq::<u16>::empty());
            done = true;
        } else {
            let ghost next = data@.subrange(i + 2, data@.len() as int);
            assert(rest.subrange(2, rest.len() as int) =~= next);
            assert(wstring_units(rest) == seq![ch] + wstring_units(next));
            let ghost prev = chars@;
            chars.push(ch);
            assert(chars@ + wstring_units(next) =~= prev + wstring_units(rest)) by {
                assert(prev + (seq![ch] + wstring_units(next)) =~= (prev + seq![ch])
                    + wstring_units(next));
            }
            i = i + 2;
        }
    }
    proof {
        let rest = data@.subrange(i as int, data@.len() as int);
        assert(wstring_units(rest) =~= Seq::<u16>::empty());
        assert(chars@ + Seq::<u16>::empty() =~= chars@);
    }
    string_from_utf16_lossy(chars.as_slice())
}

// ── Writing ──

/// The bytes reserved for a name: two per UTF-8 byte, plus the terminator.
pub open spec fn name_span(name: Seq<char>) -> int {
    (vstd::utf8::encode_utf8(name).len() + 1) as int * 2
}

/// The bytes reserved for the first `i` names of a listing.
pub open spec fn spans_before(s: Seq<(u32, Seq<char>)>, i: int) -> int
    decreases i,
{
    if i <= 0 {
        0
    } else {
        spans_before(s, i - 1) + name_span(s[i - 1].1)
    }
}

/// The `(offset, id)` pair written for entry `i` of a listing.
pub open spec fn pair_bytes(s: Seq<(u32, Seq<char>)>, i: int) -> Seq<u8> {
    spec_u32_to_le_bytes((4 + 8 * s.len() + spans_before(s, i)) as u32) + spec_u32_to_le_bytes(
        s[i].0,
    )
}

/// The pairs of the first `k` entries.
pub open spec fn pairs_bytes(s: Seq<(u32, Seq<char>)>, k: int) -> Seq<u8>
    decreases k,
{
    if k <= 0 {
        Seq::empty()
    } else {
        pairs_bytes(s, k - 1) + pair_bytes(s, k - 1)
    }
}

/// UTF-16 code units as little-endian bytes.
pub open spec fn units_le(u: Seq<u16>) -> Seq<u8>
    decreases u.len(),
{
    if u.len() == 0 {
        Seq::empty()
    } else {
        units_le(u.drop_last()) + spec_u16_to_le_bytes(u.last())
    }
}

/// A name as written: UTF-16LE units and a null terminator.
pub open spec fn string_bytes(name: Seq<char>) -> Seq<u8> {
    units_le(utf16_encode(name)) + spec_u16_to_le_bytes(0)
}

/// The strings of the first `k` entries.
pub open spec fn strings_bytes(s: Seq<(u32, Seq<char>)>, k: int) -> Seq<u8>
    decreases k,
{
    if k <= 0 {
        Seq::empty()
    } else {
        strings_bytes(s, k - 1) + string_bytes(s[k - 1].1)
    }
}

/// `b` followed by zeros up to a multiple of four bytes.
pub open spec fn padded(b: Seq<u8>) -> Seq<u8> {
    b + Seq::new(((4 - b.len() % 4) % 4) as nat, |i: int| 0u8)
}

/// The bytes of a string map whose entries are `s`, in that order.
pub open spec fn string_map_layout(s: Seq<(u32, Seq<char>)>) -> Seq<u8> {
    if s.len() == 0 {
        spec_u32_to_le_bytes(0)
    } else {
        padded(
            spec_u32_to_le_bytes(s.len() as u32) + pairs_bytes(s, s.len() as int) + strings_bytes(
                s,
                s.len() as int,
            ),
        )
    }
}

/// The offsets that a string map of `m` holds fit in a `u32`.
pub open spec fn string_map_fits(m: Map<u32, Seq<char>>) -> bool {
    let s = sorted_listing(m);
    4 + 8 * s.len() + spans_before(s, s.len() as int) <= u32::MAX
}

/// The listing of a vector of entries.
pub open spec fn listing_of(v: Seq<(u32, &String)>) -> Seq<(u32, Seq<char>)> {
    v.map_values(|p: (u32, &String)| (p.0, p.1@))
}

proof fn lemma_spans_monotone(s: Seq<(u32, Seq<char>)>, i: int, j: int)
    requires
        0 <= i <= j,
    ensures
        spans_before(s, i) <= spans_before(s, j),
    decreases j - i,
{
    if i < j {
        lemma_spans_monotone(s, i, j - 1);
    }
}

/// Appends UTF-16 code units as little-endian bytes.
fn push_units_le(buf: &mut Vec<u8>, units: &[u16])
    ensures
        final(buf)@ == old(buf)@ + units_le(units@),
{
    let mut j: usize = 0;
    while j < units.len()
        invariant
            j <= units@.len(),
            buf@ == old(buf)@ + units_le(units@.subrange(0, j as int)),
        decreases units@.len() - j,
    {
        let b = vstd::bytes::u16_to_le_bytes(units[j]);
        let ghost prev = buf@;
        buf.push(b[0]);
        buf.push(b[1]);
        proof {
            let sub = units@.subrange(0, j + 1);
            assert(sub.drop_last() =~= units@.subrange(0, j as int));
            assert(b@ =~= seq![b@[0], b@[1]]);
            assert(buf@ =~= prev + b@);
            assert(units_le(sub) == units_le(sub.drop_last()) + spec_u16_to_le_bytes(sub.last()));
            assert(buf@ =~= old(buf)@ + units_le(sub));
        }
        j = j + 1;
    }
    assert(units@.subrange(0, units@.len() as int) =~= units@);
}

proof fn lemma_sorted_entries_listing<'b>(v: Seq<(u32, &'b String)>, sorted: Seq<(u32, &'b String)>, mm: Map<u32, Seq<char>>)
    requires
        forall|i: int| 0 <= i < v.len() ==> mm.contains_key(#[trigger] v[i].0) && mm[v[i].0] == v[i].1@,
        forall|k: u32| #[trigger] mm.contains_key(k) ==> exists|i: int| 0 <= i < v.len() && v[i].0 == k,
        sorted.len() == v.len(),
        forall|i: int, j: int| 0 <= i < j < sorted.len() ==> sorted[i].0 < sorted[j].0,
        drawn_from(sorted, v, v.len() as int),
        holds_all(sorted, v, v.len() as int),
    ensures
        is_sorted_listing(listing_of(sorted), mm),
        listing_of(sorted) == sorted_listing(mm),
{
    reveal(drawn_from);
    reveal(holds_all);
    let s = listing_of(sorted);
    assert forall|k: u32| #[trigger] mm.contains_key(k) implies exists|i: int|
        0 <= i < s.len() && s[i].0 == k by {
        let j = choose|j: int| 0 <= j < v.len() && v[j].0 == k;
        let a = choose|a: int| 0 <= a < sorted.len() && sorted[a] == v[j];
        assert(s[a].0 == k);
    }
    assert forall|i: int| 0 <= i < s.len() implies mm.contains_key(#[trigger] s[i].0) && mm[s[i].0]
        == s[i].1 by {
        let j = choose|j: int| 0 <= j < v.len() && sorted[i] == v[j];
    }
    assert(is_sorted_listing(s, mm));
    lemma_sorted_listing_unique(s, sorted_listing(mm), mm);
}

/// Whether the offsets of a string map holding the entries of `m` fit in a
/// `u32`, so that the map can be written.
pub(crate) fn string_map_fits_exec(m: &LanguageMap) -> (b: bool)
    ensures
        b == string_map_fits(language_map_entries(*m)),
{
    let ghost mm = language_map_entries(*m);
    let v = m.entries();
    let sorted = sort_by_id(v);
    let ghost s = listing_of(sorted@);
    proof {
        lemma_sorted_entries_listing(v@, sorted@, mm);
    }
    let n = sorted.len();
    if n as u64 > 0x2000_0000 {
        proof {
            lemma_spans_monotone(s, 0, n as int);
        }
        return false;
    }
    let mut total: u64 = 4 + 8 * n as u64;
    let mut i: usize = 0;
    while i < n
        invariant
            n == sorted@.len(),
            n == s.len(),
            n <= 0x2000_0000,
            s == listing_of(sorted@),
            s == sorted_listing(mm),
            mm == language_map_entries(*m),
            i <= n,
            total == 4 + 8 * n + spans_before(s, i as int),
            total <= u32::MAX + 8 * n + 4,
        decreases n - i,
    {
        let name = sorted[i].1.as_str();
        let len = name.as_bytes().len();
        assert(s[i as int].1 == sorted@[i as int].1@);
        assert(name@ == s[i as int].1);
        assert(len == vstd::utf8::encode_utf8(s[i as int].1).len());
        assert(spans_before(s, i + 1) == spans_before(s, i as int) + (len + 1) * 2);
        proof {
            lemma_spans_monotone(s, i + 1, n as int);
            lemma_spans_monotone(s, 0, i as int);
        }
        assert(s == sorted_listing(mm));
        if len as u64 > 0xFFFF_FFFF {
            proof {
                lemma_spans_monotone(s, i + 1, n as int);
                lemma_spans_monotone(s, 0, i as int);
            }
            return false;
        }
        total = total + (len as u64 + 1) * 2;
        if total > 0xFFFF_FFFF {
            proof {
                lemma_spans_monotone(s, i + 1, n as int);
            }
            return false;
        }
        i = i + 1;
    }
    total <= 0xFFFF_FFFF
}

/// The bytes of a string map holding the entries of `m`, in increasing ID
/// order.
pub(crate) fn string_map_bytes(m: &LanguageMap) -> (buf: Vec<u8>)
    requires
        string_map_fits(language_map_entries(*m)),
    ensures
        is_sorted_listing(sorted_listing(language_map_entries(*m)), language_map_entries(*m)),
        buf@ == string_map_layout(sorted_listing(language_map_entries(*m))),
{
    let ghost mm = language_map_entries(*m);
    let v = m.entries();
    let sorted = sort_by_id(v);
    let ghost s = listing_of(sorted@);
    proof {
        lemma_sorted_entries_listing(v@, sorted@, mm);
    }
    let n = sorted.len();
    let mut buf: Vec<u8> = Vec::new();
    if n == 0 {
        crate::bytes::push_u32_le(&mut buf, 0);
        assert(buf@ =~= string_map_layout(s));
        return buf;
    }
    proof {
        lemma_spans_monotone(s, 0, n as int);
    }
    let count = n as u32;
    crate::bytes::push_u32_le(&mut buf, count);
    let strings_start: u32 = 4 + 8 * count;
    // First pass: the offset of each string.
    let mut offsets: Vec<u32> = Vec::new();
    let mut current: u32 = strings_start;
    let mut i: usize = 0;
    while i < n
        invariant
            n == sorted@.len(),
            n == s.len(),
            s == listing_of(sorted@),
            4 + 8 * n + spans_before(s, n as int) <= u32::MAX,
            i <= n,
            current == 4 + 8 * n + spans_before(s, i as int),
            offsets@.len() == i,
            forall|k: int| 0 <= k < i ==> #[trigger] offsets@[k] == 4 + 8 * n + spans_before(s, k),
        decreases n - i,
    {
        proof {
            lemma_spans_monotone(s, i + 1, n as int);
        }
        offsets.push(current);
        let name = sorted[i].1;
        assert(s[i as int].1 == name@);
        let len = name.as_str().len();
        current = current + (len as u32 + 1) * 2;
        i = i + 1;
    }
    // Write the (offset, id) pairs.
    let mut i: usize = 0;
    assert(buf@ =~= spec_u32_to_le_bytes(count) + pairs_bytes(s, 0));
    while i < n
        invariant
            n == sorted@.len(),
            n == s.len(),
            s == listing_of(sorted@),
            count == n,
            i <= n,
            offsets@.len() == n,
            forall|k: int| 0 <= k < n ==> #[trigger] offsets@[k] == 4 + 8 * n + spans_before(s, k),
            buf@ == spec_u32_to_le_bytes(count) + pairs_bytes(s, i as int),
        decreases n - i,
    {
        let ghost prev = buf@;
        crate::bytes::push_u32_le(&mut buf, offsets[i]);
        crate::bytes::push_u32_le(&mut buf, sorted[i].0);
        proof {
            assert(offsets@[i as int] == (4 + 8 * s.len() + spans_before(s, i as int)) as u32);
            assert(buf@ =~= prev + pair_bytes(s, i as int));
        }
        i = i + 1;
    }
    // Write the strings (UTF-16LE, null-terminated).
    let mut i: usize = 0;
    assert(buf@ =~= spec_u32_to_le_bytes(count) + pairs_bytes(s, n as int) + strings_bytes(s, 0));
    while i < n
        invariant
            n == sorted@.len(),
            n == s.len(),
            s == listing_of(sorted@),
            count == n,
            i <= n,
            buf@ == spec_u32_to_le_bytes(count) + pairs_bytes(s, n as int) + strings_bytes(s, i as int),
        decreases n - i,
    {
        let ghost prev = buf@;
        let name = sorted[i].1;
        let units = encode_utf16_units(name.as_str());
        push_units_le(&mut buf, units.as_slice());
        let z = vstd::bytes::u16_to_le_bytes(0);
        buf.push(z[0]);
        buf.push(z[1]);
        proof {
            assert(s[i as int].1 == name@);
            assert(z@ =~= seq![z@[0], z@[1]]);
            assert(buf@ =~= prev + string_bytes(s[i as int].1));
        }
        i = i + 1;
    }
    // Pad to 4-byte alignment.
    let ghost body = buf@;
    let padding = (4 - buf.len() % 4) % 4;
    let mut k: usize = 0;
    while k < padding
        invariant
            k <= padding,
            padding == (4 - body.len() % 4) % 4,
            buf@ == body + Seq::new(k as nat, |i: int| 0u8),
        decreases padding - k,
    {
        buf.push(0);
        k = k + 1;
        assert(buf@ =~= body + Seq::new(k as nat, |i: int| 0u8));
    }
    assert(buf@ =~= string_map_layout(s));
    buf
}

// ── Round trip ──

/// No character is NUL.
pub open spec fn nul_free(s: Seq<char>) -> bool {
    forall|i: int| 0 <= i < s.len() ==> (#[trigger] s[i] as u32) != 0
}

proof fn lemma_units_le_len(u: Seq<u16>)
    ensures
        units_le(u).len() == 2 * u.len(),
    decreases u.len(),
{
    if u.len() > 0 {
        lemma_units_le_len(u.drop_last());
    }
}

proof fn lemma_units_le_front(u: Seq<u16>)
    requires
        u.len() > 0,
    ensures
        units_le(u) == spec_u16_to_le_bytes(u[0]) + units_le(u.drop_first()),
    decreases u.len(),
{
    if u.len() == 1 {
        assert(u.drop_last() =~= Seq::<u16>::empty());
        assert(u.drop_first() =~= Seq::<u16>::empty());
        assert(units_le(u) =~= spec_u16_to_le_bytes(u[0]) + units_le(u.drop_first()));
    } else {
        lemma_units_le_front(u.drop_last());
        assert(u.drop_last().drop_first() =~= u.drop_first().drop_last());
        assert(u.drop_first().last() == u.last());
        assert(units_le(u) =~= spec_u16_to_le_bytes(u[0]) + units_le(u.drop_first()));
    }
}

proof fn lemma_wstring_units_prefix(d: Seq<u8>, u: Seq<u16>)
    requires
        d.len() >= 2 * u.len() as int + 2,
        d.subrange(0, 2 * u.len() as int + 2) == units_le(u) + spec_u16_to_le_bytes(0),
        forall|i: int| 0 <= i < u.len() ==> #[trigger] u[i] != 0,
    ensures
        wstring_units(d) == u,
    decreases u.len(),
{
    lemma_units_le_len(u);
    if u.len() == 0 {
        assert(d.subrange(0, 2) =~= spec_u16_to_le_bytes(0));
        assert(wstring_units(d) =~= u);
    } else {
        lemma_units_le_front(u);
        let rest = u.drop_first();
        lemma_units_le_len(rest);
        assert(d.subrange(0, 2) =~= d.subrange(0, 2 * u.len() as int + 2).subrange(0, 2));
        assert((units_le(u) + spec_u16_to_le_bytes(0)).subrange(0, 2) =~= spec_u16_to_le_bytes(u[0]));
        let d2 = d.subrange(2, d.len() as int);
        assert(d2.subrange(0, 2 * rest.len() as int + 2) =~= units_le(rest) + spec_u16_to_le_bytes(0)) by {
            assert(d2.subrange(0, 2 * rest.len() as int + 2) =~= d.subrange(0, 2 * u.len() as int + 2).subrange(
                2,
                2 * u.len() as int + 2,
            ));
            assert((units_le(u) + spec_u16_to_le_bytes(0)) =~= spec_u16_to_le_bytes(u[0]) + (
            units_le(rest) + spec_u16_to_le_bytes(0)));
        }
        lemma_wstring_units_prefix(d2, rest);
        assert(wstring_units(d) =~= u);
    }
}

proof fn lemma_pairs_bytes(s: Seq<(u32, Seq<char>)>, k: int)
    requires
        0 <= k <= s.len(),
    ensures
        pairs_bytes(s, k).len() == 8 * k,
        forall|i: int|
            0 <= i < k ==> #[trigger] pairs_bytes(s, k).subrange(8 * i, 8 * i + 8) == pair_bytes(
                s,
                i,
            ),
    decreases k,
{
    if k > 0 {
        lemma_pairs_bytes(s, k - 1);
        let p = pairs_bytes(s, k - 1);
        assert forall|i: int| 0 <= i < k implies #[trigger] pairs_bytes(s, k).subrange(
            8 * i,
            8 * i + 8,
        ) == pair_bytes(s, i) by {
            if i < k - 1 {
                assert(pairs_bytes(s, k).subrange(8 * i, 8 * i + 8) =~= p.subrange(8 * i, 8 * i + 8));
            } else {
                assert(pairs_bytes(s, k).subrange(8 * i, 8 * i + 8) =~= pair_bytes(s, i));
            }
        }
    }
}

/// Every name in the listing is ASCII and NUL-free.
pub open spec fn plain_names(s: Seq<(u32, Seq<char>)>) -> bool {
    forall|i: int| 0 <= i < s.len() ==> is_ascii_chars(#[trigger] s[i].1) && nul_free(s[i].1)
}

proof fn lemma_plain_string_bytes(name: Seq<char>)
    requires
        is_ascii_chars(name),
        nul_free(name),
    ensures
        string_bytes(name).len() == name_span(name),
        string_bytes(name) == units_le(utf16_encode(name)) + spec_u16_to_le_bytes(0),
        utf16_encode(name).len() == name.len(),
        forall|i: int| 0 <= i < utf16_encode(name).len() ==> #[trigger] utf16_encode(name)[i] != 0,
        utf16_decode_lossy(utf16_encode(name)) == name,
{
    broadcast use vstd::utf8::is_ascii_chars_nat_bound;

    lemma_utf16_ascii_roundtrip(name);
    lemma_units_le_len(utf16_encode(name));
    vstd::utf8::is_ascii_chars_encode_utf8(name);
    assert forall|i: int| 0 <= i < utf16_encode(name).len() implies #[trigger] utf16_encode(name)[i]
        != 0 by {
        assert((name[i] as nat) < 128);
        assert((name[i] as u32) != 0);
    }
}

proof fn lemma_sub_of_prefix(b: Seq<u8>, body: Seq<u8>, x: int, y: int)
    requires
        body.len() <= b.len(),
        b.subrange(0, body.len() as int) == body,
        0 <= x <= y <= body.len(),
    ensures
        b.subrange(x, y) == body.subrange(x, y),
{
    assert forall|j: int| 0 <= j < y - x implies b.subrange(x, y)[j] == body.subrange(x, y)[j] by {
        assert(b.subrange(0, body.len() as int)[x + j] == b[x + j]);
    }
    assert(b.subrange(x, y) =~= body.subrange(x, y));
}

proof fn lemma_strings_bytes(s: Seq<(u32, Seq<char>)>, k: int)
    requires
        0 <= k <= s.len(),
        plain_names(s),
    ensures
        strings_bytes(s, k).len() == spans_before(s, k),
        forall|i: int|
            0 <= i < k ==> #[trigger] strings_bytes(s, k).subrange(
                spans_before(s, i),
                spans_before(s, i + 1),
            ) == string_bytes(s[i].1),
    decreases k,
{
    if k > 0 {
        lemma_strings_bytes(s, k - 1);
        lemma_plain_string_bytes(s[k - 1].1);
        let p = strings_bytes(s, k - 1);
        assert(strings_bytes(s, k) == p + string_bytes(s[k - 1].1));
        assert forall|i: int| 0 <= i < k implies #[trigger] strings_bytes(s, k).subrange(
            spans_before(s, i),
            spans_before(s, i + 1),
        ) == string_bytes(s[i].1) by {
            if i < k - 1 {
                lemma_spans_monotone(s, i + 1, k - 1);
                lemma_spans_monotone(s, i, i + 1);
                lemma_spans_monotone(s, 0, i);
                lemma_plain_string_bytes(s[i].1);
                assert(strings_bytes(s, k).subrange(spans_before(s, i), spans_before(s, i + 1))
                    =~= p.subrange(spans_before(s, i), spans_before(s, i + 1)));
            } else {
                assert(strings_bytes(s, k).subrange(spans_before(s, i), spans_before(s, i + 1))
                    =~= string_bytes(s[i].1));
            }
        }
    }
}

/// Parsing the bytes written for a listing of `m` gives `m` back, when every
/// name is ASCII and NUL-free.
pub proof fn lemma_string_map_round_trip(s: Seq<(u32, Seq<char>)>, m: Map<u32, Seq<char>>)
    requires
        is_sorted_listing(s, m),
        plain_names(s),
        4 + 8 * s.len() + spans_before(s, s.len() as int) <= u32::MAX,
    ensures
        string_map_of(string_map_layout(s)) == m,
{
    let n = s.len() as int;
    let b = string_map_layout(s);
    lemma_listing_map_full(s, m);
    if n == 0 {
        assert(u32_at(b, 0) == 0) by {
            assert(b.subrange(0, 4) =~= b);
        }
        assert(string_map_of(b) =~= listing_map(s, 0));
    } else {
        let h = spec_u32_to_le_bytes(n as u32);
        let p = pairs_bytes(s, n);
        let st = strings_bytes(s, n);
        let body = h + p + st;
        lemma_pairs_bytes(s, n);
        lemma_strings_bytes(s, n);
        assert(b.subrange(0, body.len() as int) =~= body);
        assert(u32_at(b, 0) == n) by {
            assert(b.subrange(0, 4) =~= h);
        }
        assert(pairs_read(b) == n);
        assert forall|k: int| 0 <= k <= n implies #[trigger] string_map_upto(b, k) == listing_map(
            s,
            k,
        ) by {
            lemma_upto_matches(s, b, k);
        }
    }
}

proof fn lemma_upto_matches(s: Seq<(u32, Seq<char>)>, b: Seq<u8>, k: int)
    requires
        s.len() > 0,
        b == string_map_layout(s),
        plain_names(s),
        forall|i: int, j: int| 0 <= i < j < s.len() ==> s[i].0 < s[j].0,
        4 + 8 * s.len() + spans_before(s, s.len() as int) <= u32::MAX,
        0 <= k <= s.len(),
    ensures
        string_map_upto(b, k) == listing_map(s, k),
    decreases k,
{
    if k > 0 {
        lemma_upto_matches(s, b, k - 1);
        let n = s.len() as int;
        let i = k - 1;
        let h = spec_u32_to_le_bytes(n as u32);
        let p = pairs_bytes(s, n);
        let st = strings_bytes(s, n);
        let body = h + p + st;
        lemma_pairs_bytes(s, n);
        lemma_strings_bytes(s, n);
        lemma_spans_monotone(s, i + 1, n);
        lemma_spans_monotone(s, i, i + 1);
        lemma_spans_monotone(s, 0, i);
        crate::bytes::lemma_u32_le(n as u32);
        assert(b.subrange(0, body.len() as int) =~= body);
        assert(b.len() >= body.len());
        // The pair of entry i.
        assert(p.subrange(8 * i, 8 * i + 8) == pair_bytes(s, i));
        let off = 4 + 8 * n + spans_before(s, i);
        assert(body.subrange(4 + 8 * i, 12 + 8 * i) =~= pair_bytes(s, i));
        lemma_sub_of_prefix(b, body, 4 + 8 * i, 12 + 8 * i);
        assert(u32_at(b, 4 + 8 * i) == off) by {
            crate::bytes::lemma_u32_le(off as u32);
            assert(b.subrange(4 + 8 * i, 8 + 8 * i) =~= pair_bytes(s, i).subrange(0, 4));
            assert(pair_bytes(s, i).subrange(0, 4) =~= spec_u32_to_le_bytes(off as u32));
        }
        assert(u32_at(b, 8 + 8 * i) == s[i].0) by {
            crate::bytes::lemma_u32_le(s[i].0);
            assert(b.subrange(8 + 8 * i, 12 + 8 * i) =~= pair_bytes(s, i).subrange(4, 8));
            assert(pair_bytes(s, i).subrange(4, 8) =~= spec_u32_to_le_bytes(s[i].0));
        }
        // The string of entry i.
        lemma_plain_string_bytes(s[i].1);
        let u = utf16_encode(s[i].1);
        let len = 2 * u.len() as int + 2;
        lemma_units_le_len(u);
        crate::bytes::lemma_u16_le(0);
        assert(spans_before(s, i + 1) == spans_before(s, i) + len);
        assert(body.subrange(off, off + len) =~= st.subrange(spans_before(s, i), spans_before(s, i + 1)));
        lemma_sub_of_prefix(b, body, off, off + len);
        let d = b.subrange(off, b.len() as int);
        assert(d.subrange(0, len) =~= b.subrange(off, off + len));
        lemma_wstring_units_prefix(d, u);
        assert(wstring_at(b, off) == s[i].1);
        assert(off < b.len());
        assert(string_map_upto(b, k) =~= listing_map(s, k));
    }
}

/// Parsed string map (language ID → name).
pub struct StringMap {
    pub entries: LanguageMap,
}

impl StringMap {
    /// Parse a string map from a byte slice.
    ///
    /// Parsing never fails: pairs past the end of the data are not read, and
    /// a pair whose offset lies outside the data is skipped.
    pub fn parse(data: &[u8]) -> (r: crate::error::Result<Self>)
        ensures
            r matches Ok(m) && language_map_entries(m.entries) == string_map_of(data@),
    {
        let mut entries = LanguageMap::new();
        assert(language_map_entries(entries) =~= string_map_upto(data@, 0));
        if data.len() < 4 {
            return Ok(StringMap { entries });
        }
        let count = vstd::bytes::u32_from_le_bytes(&data[0..4]) as usize;
        assert(count == u32_at(data@, 0));
        if count == 0 {
            return Ok(StringMap { entries });
        }
        // Read (offset, id) pairs: each is 8 bytes.
        let mut pairs: Vec<(u32, u32)> = Vec::new();
        let mut cursor: usize = 4;
        let mut k: usize = 0;
        while k < count && data.len() - cursor >= 8
            invariant
                4 <= data@.len(),
                count == u32_at(data@, 0),
                k <= count,
                cursor == 4 + 8 * k,
                cursor <= data@.len(),
                pairs@.len() == k,
                forall|j: int|
                    0 <= j < k ==> #[trigger] pairs@[j] == (
                        u32_at(data@, 4 + 8 * j),
                        u32_at(data@, 8 + 8 * j),
                    ),
            decreases count - k,
        {
            let offset = vstd::bytes::u32_from_le_bytes(&data[cursor..cursor + 4]);
            let id = vstd::bytes::u32_from_le_bytes(&data[cursor + 4..cursor + 8]);
            pairs.push((offset, id));
            cursor = cursor + 8;
            k = k + 1;
        }
        assert(k == pairs_read(data@));
        // Read the strings at their offsets (UTF-16LE, null-terminated).
        let mut j: usize = 0;
        while j < pairs.len()
            invariant
                pairs@.len() == pairs_read(data@),
                forall|i: int|
                    0 <= i < pairs@.len() ==> #[trigger] pairs@[i] == (
                        u32_at(data@, 4 + 8 * i),
                        u32_at(data@, 8 + 8 * i),
                    ),
                j <= pairs@.len(),
                language_map_entries(entries) == string_map_upto(data@, j as int),
            decreases pairs@.len() - j,
        {
            let (offset, id) = pairs[j];
            assert(pairs@[j as int] == (u32_at(data@, 4 + 8 * j), u32_at(data@, 8 + 8 * j)));
            let start = offset as usize;
            if start < data.len() {
                let name = read_wstring(&data[start..data.len()]);
                entries.insert(id, name);
            }
            j = j + 1;
        }
        Ok(StringMap { entries })
    }

    /// Parse a big-endian string map (UTF-16BE names, big-endian counts and
    /// offsets). Pairs past the end of the data are not read, and a pair whose
    /// offset lies outside the data is skipped.
    pub(crate) fn parse_be(data: &[u8]) -> (r: crate::error::Result<Self>)
        ensures
            r matches Ok(m) && language_map_entries(m.entries) == string_map_of_be(data@),
    {
        let mut entries = LanguageMap::new();
        assert(language_map_entries(entries) =~= string_map_upto_be(data@, 0));
        if data.len() < 4 {
            return Ok(StringMap { entries });
        }
        let count = zc_read_u32_be(&data[0..4]).unwrap() as usize;
        assert(count == be32_at(data@, 0));
        if count == 0 {
            return Ok(StringMap { entries });
        }
        // Read (offset, id) pairs: each is 8 bytes.
        let mut pairs: Vec<(u32, u32)> = Vec::new();
        let mut cursor: usize = 4;
        let mut k: usize = 0;
        while k < count && data.len() - cursor >= 8
            invariant
                4 <= data@.len(),
                count == be32_at(data@, 0),
                k <= count,
                cursor == 4 + 8 * k,
                cursor <= data@.len(),
                pairs@.len() == k,
                forall|j: int|
                    0 <= j < k ==> #[trigger] pairs@[j] == (
                        be32_at(data@, 4 + 8 * j),
                        be32_at(data@, 8 + 8 * j),
                    ),
            decreases count - k,
        {
            let offset = zc_read_u32_be(&data[cursor..cursor + 4]).unwrap();
            let id = zc_read_u32_be(&data[cursor + 4..cursor + 8]).unwrap();
            pairs.push((offset, id));
            cursor = cursor + 8;
            k = k + 1;
        }
        assert(k == pairs_read_be(data@));
        // Read the strings at their offsets (UTF-16LE, null-terminated).
        let mut j: usize = 0;
        while j < pairs.len()
            invariant
                pairs@.len() == pairs_read_be(data@),
                forall|i: int|
                    0 <= i < pairs@.len() ==> #[trigger] pairs@[i] == (
                        be32_at(data@, 4 + 8 * i),
                        be32_at(data@, 8 + 8 * i),
                    ),
                j <= pairs@.len(),
                language_map_entries(entries) == string_map_upto_be(data@, j as int),
            decreases pairs@.len() - j,
        {
            let (offset, id) = pairs[j];
            assert(pairs@[j as int] == (be32_at(data@, 4 + 8 * j), be32_at(data@, 8 + 8 * j)));
            let start = offset as usize;
            if start < data.len() {
                let name = read_wstring_be(&data[start..data.len()]);
                entries.insert(id, name);
            }
            j = j + 1;
        }
        Ok(StringMap { entries })
    }

    /// Whether the string map can be written: its offsets fit in a `u32`.
    pub fn fits(&self) -> (b: bool)
        ensures
            b == string_map_fits(language_map_entries(self.entries)),
    {
        string_map_fits_exec(&self.entries)
    }

    /// Serialize the string map to bytes: entries in increasing ID order,
    /// strings as null-terminated UTF-16LE, padded to a multiple of four
    /// bytes.
    ///
    /// Each string's offset advances by two bytes per UTF-8 byte of the name
    /// (plus the terminator), while the string itself is written as UTF-16.
    pub fn write(&self) -> (buf: Vec<u8>)
        requires
            string_map_fits(language_map_entries(self.entries)),
        ensures
            is_sorted_listing(
                sorted_listing(language_map_entries(self.entries)),
                language_map_entries(self.entries),
            ),
            buf@ == string_map_layout(sorted_listing(language_map_entries(self.entries))),
    {
        string_map_bytes(&self.entries)
    }
}

} // verus!
