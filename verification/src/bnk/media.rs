//! Embedded media maps: source ID → WEM data, held in `hashbrown` hash maps.

use vstd::prelude::*;

verus! {

/// Source ID → media borrowed from a soundbank's bytes, in a
/// `hashbrown::HashMap`.
#[derive(Debug)]
#[verifier::external_body]
pub struct MediaSlices<'a> {
    inner: hashbrown::HashMap<u32, &'a [u8]>,
}

/// What a borrowed media map holds: each source ID with its bytes.
pub uninterp spec fn media_slice_entries(m: MediaSlices<'_>) -> Map<u32, Seq<u8>>;

impl<'a> MediaSlices<'a> {
    /// An empty map (`hashbrown::HashMap::new`).
    ///
    /// Trusted: a new hash map holds nothing.
    #[verifier::external_body]
    pub fn new() -> (m: Self)
        ensures
            media_slice_entries(m).dom() == Set::<u32>::empty(),
    {
        MediaSlices { inner: hashbrown::HashMap::new() }
    }

    /// Sets the media of `id` (`hashbrown::HashMap::insert`).
    ///
    /// Trusted: after an insert the key maps to the new value and every other
    /// key keeps its value.
    #[verifier::external_body]
    pub fn insert(&mut self, id: u32, data: &'a [u8])
        ensures
            media_slice_entries(*final(self)) == media_slice_entries(*old(self)).insert(id, data@),
    {
        self.inner.insert(id, data);
    }

    /// The media of `id`, if any (`hashbrown::HashMap::get`).
    ///
    /// Trusted: `get` finds the value stored under the key, and only that.
    #[verifier::external_body]
    pub fn get(&self, id: u32) -> (r: Option<&'a [u8]>)
        ensures
            match r {
                Some(data) => media_slice_entries(*self).contains_key(id)
                    && media_slice_entries(*self)[id] == data@,
                None => !media_slice_entries(*self).contains_key(id),
            },
    {
        self.inner.get(&id).copied()
    }

    /// The number of media (`hashbrown::HashMap::len`).
    ///
    /// Trusted: `len` counts the keys.
    #[verifier::external_body]
    pub fn len(&self) -> (n: usize)
        ensures
            n == media_slice_entries(*self).len(),
    {
        self.inner.len()
    }

    /// Every entry once, in the map's own order (`hashbrown::HashMap::iter`).
    ///
    /// Trusted: iteration yields each key once with its value. The order
    /// depends on the hasher's seed, so nothing is said of it.
    #[verifier::external_body]
    pub fn entries(&self) -> (v: Vec<(u32, &'a [u8])>)
        ensures
            v@.len() == media_slice_entries(*self).len(),
            forall|i: int|
                0 <= i < v@.len() ==> media_slice_entries(*self).contains_key(#[trigger] v@[i].0)
                    && media_slice_entries(*self)[v@[i].0] == v@[i].1@,
            forall|i: int, j: int| 0 <= i < j < v@.len() ==> v@[i].0 != v@[j].0,
            forall|k: u32| #[trigger]
                media_slice_entries(*self).contains_key(k) ==> exists|i: int|
                    0 <= i < v@.len() && v@[i].0 == k,
    {
        self.inner.iter().map(|(id, data)| (*id, *data)).collect()
    }
}

/// Source ID → owned media, in a `hashbrown::HashMap`.
#[derive(Debug)]
#[verifier::external_body]
pub struct MediaBuffers {
    inner: hashbrown::HashMap<u32, Vec<u8>>,
}

/// What an owned media map holds: each source ID with its bytes.
pub uninterp spec fn media_buffer_entries(m: MediaBuffers) -> Map<u32, Seq<u8>>;

impl MediaBuffers {
    /// An empty map (`hashbrown::HashMap::new`).
    ///
    /// Trusted: a new hash map holds nothing.
    #[verifier::external_body]
    pub fn new() -> (m: Self)
        ensures
            media_buffer_entries(m).dom() == Set::<u32>::empty(),
    {
        MediaBuffers { inner: hashbrown::HashMap::new() }
    }

    /// Sets the media of `id` (`hashbrown::HashMap::insert`).
    ///
    /// Trusted: after an insert the key maps to the new value and every other
    /// key keeps its value.
    #[verifier::external_body]
    pub fn insert(&mut self, id: u32, data: Vec<u8>)
        ensures
            media_buffer_entries(*final(self)) == media_buffer_entries(*old(self)).insert(id, data@),
    {
        self.inner.insert(id, data);
    }

    /// Whether `id` has media (`hashbrown::HashMap::contains_key`).
    ///
    /// Trusted: `contains_key` tells whether the key is stored.
    #[verifier::external_body]
    pub fn contains_key(&self, id: u32) -> (b: bool)
        ensures
            b == media_buffer_entries(*self).contains_key(id),
    {
        self.inner.contains_key(&id)
    }

    /// The media of `id`, if any (`hashbrown::HashMap::get`).
    ///
    /// Trusted: `get` finds the value stored under the key, and only that.
    #[verifier::external_body]
    pub fn get(&self, id: u32) -> (r: Option<&Vec<u8>>)
        ensures
            match r {
                Some(data) => media_buffer_entries(*self).contains_key(id)
                    && media_buffer_entries(*self)[id] == data@,
                None => !media_buffer_entries(*self).contains_key(id),
            },
    {
        self.inner.get(&id)
    }

    /// The number of media (`hashbrown::HashMap::len`).
    ///
    /// Trusted: `len` counts the keys.
    #[verifier::external_body]
    pub fn len(&self) -> (n: usize)
        ensures
            n == media_buffer_entries(*self).len(),
    {
        self.inner.len()
    }

    /// Every entry once, in the map's own order (`hashbrown::HashMap::iter`).
    ///
    /// Trusted: iteration yields each key once with its value. The order
    /// depends on the hasher's seed, so nothing is said of it.
    #[verifier::external_body]
    pub fn entries(&self) -> (v: Vec<(u32, &Vec<u8>)>)
        ensures
            v@.len() == media_buffer_entries(*self).len(),
            forall|i: int|
                0 <= i < v@.len() ==> media_buffer_entries(*self).contains_key(#[trigger] v@[i].0)
                    && media_buffer_entries(*self)[v@[i].0] == v@[i].1@,
            forall|i: int, j: int| 0 <= i < j < v@.len() ==> v@[i].0 != v@[j].0,
            forall|k: u32| #[trigger]
                media_buffer_entries(*self).contains_key(k) ==> exists|i: int|
                    0 <= i < v@.len() && v@[i].0 == k,
    {
        self.inner.iter().map(|(id, data)| (*id, data)).collect()
    }
}

} // verus!
