//! The key-value store: opaque byte blobs under text keys, for the guest
//! to save and load.

use vstd::prelude::*;
use crate::memory::{guest_read, guest_written, memory_view, read_guest_bytes, write_guest_bytes};
use crate::text::{guest_text, read_guest_text};

verus! {

/// The guest's saved blobs, each with its key; no key occurs twice.
pub struct Storage {
    pub entries: Vec<(String, Vec<u8>)>,
}

impl Storage {
    /// No key occurs twice.
    pub open spec fn wf(&self) -> bool {
        forall|i: int, j: int|
            0 <= i < j < self.entries@.len() ==> (#[trigger] self.entries@[i]).0@
                != (#[trigger] self.entries@[j]).0@
    }

    /// `key` is stored.
    pub open spec fn has(&self, key: Seq<char>) -> bool {
        exists|i: int| 0 <= i < self.entries@.len() && (#[trigger] self.entries@[i]).0@ == key
    }

    /// The index of the entry with `key`.
    pub open spec fn index_of(&self, key: Seq<char>) -> int {
        choose|i: int| 0 <= i < self.entries@.len() && (#[trigger] self.entries@[i]).0@ == key
    }
}

impl View for Storage {
    type V = Map<Seq<char>, Seq<u8>>;

    open spec fn view(&self) -> Map<Seq<char>, Seq<u8>> {
        Map::new(|key: Seq<char>| self.has(key), |key: Seq<char>| self.entries@[self.index_of(key)].1@)
    }
}

impl Default for Storage {
    fn default() -> (s: Self)
        ensures
            s.wf(),
            s@ == Map::<Seq<char>, Seq<u8>>::empty(),
    {
        let s = Storage { entries: Vec::new() };
        s
    }
}

impl Storage {
    /// Whether no key occurs twice.
    pub fn is_wf(&self) -> (r: bool)
        ensures
            r == self.wf(),
    {
        let n = self.entries.len();
        let mut j: usize = 0;
        while j < n
            invariant
                j <= n,
                n == self.entries@.len(),
                forall|a: int, b: int|
                    0 <= a < b < j ==> (#[trigger] self.entries@[a]).0@
                        != (#[trigger] self.entries@[b]).0@,
            decreases n - j,
        {
            let mut i: usize = 0;
            while i < j
                invariant
                    i <= j < n,
                    n == self.entries@.len(),
                    forall|a: int| 0 <= a < i ==> (#[trigger] self.entries@[a]).0@
                        != self.entries@[j as int].0@,
                decreases j - i,
            {
                if self.entries[i].0 == self.entries[j].0 {
                    return false;
                }
                i += 1;
            }
            j += 1;
        }
        true
    }

    /// Finds the entry with `key`.
    fn find(&self, key: &String) -> (r: Option<usize>)
        requires
            self.wf(),
        ensures
            match r {
                Some(i) => i < self.entries@.len() && self.entries@[i as int].0@ == key@
                    && self.has(key@) && self.index_of(key@) == i,
                None => !self.has(key@),
            },
    {
        let n = self.entries.len();
        let mut i: usize = 0;
        while i < n
            invariant
                i <= n,
                n == self.entries@.len(),
                self.wf(),
                forall|k: int| 0 <= k < i ==> (#[trigger] self.entries@[k]).0@ != key@,
            decreases n - i,
        {
            if self.entries[i].0 == *key {
                assert(self.index_of(key@) == i);
                return Some(i);
            }
            i += 1;
        }
        None
    }

    /// Stores `data` under `key`, in place of what was there.
    pub fn put(&mut self, key: String, data: Vec<u8>)
        requires
            old(self).wf(),
        ensures
            final(self).wf(),
            final(self)@ == old(self)@.insert(key@, data@),
    {
        match self.find(&key) {
            Some(i) => {
                let ghost before = self.entries@;
                self.entries.set(i, (key, data));
                proof {
                    assert forall|k: Seq<char>| #[trigger] self.has(k) == old(self).has(k) by {
                        if old(self).has(k) {
                            assert(self.entries@[old(self).index_of(k)].0@ == k);
                        }
                        if self.has(k) {
                            assert(before[self.index_of(k)].0@ == k);
                        }
                    }
                    assert forall|k: Seq<char>| self.has(k) implies #[trigger] self@[k] == old(
                        self,
                    )@.insert(key@, data@)[k] by {
                        assert(self.index_of(k) == old(self).index_of(k));
                    }
                }
            },
            None => {
                let ghost before = self.entries@;
                self.entries.push((key, data));
                proof {
                    let n = before.len() as int;
                    assert(self.entries@[n].0@ == key@);
                    assert forall|k: Seq<char>| #[trigger] self.has(k) == (old(self).has(k) || k
                        == key@) by {
                        if old(self).has(k) {
                            assert(self.entries@[old(self).index_of(k)].0@ == k);
                        }
                        if self.has(k) && self.index_of(k) < n {
                            assert(before[self.index_of(k)].0@ == k);
                        }
                    }
                    assert forall|k: Seq<char>| self.has(k) implies #[trigger] self@[k] == old(
                        self,
                    )@.insert(key@, data@)[k] by {
                        if k == key@ {
                            assert(self.index_of(k) == n);
                        } else {
                            assert(self.index_of(k) == old(self).index_of(k));
                        }
                    }
                }
            },
        }
    }

    /// A copy of the blob under `key`, if there is one.
    pub fn get(&self, key: &String) -> (r: Option<Vec<u8>>)
        requires
            self.wf(),
        ensures
            match r {
                Some(data) => self@.contains_key(key@) && data@ == self@[key@],
                None => !self@.contains_key(key@),
            },
    {
        match self.find(key) {
            Some(i) => {
                let data = self.entries[i].1.clone();
                Some(data)
            },
            None => None,
        }
    }
}

/// What a save from guest memory stores: the text at the key's place and
/// the bytes at the data's place, if both can be read.
pub open spec fn save_request(
    memory: Option<Seq<u8>>,
    key_ptr: u32,
    key_len: u32,
    data_ptr: u32,
    data_len: u32,
) -> Option<(Seq<char>, Seq<u8>)> {
    match (guest_text(memory, key_ptr, key_len), guest_read(memory, data_ptr, data_len)) {
        (Some(key), Ok(data)) => Some((key, data)),
        _ => None,
    }
}

/// Saves the bytes at `data_ptr` under the key at `key_ptr`, both in
/// guest memory. A key or data that cannot be read, or a key that is not
/// text, saves nothing.
pub fn storage_save(
    storage: &mut Storage,
    memory: Option<&[u8]>,
    key_ptr: u32,
    key_len: u32,
    data_ptr: u32,
    data_len: u32,
)
    requires
        old(storage).wf(),
    ensures
        final(storage).wf(),
        final(storage)@ == (match save_request(
            memory_view(memory),
            key_ptr,
            key_len,
            data_ptr,
            data_len,
        ) {
            Some((key, data)) => old(storage)@.insert(key, data),
            None => old(storage)@,
        }),
{
    let key = match read_guest_text(memory, key_ptr, key_len) {
        Some(k) => k,
        None => {
            return ;
        },
    };
    let data = match read_guest_bytes(memory, data_ptr, data_len) {
        Ok(d) => d,
        Err(_) => {
            return ;
        },
    };
    storage.put(key, data);
}

/// The view of an optional blob.
pub open spec fn blob_view(r: Option<Vec<u8>>) -> Option<Seq<u8>> {
    match r {
        Some(v) => Some(v@),
        None => None,
    }
}

/// What a load finds: the blob under the key at `key_ptr`, if the key
/// can be read, is text and is stored.
pub open spec fn load_result(
    storage: Map<Seq<char>, Seq<u8>>,
    memory: Option<Seq<u8>>,
    key_ptr: u32,
    key_len: u32,
) -> Option<Seq<u8>> {
    match guest_text(memory, key_ptr, key_len) {
        Some(key) => storage.get(key),
        None => None,
    }
}

/// Looks up the blob under the key that lies in guest memory at
/// `key_ptr`.
pub fn storage_load(
    storage: &Storage,
    memory: Option<&[u8]>,
    key_ptr: u32,
    key_len: u32,
) -> (r: Option<Vec<u8>>)
    requires
        storage.wf(),
    ensures
        blob_view(r) == load_result(storage@, memory_view(memory), key_ptr, key_len),
{
    match read_guest_text(memory, key_ptr, key_len) {
        Some(key) => storage.get(&key),
        None => None,
    }
}

/// A place and a length in guest memory as one number: the place in the
/// high half, the length in the low half.
pub open spec fn packed_place(ptr: u32, len: u32) -> u64 {
    (ptr as int * 0x1_0000_0000 + len as int) as u64
}

/// Packs a place and a length in guest memory into one number.
pub fn pack_place(ptr: u32, len: u32) -> (r: u64)
    ensures
        r == packed_place(ptr, len),
{
    let r = ((ptr as u64) << 32) | (len as u64);
    assert(((ptr as u64) << 32) | (len as u64) == (ptr as u64) * 0x1_0000_0000 + (len as u64))
        by (bit_vector);
    r
}

/// A blob of `len` bytes can be delivered to `dst` in a guest memory of
/// `size` bytes: the guest gave a place, the length fits 32 bits and the
/// blob fits the memory there.
pub open spec fn deliverable(size: int, dst: Option<u32>, len: int) -> bool {
    dst matches Some(ptr) && len <= u32::MAX && ptr as int + len <= size
}

/// Writes a loaded blob to the place that the guest allocated for it and
/// answers with the packed place and length, or with 0 where the blob
/// cannot be delivered; guest memory is then left as it was.
pub fn storage_deliver(memory: &mut [u8], dst: Option<u32>, data: &[u8]) -> (r: u64)
    ensures
        final(memory)@.len() == old(memory)@.len(),
        deliverable(old(memory)@.len() as int, dst, data@.len() as int) ==> {
            &&& r == packed_place(dst.unwrap(), data@.len() as u32)
            &&& final(memory)@ == guest_written(old(memory)@, dst.unwrap() as int, data@)
        },
        !deliverable(old(memory)@.len() as int, dst, data@.len() as int) ==> {
            &&& r == 0
            &&& final(memory)@ == old(memory)@
        },
{
    match dst {
        Some(ptr) => {
            if data.len() > u32::MAX as usize {
                return 0;
            }
            match write_guest_bytes(memory, ptr, data) {
                Ok(()) => pack_place(ptr, data.len() as u32),
                Err(_) => 0,
            }
        },
        None => 0,
    }
}

} // verus!
