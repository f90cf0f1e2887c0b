//! A fixed-capacity byte ring buffer whose backing storage is mirrored: the
//! storage holds `2 * capacity` bytes and every write keeps byte `i` and byte
//! `i + capacity` equal, so the logical window of committed bytes is always
//! one contiguous range of the storage, even when the ring wraps around its
//! physical end.
//!
//! The buffer is driven by a claim/commit/consume protocol: a producer claims
//! a writable window at the tail, fills it, and commits a prefix of it; a
//! consumer reads the committed window and consumes bytes from the head.
//! Commit and consume never fail; they saturate at the available free or used
//! byte count and report how far they actually advanced.

mod error;
pub mod util;

pub use error::{Error, ErrorKind};

use vstd::prelude::*;
use vstd::arithmetic::div_mod::{
    lemma_add_mod_noop_right, lemma_mod_add_multiples_vanish,
    lemma_mod_division_less_than_divisor, lemma_small_mod,
};
use vstd::slice::slice_subrange;
use vstd::string::StringExecFns;
use crate::util::{decimal_digits, decimal_string, is_pow2, round_up_spec, round_up_to_page_size};

verus! {

/// The abstract state of a buffer: cursors, byte counts and the raw mirrored
/// storage, free of any representation detail.
pub ghost struct BufferView {
    pub head: usize,
    pub tail: usize,
    pub used: usize,
    pub capacity: usize,
    pub storage: Seq<u8>,
    pub name: Seq<char>,
}

/// The storage index that aliases `i`: the same offset in the other half of
/// the doubled storage.
pub open spec fn mirror_index(i: int, capacity: int) -> int {
    if i < capacity {
        i + capacity
    } else {
        i - capacity
    }
}

/// Every byte of the upper half of `s` equals its alias one capacity below.
pub open spec fn mirrored(s: Seq<u8>, capacity: int) -> bool {
    forall|i: int| capacity <= i < 2 * capacity ==> #[trigger] s[i] == s[i - capacity]
}

impl BufferView {
    /// Well-formedness: the capacity is a positive power of two, the cursors
    /// sit below it, the used count never exceeds it, the tail is exactly the
    /// head advanced by the used count around the ring, and the storage is a
    /// mirrored doubling of the capacity.
    pub open spec fn wf(self) -> bool {
        &&& 0 < self.capacity
        &&& 2 * self.capacity <= usize::MAX
        &&& is_pow2(self.capacity)
        &&& self.used <= self.capacity
        &&& self.head < self.capacity
        &&& self.tail < self.capacity
        &&& self.tail as int == (self.head + self.used) % (self.capacity as int)
        &&& self.storage.len() == 2 * self.capacity
        &&& mirrored(self.storage, self.capacity as int)
    }

    /// Bytes that may still be committed before the buffer is full.
    pub open spec fn free(self) -> int {
        self.capacity - self.used
    }

    /// The committed window as one flat range of the storage: `used` bytes
    /// starting at `head`. Thanks to the mirroring this is always in bounds,
    /// even when the ring wraps.
    pub open spec fn committed_view(self) -> Seq<u8> {
        self.storage.subrange(self.head as int, self.head + self.used)
    }
}

/// A byte ring buffer over mirrored storage of `2 * capacity` bytes, where
/// writes keep both aliases of a byte equal, so any window of up to
/// `capacity` bytes starting below `capacity` is contiguous.
pub struct MirroredBuffer {
    name: String,
    head: usize,
    tail: usize,
    size_total: usize,
    size_mask: usize,
    size_used: usize,
    slice: Vec<u8>,
}

impl View for MirroredBuffer {
    type V = BufferView;

    closed spec fn view(&self) -> BufferView {
        BufferView {
            head: self.head,
            tail: self.tail,
            used: self.size_used,
            capacity: self.size_total,
            storage: self.slice@,
            name: self.name@,
        }
    }
}

/// Reduction modulo `m` of a value already below `2 * m` either keeps it or
/// subtracts `m` once.
proof fn lemma_mod_in_range(x: int, m: int)
    requires
        m > 0,
        0 <= x < 2 * m,
    ensures
        x % m == if x < m {
            x
        } else {
            x - m
        },
{
    if x < m {
        lemma_small_mod(x as nat, m as nat);
    } else {
        lemma_mod_add_multiples_vanish(x - m, m);
        lemma_small_mod((x - m) as nat, m as nat);
    }
}

/// The identity a buffer carries: a fixed prefix, the owning process's
/// identity, then the caller's suffix if one was given. Distinct suffixes
/// keep several buffers of one process apart.
pub open spec fn spec_buffer_name(pid: u64, name_suffix: Option<&str>) -> Seq<char> {
    if name_suffix is Some {
        "/mirrored-buffer-"@ + decimal_digits(pid as int) + "-"@ + (name_suffix->0)@
    } else {
        "/mirrored-buffer-"@ + decimal_digits(pid as int)
    }
}

/// Derives the identity of the backing object for a buffer owned by process
/// `pid`: `/mirrored-buffer-` + the process identity in decimal, then `-` and
/// the suffix if one was given.
pub fn buffer_name(pid: u64, name_suffix: Option<&str>) -> (r: String)
    ensures
        r@ == spec_buffer_name(pid, name_suffix),
{
    let mut name = String::from_str("/mirrored-buffer-");
    let digits = decimal_string(pid);
    name.append(digits.as_str());
    if let Some(suffix) = name_suffix {
        name.append("-");
        name.append(suffix);
    }
    name
}

/// The byte every storage cell starts out as: the requested fill, or zero,
/// matching freshly mapped pages.
pub open spec fn spec_initial_byte(initial_value: Option<u8>) -> u8 {
    if initial_value is Some {
        initial_value->0
    } else {
        0
    }
}

/// Construction succeeds exactly for these inputs: a positive size, a known
/// positive page size, a rounded capacity that is a power of two, and room in
/// the address space for twice that capacity.
pub open spec fn spec_can_create(size: usize, page_size: Option<usize>) -> bool {
    &&& size > 0
    &&& page_size is Some
    &&& page_size->0 > 0
    &&& size + page_size->0 <= usize::MAX
    &&& is_pow2(round_up_spec(size as int, page_size->0 as int) as usize)
    &&& 2 * round_up_spec(size as int, page_size->0 as int) <= usize::MAX
}

/// The error reported when construction fails, by the first check that
/// rejects the input.
pub open spec fn spec_create_error(size: usize, page_size: Option<usize>) -> ErrorKind
    recommends
        !spec_can_create(size, page_size),
{
    if size == 0 {
        ErrorKind::InvalidSize(size)
    } else if !(page_size is Some && page_size->0 > 0) {
        ErrorKind::NoPageSize
    } else if size + page_size->0 > usize::MAX {
        ErrorKind::InvalidSize(size)
    } else {
        ErrorKind::InvalidSize(round_up_spec(size as int, page_size->0 as int) as usize)
    }
}

impl MirroredBuffer {
    /// Representation invariant: the view is well-formed and the stored mask
    /// is `capacity - 1`.
    pub closed spec fn wf(&self) -> bool {
        &&& self@.wf()
        &&& self.size_mask == self@.capacity - 1
    }

    /// A well-formed buffer has a well-formed view.
    pub proof fn lemma_wf_view(&self)
        requires
            self.wf(),
        ensures
            self@.wf(),
    {
    }

    /// Validates a request and derives the capacity it would get: the
    /// smallest page multiple at least `size`, accepted only when it is a
    /// power of two that fits doubled in the address space. This is the
    /// compute half of construction, shared with the platform shell, which
    /// calls it before mapping real memory.
    pub fn capacity_for(size: usize, page_size: Option<usize>) -> (r: Result<usize, Error>)
        ensures
            r is Ok <==> spec_can_create(size, page_size),
            r matches Err(e) ==> e.spec_kind() == spec_create_error(size, page_size),
            r matches Ok(c) ==> ({
                &&& c as int == round_up_spec(size as int, page_size->0 as int)
                &&& c >= size
                &&& c as int % (page_size->0 as int) == 0
                &&& is_pow2(c)
                &&& 2 * c <= usize::MAX
            }),
    {
        if size == 0 {
            return Err(Error::invalid_size(size));
        }
        let ps = match page_size {
            Some(p) => p,
            None => {
                return Err(Error::no_page_size());
            },
        };
        if ps == 0 {
            return Err(Error::no_page_size());
        }
        if size > usize::MAX - ps {
            return Err(Error::invalid_size(size));
        }

        let size_total = round_up_to_page_size(size, ps);
        let size_mask = size_total - 1;

        if size_total & size_mask != 0 {
            return Err(Error::invalid_size(size_total));
        }
        if size_total > usize::MAX / 2 {
            return Err(Error::invalid_size(size_total));
        }
        Ok(size_total)
    }

    /// Builds a buffer of the smallest valid capacity at least `size`:
    /// rejects a zero size, an unknown or zero page size, and a rounded
    /// capacity that is not a power of two; otherwise derives the identity
    /// from the owning process's `pid` and the optional suffix, allocates
    /// the doubled storage, fills it with `initial_value` (or zero), and
    /// starts empty.
    pub fn new(
        size: usize,
        page_size: Option<usize>,
        pid: u64,
        name_suffix: Option<&str>,
        initial_value: Option<u8>,
    ) -> (r: Result<MirroredBuffer, Error>)
        ensures
            r is Ok <==> spec_can_create(size, page_size),
            r matches Err(e) ==> e.spec_kind() == spec_create_error(size, page_size),
            r matches Ok(b) ==> ({
                &&& b.wf()
                &&& b@.capacity as int == round_up_spec(size as int, page_size->0 as int)
                &&& b@.capacity >= size
                &&& b@.capacity as int % (page_size->0 as int) == 0
                &&& is_pow2(b@.capacity)
                &&& b@.head == 0
                &&& b@.tail == 0
                &&& b@.used == 0
                &&& b@.name == spec_buffer_name(pid, name_suffix)
                &&& b@.storage.len() == 2 * b@.capacity
                &&& forall|i: int|
                    0 <= i < b@.storage.len() ==> b@.storage[i] == spec_initial_byte(
                        initial_value,
                    )
            }),
    {
        let size_total = match Self::capacity_for(size, page_size) {
            Ok(c) => c,
            Err(e) => {
                return Err(e);
            },
        };
        let size_mask = size_total - 1;
        let name = buffer_name(pid, name_suffix);

        let fill = match initial_value {
            Some(v) => v,
            None => 0,
        };
        let total2 = size_total * 2;
        let mut slice: Vec<u8> = Vec::new();
        while slice.len() < total2
            invariant
                slice@.len() <= total2,
                forall|i: int| 0 <= i < slice@.len() ==> slice@[i] == fill,
            decreases total2 - slice@.len(),
        {
            slice.push(fill);
        }

        proof {
            lemma_small_mod(0nat, size_total as nat);
        }

        Ok(
            MirroredBuffer {
                name,
                head: 0,
                tail: 0,
                size_total,
                size_mask,
                size_used: 0,
                slice,
            },
        )
    }

    /// The identity of the buffer's backing object.
    pub fn name(&self) -> (r: &str)
        ensures
            r@ == self@.name,
    {
        self.name.as_str()
    }

    /// How many bytes may still be committed before the buffer is full.
    pub fn free(&self) -> (r: usize)
        requires
            self.wf(),
        ensures
            r as int == self@.free(),
    {
        self.size_total - self.size_used
    }

    /// How many bytes are committed but not yet consumed.
    pub fn used(&self) -> (r: usize)
        ensures
            r == self@.used,
    {
        self.size_used
    }

    /// The buffer's capacity in bytes.
    pub fn size(&self) -> (r: usize)
        ensures
            r == self@.capacity,
    {
        self.size_total
    }

    /// The index of the oldest unconsumed byte.
    pub fn head(&self) -> (r: usize)
        ensures
            r == self@.head,
    {
        self.head
    }

    /// The index one past the newest committed byte.
    pub fn tail(&self) -> (r: usize)
        ensures
            r == self@.tail,
    {
        self.tail
    }

    /// The wraparound mask, `capacity - 1`.
    pub fn mask(&self) -> (r: usize)
        requires
            self.wf(),
        ensures
            r as int == self@.capacity - 1,
    {
        self.size_mask
    }

    /// The whole doubled storage, for reading.
    pub fn storage(&self) -> (r: &[u8])
        ensures
            r@ == self@.storage,
    {
        self.slice.as_slice()
    }

    /// Offers a writable window at the tail: its start index into the storage
    /// and its length, the requested size saturated at the free count. The
    /// window never needs wraparound splitting — it always ends within the
    /// doubled storage. Nothing is reserved: claiming again before a commit
    /// re-offers the same window.
    pub fn claim(&self, size: usize) -> (r: Option<(usize, usize)>)
        requires
            self.wf(),
        ensures
            ({
                let n = vstd::math::min(size as int, self@.free());
                &&& n == 0 ==> r is None
                &&& n > 0 ==> (r matches Some((start, len)) && start == self@.tail && len == n
                    && start + len <= 2 * self@.capacity)
            }),
    {
        let f = self.size_total - self.size_used;
        let n = if size < f {
            size
        } else {
            f
        };
        if n == 0 {
            return None;
        }
        Some((self.tail, n))
    }

    /// Publishes `size` bytes of the claimed window, saturated at the free
    /// count: advances the tail around the ring and grows the used count by
    /// exactly the returned amount. The caller is trusted to have written a
    /// prefix of its claim; nothing is checked about the bytes.
    pub fn commit(&mut self, size: usize) -> (advanced: usize)
        requires
            old(self).wf(),
        ensures
            final(self).wf(),
            advanced as int == vstd::math::min(size as int, old(self)@.free()),
            final(self)@.used == old(self)@.used + advanced,
            final(self)@.tail as int == (old(self)@.tail + advanced) % (
            old(self)@.capacity as int),
            final(self)@.head == old(self)@.head,
            final(self)@.capacity == old(self)@.capacity,
            final(self)@.storage == old(self)@.storage,
            final(self)@.name == old(self)@.name,
    {
        let f = self.size_total - self.size_used;
        let n = if size < f {
            size
        } else {
            f
        };
        proof {
            let c = self@.capacity as int;
            lemma_mod_division_less_than_divisor(self@.tail + n, c);
            lemma_add_mod_noop_right(n as int, self@.head + self@.used, c);
        }
        self.size_used = self.size_used + n;
        self.tail = (self.tail + n) % self.size_total;
        n
    }

    /// Releases `size` bytes from the front of the committed window,
    /// saturated at the used count: advances the head around the ring and
    /// shrinks the used count by exactly the returned amount.
    pub fn consume(&mut self, size: usize) -> (released: usize)
        requires
            old(self).wf(),
        ensures
            final(self).wf(),
            released as int == vstd::math::min(size as int, old(self)@.used as int),
            final(self)@.used == old(self)@.used - released,
            final(self)@.head as int == (old(self)@.head + released) % (
            old(self)@.capacity as int),
            final(self)@.tail == old(self)@.tail,
            final(self)@.capacity == old(self)@.capacity,
            final(self)@.storage == old(self)@.storage,
            final(self)@.name == old(self)@.name,
    {
        let n = if size < self.size_used {
            size
        } else {
            self.size_used
        };
        proof {
            let c = self@.capacity as int;
            lemma_mod_division_less_than_divisor(self@.head + n, c);
            lemma_add_mod_noop_right((self@.used - n) as int, self@.head + n, c);
        }
        self.size_used = self.size_used - n;
        self.head = (self.head + n) % self.size_total;
        n
    }

    /// The committed window as one contiguous slice of length exactly
    /// `used`, or nothing when the buffer is empty. When the window wraps the
    /// physical end it is read through the mirror, so a full buffer — where
    /// head and tail coincide just as they do when empty — still yields the
    /// whole capacity.
    pub fn committed(&self) -> (r: Option<&[u8]>)
        requires
            self.wf(),
        ensures
            self@.used == 0 ==> r is None,
            self@.used > 0 ==> (r matches Some(s) && s@ == self@.committed_view()),
            r matches Some(s) ==> s@.len() == self@.used,
    {
        if self.size_used == 0 {
            return None;
        }
        proof {
            lemma_mod_in_range(self@.head + self@.used, self@.capacity as int);
        }
        if self.head < self.tail {
            Some(slice_subrange(self.slice.as_slice(), self.head, self.tail))
        } else {
            Some(slice_subrange(self.slice.as_slice(), self.head, self.tail + self.size_total))
        }
    }

    /// Writes one byte at `index` and at its alias in the other half, so the
    /// write at any storage index is immediately observable one capacity
    /// away; nothing else changes.
    pub fn write_byte(&mut self, index: usize, value: u8)
        requires
            old(self).wf(),
            index < 2 * old(self)@.capacity,
        ensures
            final(self).wf(),
            final(self)@.storage == old(self)@.storage.update(index as int, value).update(
                mirror_index(index as int, old(self)@.capacity as int),
                value,
            ),
            final(self)@.head == old(self)@.head,
            final(self)@.tail == old(self)@.tail,
            final(self)@.used == old(self)@.used,
            final(self)@.capacity == old(self)@.capacity,
            final(self)@.name == old(self)@.name,
    {
        let cap = self.size_total;
        let twin = if index < cap {
            index + cap
        } else {
            index - cap
        };
        self.slice[index] = value;
        self.slice[twin] = value;
        proof {
            let c = cap as int;
            let hi = if index < cap {
                twin as int
            } else {
                index as int
            };
            let s_new = self@.storage;
            assert forall|i: int| c <= i < 2 * c implies #[trigger] s_new[i] == s_new[i - c] by {
                if i != hi {
                    assert(old(self)@.storage[i] == old(self)@.storage[i - c]);
                }
            }
        }
    }

    /// Fills `len` bytes of storage starting at `start` with `value`. Both
    /// aliases of every touched byte take the value; all other bytes keep
    /// theirs.
    pub fn fill(&mut self, start: usize, len: usize, value: u8)
        requires
            old(self).wf(),
            start + len <= 2 * old(self)@.capacity,
        ensures
            final(self).wf(),
            forall|j: int|
                0 <= j < old(self)@.storage.len() && (start <= j < start + len || start
                    <= mirror_index(j, old(self)@.capacity as int) < start + len)
                    ==> final(self)@.storage[j] == value,
            forall|j: int|
                0 <= j < old(self)@.storage.len() && !(start <= j < start + len) && !(start
                    <= mirror_index(j, old(self)@.capacity as int) < start + len)
                    ==> final(self)@.storage[j] == old(self)@.storage[j],
            final(self)@.storage.len() == old(self)@.storage.len(),
            final(self)@.head == old(self)@.head,
            final(self)@.tail == old(self)@.tail,
            final(self)@.used == old(self)@.used,
            final(self)@.capacity == old(self)@.capacity,
            final(self)@.name == old(self)@.name,
    {
        let ghost c = old(self)@.capacity as int;
        let mut i: usize = 0;
        while i < len
            invariant
                self.wf(),
                i <= len,
                start + len <= 2 * c,
                c == self@.capacity as int,
                self@.head == old(self)@.head,
                self@.tail == old(self)@.tail,
                self@.used == old(self)@.used,
                self@.name == old(self)@.name,
                self@.storage.len() == old(self)@.storage.len(),
                forall|j: int|
                    0 <= j < old(self)@.storage.len() && (start <= j < start + i || start
                        <= mirror_index(j, c) < start + i) ==> self@.storage[j] == value,
                forall|j: int|
                    0 <= j < old(self)@.storage.len() && !(start <= j < start + i) && !(start
                        <= mirror_index(j, c) < start + i) ==> self@.storage[j] == old(
                        self,
                    )@.storage[j],
            decreases len - i,
        {
            let ghost prev = self@.storage;
            self.write_byte(start + i, value);
            proof {
                let k = (start + i) as int;
                assert forall|j: int|
                    0 <= j < old(self)@.storage.len() && (start <= j < start + i + 1 || start
                        <= mirror_index(j, c) < start + i + 1) implies self@.storage[j]
                    == value by {
                    if j != k && mirror_index(j, c) != k {
                        assert(self@.storage[j] == prev[j]);
                    }
                }
            }
            i = i + 1;
        }
    }

    /// Copies `data` into the storage starting at `start`: every touched
    /// byte and its alias take the corresponding byte of `data`; all other
    /// bytes keep theirs. The window may not exceed the capacity — a claim
    /// never does — so the two aliases of a byte are never both inside it.
    pub fn write(&mut self, start: usize, data: &[u8])
        requires
            old(self).wf(),
            data@.len() <= old(self)@.capacity,
            start + data@.len() <= 2 * old(self)@.capacity,
        ensures
            final(self).wf(),
            forall|j: int|
                0 <= j < old(self)@.storage.len() && start <= j < start + data@.len()
                    ==> final(self)@.storage[j] == data@[j - start],
            forall|j: int|
                0 <= j < old(self)@.storage.len() && start <= mirror_index(
                    j,
                    old(self)@.capacity as int,
                ) < start + data@.len() ==> final(self)@.storage[j] == data@[mirror_index(
                    j,
                    old(self)@.capacity as int,
                ) - start],
            forall|j: int|
                0 <= j < old(self)@.storage.len() && !(start <= j < start + data@.len()) && !(
                start <= mirror_index(j, old(self)@.capacity as int) < start + data@.len())
                    ==> final(self)@.storage[j] == old(self)@.storage[j],
            final(self)@.storage.len() == old(self)@.storage.len(),
            final(self)@.head == old(self)@.head,
            final(self)@.tail == old(self)@.tail,
            final(self)@.used == old(self)@.used,
            final(self)@.capacity == old(self)@.capacity,
            final(self)@.name == old(self)@.name,
    {
        let ghost c = old(self)@.capacity as int;
        let len = data.len();
        let mut i: usize = 0;
        while i < len
            invariant
                self.wf(),
                i <= len,
                len == data@.len(),
                len <= c,
                start + len <= 2 * c,
                c == self@.capacity as int,
                self@.head == old(self)@.head,
                self@.tail == old(self)@.tail,
                self@.used == old(self)@.used,
                self@.name == old(self)@.name,
                self@.storage.len() == old(self)@.storage.len(),
                forall|j: int|
                    0 <= j < old(self)@.storage.len() && start <= j < start + i
                        ==> self@.storage[j] == data@[j - start],
                forall|j: int|
                    0 <= j < old(self)@.storage.len() && start <= mirror_index(j, c) < start + i
                        ==> self@.storage[j] == data@[mirror_index(j, c) - start],
                forall|j: int|
                    0 <= j < old(self)@.storage.len() && !(start <= j < start + i) && !(start
                        <= mirror_index(j, c) < start + i) ==> self@.storage[j] == old(
                        self,
                    )@.storage[j],
            decreases len - i,
        {
            let ghost prev = self@.storage;
            let b = data[i];
            self.write_byte(start + i, b);
            proof {
                let k = (start + i) as int;
                assert forall|j: int|
                    0 <= j < old(self)@.storage.len() && start <= j < start + i + 1 implies self@.storage[j]
                    == data@[j - start] by {
                    if j != k && mirror_index(j, c) != k {
                        assert(self@.storage[j] == prev[j]);
                    }
                }
                assert forall|j: int|
                    0 <= j < old(self)@.storage.len() && start <= mirror_index(j, c) < start + i
                        + 1 implies self@.storage[j] == data@[mirror_index(j, c) - start] by {
                    if j != k && mirror_index(j, c) != k {
                        assert(self@.storage[j] == prev[j]);
                    }
                }
            }
            i = i + 1;
        }
    }
}

/// Space conservation: in every well-formed state the used and free byte
/// counts always partition the capacity, and the used count never leaves
/// `[0, capacity]`.
pub proof fn lemma_space_conservation(v: BufferView)
    requires
        v.wf(),
    ensures
        v.used + v.free() == v.capacity,
        0 <= v.used <= v.capacity,
{
}

/// Cursor ambiguity: when the buffer is completely full the cursors coincide
/// exactly as they do when it is empty, so the two states are distinguishable
/// only through the used count — which is why `committed` is specified over
/// `used`, never over cursor equality.
pub proof fn lemma_full_empty_cursors(v: BufferView)
    requires
        v.wf(),
        v.used == v.capacity || v.used == 0,
    ensures
        v.head == v.tail,
{
    let c = v.capacity as int;
    if v.used == 0 {
        lemma_small_mod(v.head as nat, v.capacity as nat);
    } else {
        lemma_mod_add_multiples_vanish(v.head as int, c);
        lemma_small_mod(v.head as nat, v.capacity as nat);
    }
}

/// Mirroring: in every well-formed state each storage byte equals its alias
/// one capacity away, in both directions.
pub proof fn lemma_mirror(v: BufferView, i: int)
    requires
        v.wf(),
        0 <= i < 2 * v.capacity,
    ensures
        v.storage[i] == v.storage[mirror_index(i, v.capacity as int)],
{
    let c = v.capacity as int;
    if i < c {
        assert(v.storage[i + c] == v.storage[i]);
    }
}

/// Wraparound correctness: the flat committed window reads, byte for byte,
/// exactly what the ring holds at each logical offset — the mirror makes the
/// bytes beyond the physical end the right ones.
pub proof fn lemma_committed_matches_ring(v: BufferView, k: int)
    requires
        v.wf(),
        0 <= k < v.used,
    ensures
        v.committed_view()[k] == v.storage[(v.head + k) % (v.capacity as int)],
{
    let c = v.capacity as int;
    lemma_mod_in_range(v.head + k, c);
    if v.head + k >= c {
        assert(v.storage[v.head + k] == v.storage[v.head + k - c]);
    }
}

} // verus!
