//! The object memory of a loaded image: the heap, split into segments of 16 bit words, and
//! the object table that maps object pointers to a segment and a location in it.
//!
//! Each object table entry takes two words, at the index of the object pointer and the one
//! after it: a header word whose low four bits name the segment and whose bit 5 (counted
//! from the least significant bit) marks a free entry, then the object's location in its
//! segment. An object starts with its size word, then its class, then its fields.
use vstd::prelude::*;

use crate::globalconstants::{CLASS_SMALL_INTEGER_POINTER, HEADER_SIZE};
use crate::oop::{is_integer_word, OOP};

verus! {

/// The heap segments and the object table of a Smalltalk image.
#[derive(Debug, PartialEq, Eq)]
pub struct ObjectMemory {
    heap_segments: Vec<Vec<u16>>,
    object_table: Vec<u16>,
}

/// Whether an object table header word marks its entry as free.
pub open spec fn is_free_entry(header: u16) -> bool {
    (header / 32) % 2 == 1
}

/// The segment that an object table header word names.
pub open spec fn segment_of_entry(header: u16) -> int {
    (header % 16) as int
}

/// How many of the first `n` object table entries (two words each) are marked free, each
/// entry looked up by its object pointer, `2 * i` taken modulo 2^16.
pub open spec fn free_entry_count(table: Seq<u16>, n: int) -> int
    decreases n,
{
    if n <= 0 {
        0
    } else {
        free_entry_count(table, n - 1) + if is_free_entry(table[(2 * (n - 1)) % 65536]) {
            1int
        } else {
            0int
        }
    }
}

/// An object table entry is free exactly when bit 5 (0x20) of its header word is set; the
/// other header bits (count, odd length, pointer fields, segment) do not matter.
pub proof fn lemma_free_bit(header: u16)
    ensures
        is_free_entry(header) <==> (header & 0x20) == 0x20,
        is_free_entry(header) == is_free_entry(header & 0x20),
{
    assert(((header / 32) % 2 == 1) <==> (header & 0x20) == 0x20) by (bit_vector);
    assert((((header & 0x20) / 32) % 2 == 1) <==> (header & 0x20) == 0x20) by (bit_vector);
}

/// No entry is counted among none, and counting one more entry adds one exactly when the
/// header word of that entry, at its object pointer `2 * n` (modulo 2^16), has bit 5 set.
pub proof fn lemma_free_entry_count_step(table: Seq<u16>, n: int)
    requires
        n >= 0,
    ensures
        free_entry_count(table, 0) == 0,
        free_entry_count(table, n + 1) == free_entry_count(table, n) + if (table[(2 * n)
            % 65536] & 0x20) == 0x20 {
            1int
        } else {
            0int
        },
        0 <= free_entry_count(table, n) <= n,
    decreases n,
{
    lemma_free_bit(table[(2 * n) % 65536]);
    if n > 0 {
        lemma_free_entry_count_step(table, n - 1);
    }
}

impl ObjectMemory {
    /// The heap, one sequence of words per segment.
    pub closed spec fn heap(&self) -> Seq<Seq<u16>> {
        self.heap_segments.deep_view()
    }

    /// The object table, word by word.
    pub closed spec fn table(&self) -> Seq<u16> {
        self.object_table@
    }

    /// Whether the object table has an entry (both words) for `oop`, and the heap holds the
    /// word at `offset` past the location of that entry.
    pub open spec fn has_heap_word(&self, oop: OOP, offset: int) -> bool {
        let t = self.table();
        let h = self.heap();
        &&& oop.value + 1 < t.len()
        &&& 0 <= segment_of_entry(t[oop.value as int]) < h.len()
        &&& 0 <= t[oop.value + 1] + offset < h[segment_of_entry(t[oop.value as int])].len()
    }

    /// The word at `offset` past the location of the object that `oop` names.
    pub open spec fn heap_word(&self, oop: OOP, offset: int) -> u16 {
        let t = self.table();
        self.heap()[segment_of_entry(t[oop.value as int])][t[oop.value + 1] + offset]
    }

    /// The word an object pointer reaches: the entry's header word names the segment in its
    /// low four bits, the entry's second word is the object's location there, and the word
    /// read is at that location plus `offset` (1 for the class, 2 + i for field i). The word
    /// can be read exactly when the entry and that word exist.
    pub proof fn lemma_heap_word_location(&self, oop: OOP, offset: int)
        ensures
            ({
                let t = self.table();
                let segment = (t[oop.value as int] % 16) as int;
                let location = t[oop.value + 1] as int;
                &&& self.has_heap_word(oop, offset) <==> {
                    &&& oop.value + 1 < t.len()
                    &&& segment < self.heap().len()
                    &&& 0 <= location + offset < self.heap()[segment].len()
                }
                &&& self.has_heap_word(oop, offset) ==> self.heap_word(oop, offset)
                    == self.heap()[segment][location + offset]
            }),
    {
    }

    /// Builds an object memory from the heap segments and the object table of an image.
    pub fn from_image(heap_segments: Vec<Vec<u16>>, object_table: Vec<u16>) -> (mem: ObjectMemory)
        ensures
            mem.heap() == heap_segments.deep_view(),
            mem.table() == object_table@,
    {
        ObjectMemory { heap_segments, object_table }
    }

    /// The length of the object table, in words.
    pub fn object_table_len(&self) -> (n: usize)
        ensures
            n == self.table().len(),
    {
        self.object_table.len()
    }

    /// Whether the object table entry of `oop` is marked free.
    pub fn is_free_oop(&self, oop: OOP) -> (b: bool)
        requires
            oop.value < self.table().len(),
        ensures
            b == is_free_entry(self.table()[oop.value as int]),
    {
        let header = self.object_table[oop.value as usize];
        assert(((header & 0x20) != 0) == ((header / 32) % 2 == 1)) by (bit_vector);
        (header & 0x20) != 0
    }

    /// Whether the object table has an entry for `oop` and the heap holds the word at
    /// `offset` past its location, which `fetch_class_of` and `fetch_pointer` need.
    pub fn holds_heap_word(&self, oop: OOP, offset: u16) -> (b: bool)
        ensures
            b == self.has_heap_word(oop, offset as int),
    {
        let index = oop.value as usize;
        if index + 1 >= self.object_table.len() {
            return false;
        }
        let segment = (self.object_table[index] % 16) as usize;
        if segment >= self.heap_segments.len() {
            return false;
        }
        let location = self.object_table[index + 1] as usize;
        proof {
            assert(self.heap_segments[segment as int]@ == self.heap()[segment as int]);
        }
        location + (offset as usize) < self.heap_segments[segment].len()
    }

    /// Counts the object table entries (two words each) that are live and that are free; the
    /// `i`-th entry is looked up through the 16 bit object pointer `2 * i`.
    pub fn entry_counts(&self) -> (r: (usize, usize))
        ensures
            r.1 == free_entry_count(self.table(), (self.table().len() / 2) as int),
            r.0 + r.1 == self.table().len() / 2,
    {
        let total = self.object_table.len() / 2;
        let mut live: usize = 0;
        let mut free: usize = 0;
        let mut i: usize = 0;
        while i < total
            invariant
                total == self.table().len() / 2,
                total == self.object_table.len() / 2,
                i <= total,
                free == free_entry_count(self.table(), i as int),
                live + free == i,
            decreases total - i,
        {
            let oop_value = (i * 2 % 65536) as u16;
            if self.is_free_oop(OOP::from_raw(oop_value)) {
                free += 1;
            } else {
                live += 1;
            }
            i += 1;
        }
        (live, free)
    }

    /// Reads the word at `offset` past the location of the object that `oop` names.
    fn heap_chunk_word(&self, oop: OOP, offset: u16) -> (w: u16)
        requires
            self.has_heap_word(oop, offset as int),
        ensures
            w == self.heap_word(oop, offset as int),
    {
        let index = oop.value as usize;
        let header = self.object_table[index];
        let segment = (header % 16) as usize;
        let location = self.object_table[index + 1] as usize;
        let words = &self.heap_segments[segment];
        proof {
            assert(words@ == self.heap()[segment as int]);
        }
        words[location + offset as usize]
    }

    /// The class of the object that `oop` names; SmallIntegers have the SmallInteger class.
    pub fn fetch_class_of(&self, oop: OOP) -> (class: u16)
        requires
            is_integer_word(oop.value) || self.has_heap_word(oop, 1),
        ensures
            class == (if is_integer_word(oop.value) {
                CLASS_SMALL_INTEGER_POINTER
            } else {
                self.heap_word(oop, 1)
            }),
    {
        if oop.is_integer_object() {
            CLASS_SMALL_INTEGER_POINTER
        } else {
            self.heap_chunk_word(oop, 1)
        }
    }

    /// The pointer held in field `field_index` of the object that `oop` names.
    pub fn fetch_pointer(&self, field_index: u16, oop: OOP) -> (pointer: u16)
        requires
            field_index + HEADER_SIZE <= u16::MAX,
            self.has_heap_word(oop, field_index + HEADER_SIZE),
        ensures
            pointer == self.heap_word(oop, field_index + HEADER_SIZE),
    {
        self.heap_chunk_word(oop, field_index + HEADER_SIZE)
    }
}

} // verus!
