//! Reading a Smalltalk-80 image: a 512 byte header, the heap words from byte 512 on, and the
//! object table from the next page boundary on. An image may be stored big or little endian;
//! the object table length in the header tells which.
//!
//! Header words (16 bit): word 0 the last heap segment, word 1 the words used in that
//! segment, words 2 and 3 the object table length in words, word 4 the image type.
use std::path::PathBuf;
use vstd::prelude::*;
use vstd::string::StringExecFns;

use crate::errors::ImageLoadError;
use crate::globalconstants::{
    CLASS_ARRAY_POINTER, CLASS_FLOAT_POINTER, CLASS_SMALL_INTEGER_POINTER, CLASS_STRING_POINTER,
    FALSE_POINTER, HEAP_SEGMENT_SIZE, IMAGE_HEADER_BYTES, IMAGE_PAGE_SIZE_BYTES, NIL_POINTER,
    SCHEDULER_ASSOCIATION_POINTER, TRUE_POINTER,
};
use crate::objectmemory::{is_free_entry, ObjectMemory};
use crate::oop::OOP;

verus! {

/// The fields of an image header.
#[derive(Debug, Clone, Copy, PartialEq, Eq, Structural)]
pub struct ImageHeader {
    pub last_segment: u16,
    pub limit_in_last_page: u16,
    pub object_table_length: u32,
    pub image_type: u16,
}

/// The path an image was read from; the library only carries it.
#[verifier::external_type_specification]
#[verifier::external_body]
pub struct ExPathBuf(PathBuf);

/// A loaded image: the path it was read from, its bytes, its decoded header and its byte
/// order.
#[derive(Debug)]
pub struct Image {
    path: PathBuf,
    data: Vec<u8>,
    header: ImageHeader,
    big_endian: bool,
}

/// What an image holds, for contracts.
pub struct ImageView {
    pub path: PathBuf,
    pub data: Seq<u8>,
    pub header: ImageHeader,
    pub big_endian: bool,
}

impl View for Image {
    type V = ImageView;

    closed spec fn view(&self) -> ImageView {
        ImageView { path: self.path, data: self.data@, header: self.header, big_endian: self.big_endian }
    }
}

/// The 16 bit word at byte `i`, most significant byte first.
pub open spec fn be_word(d: Seq<u8>, i: int) -> int {
    d[i] * 256 + d[i + 1]
}

/// The 16 bit word at byte `i`, least significant byte first.
pub open spec fn le_word(d: Seq<u8>, i: int) -> int {
    d[i + 1] * 256 + d[i]
}

/// The 32 bit word at byte `i`, most significant byte first.
pub open spec fn be_double_word(d: Seq<u8>, i: int) -> int {
    d[i] * 0x1000000 + d[i + 1] * 0x10000 + d[i + 2] * 0x100 + d[i + 3]
}

/// The 32 bit word at byte `i`, least significant byte first.
pub open spec fn le_double_word(d: Seq<u8>, i: int) -> int {
    d[i + 3] * 0x1000000 + d[i + 2] * 0x10000 + d[i + 1] * 0x100 + d[i]
}

/// The 16 bit word at byte `i` in the given byte order.
pub open spec fn word_at(d: Seq<u8>, big_endian: bool, i: int) -> u16 {
    if big_endian {
        be_word(d, i) as u16
    } else {
        le_word(d, i) as u16
    }
}

/// An image is big endian when its object table length, read big endian, fits in 16 bits.
pub open spec fn image_is_big_endian(d: Seq<u8>) -> bool {
    be_double_word(d, 4) <= 0xFFFF
}

/// The header that the first ten bytes of an image give.
pub open spec fn decoded_header(d: Seq<u8>) -> ImageHeader {
    let be = image_is_big_endian(d);
    ImageHeader {
        last_segment: word_at(d, be, 0),
        limit_in_last_page: word_at(d, be, 2),
        object_table_length: (if be {
            be_double_word(d, 4)
        } else {
            le_double_word(d, 4)
        }) as u32,
        image_type: word_at(d, be, 8),
    }
}

/// The number of heap words the header announces.
pub open spec fn heap_word_count(h: ImageHeader) -> int {
    h.last_segment * 65536 + h.limit_in_last_page
}

/// The byte just past the heap.
pub open spec fn heap_end(h: ImageHeader) -> int {
    512 + 2 * heap_word_count(h)
}

/// The byte where the object table starts: the first page boundary at or after the heap.
pub open spec fn object_table_start(h: ImageHeader) -> int {
    if heap_end(h) % 512 == 0 {
        heap_end(h)
    } else {
        (heap_end(h) / 512 + 1) * 512
    }
}

/// The byte just past the object table.
pub open spec fn object_table_end(h: ImageHeader) -> int {
    object_table_start(h) + 2 * h.object_table_length
}

/// Whether the image's bytes hold the whole heap and object table its header announces.
pub open spec fn holds_memory(v: ImageView) -> bool {
    object_table_end(v.header) <= v.data.len()
}

/// The heap words of an image, in order.
pub open spec fn heap_words(v: ImageView) -> Seq<u16> {
    Seq::new(heap_word_count(v.header) as nat, |i: int| word_at(v.data, v.big_endian, 512 + 2 * i))
}

/// The object table words of an image, in order.
pub open spec fn object_table_words(v: ImageView) -> Seq<u16> {
    Seq::new(
        v.header.object_table_length as nat,
        |i: int| word_at(v.data, v.big_endian, object_table_start(v.header) + 2 * i),
    )
}

/// Whether `segs` is `words` cut into heap segments: every segment holds 65536 words but the
/// last, which holds the rest and is not empty.
pub open spec fn is_segmentation(words: Seq<u16>, segs: Seq<Seq<u16>>) -> bool {
    &&& words.len() <= segs.len() * 65536
    &&& segs.len() * 65536 < words.len() + 65536
    &&& forall|k: int|
        #![trigger segs[k]]
        0 <= k < segs.len() ==> segs[k] == words.subrange(
            k * 65536,
            if k * 65536 + 65536 <= words.len() {
                k * 65536 + 65536
            } else {
                words.len() as int
            },
        )
}

/// Heap segments joined in order give back the heap words they were cut from.
pub proof fn lemma_segments_join(words: Seq<u16>, segs: Seq<Seq<u16>>)
    requires
        is_segmentation(words, segs),
    ensures
        segs.flatten() == words,
    decreases segs.len(),
{
    segs.lemma_flatten_and_flatten_alt_are_equivalent();
    if segs.len() == 0 {
        assert(words =~= Seq::<u16>::empty());
    } else {
        let m = segs.len() - 1;
        let prefix = words.take(m * 65536);
        let rest = segs.drop_last();
        assert forall|k: int|
            #![trigger rest[k]]
            0 <= k < rest.len() implies rest[k] == prefix.subrange(
            k * 65536,
            if k * 65536 + 65536 <= prefix.len() {
                k * 65536 + 65536
            } else {
                prefix.len() as int
            },
        ) by {
            assert(rest[k] == segs[k]);
            assert(prefix.subrange(k * 65536, k * 65536 + 65536) =~= words.subrange(
                k * 65536,
                k * 65536 + 65536,
            ));
        }
        lemma_segments_join(prefix, rest);
        rest.lemma_flatten_and_flatten_alt_are_equivalent();
        assert(segs.last() == segs[m]);
        assert(words =~= prefix + words.subrange(m * 65536, words.len() as int));
    }
}

/// Heap words have exactly one segmentation, so images whose heap words agree give equal
/// heaps.
pub proof fn lemma_segmentation_unique(words: Seq<u16>, segs1: Seq<Seq<u16>>, segs2: Seq<Seq<u16>>)
    requires
        is_segmentation(words, segs1),
        is_segmentation(words, segs2),
    ensures
        segs1 == segs2,
{
    assert(segs1.len() == segs2.len());
    assert forall|k: int| 0 <= k < segs1.len() implies segs1[k] == segs2[k] by {
        assert(segs1[k] == segs2[k]);
    }
    assert(segs1 =~= segs2);
}

/// The header is read from the first ten bytes: the image is big endian exactly when bytes
/// 4..8 read most significant first are at most 0xFFFF, and then every header word is read
/// most significant byte first; otherwise least significant byte first, the object table
/// length over all four bytes.
pub proof fn lemma_header_from_bytes(d: Seq<u8>)
    requires
        d.len() >= 10,
    ensures
        ({
            let be = d[4] * 0x1000000 + d[5] * 0x10000 + d[6] * 0x100 + d[7] <= 0xFFFF;
            let h = decoded_header(d);
            &&& image_is_big_endian(d) == be
            &&& be ==> {
                &&& h.last_segment as int == d[0] * 256 + d[1]
                &&& h.limit_in_last_page as int == d[2] * 256 + d[3]
                &&& h.object_table_length as int == d[4] * 0x1000000 + d[5] * 0x10000 + d[6]
                    * 0x100 + d[7]
                &&& h.image_type as int == d[8] * 256 + d[9]
            }
            &&& !be ==> {
                &&& h.last_segment as int == d[1] * 256 + d[0]
                &&& h.limit_in_last_page as int == d[3] * 256 + d[2]
                &&& h.object_table_length as int == d[7] * 0x1000000 + d[6] * 0x10000 + d[5]
                    * 0x100 + d[4]
                &&& h.image_type as int == d[9] * 256 + d[8]
            }
        }),
{
}

/// Heap word `i` is the two bytes at 512 + 2i, most significant first in a big endian image
/// and least significant first in a little endian one; there are as many heap words as
/// the header announces (65536 per full segment plus the words in the last one).
pub proof fn lemma_heap_words_from_bytes(v: ImageView, i: int)
    requires
        0 <= i < v.header.last_segment * 65536 + v.header.limit_in_last_page,
    ensures
        heap_words(v).len() == v.header.last_segment * 65536 + v.header.limit_in_last_page,
        v.big_endian ==> heap_words(v)[i] as int == v.data[512 + 2 * i] * 256 + v.data[512 + 2
            * i + 1],
        !v.big_endian ==> heap_words(v)[i] as int == v.data[512 + 2 * i + 1] * 256 + v.data[512
            + 2 * i],
{
}

/// Object table word `i` is the two bytes at `start` + 2i in the image's byte order, where
/// `start` is the heap's end rounded up to a multiple of the 512 byte page.
pub proof fn lemma_object_table_words_from_bytes(v: ImageView, i: int)
    requires
        0 <= i < v.header.object_table_length,
    ensures
        ({
            let start = (512 + 2 * (v.header.last_segment * 65536 + v.header.limit_in_last_page)
                + 511) / 512 * 512;
            &&& object_table_words(v).len() == v.header.object_table_length
            &&& v.big_endian ==> object_table_words(v)[i] as int == v.data[start + 2 * i] * 256
                + v.data[start + 2 * i + 1]
            &&& !v.big_endian ==> object_table_words(v)[i] as int == v.data[start + 2 * i + 1]
                * 256 + v.data[start + 2 * i]
        }),
{
}

/// An image holds its memory exactly when its bytes reach the end of the object table: the
/// heap's end rounded up to a 512 byte page, plus two bytes per object table word.
pub proof fn lemma_holds_memory_bytes(v: ImageView)
    ensures
        holds_memory(v) <==> (512 + 2 * (v.header.last_segment * 65536
            + v.header.limit_in_last_page) + 511) / 512 * 512 + 2 * v.header.object_table_length
            <= v.data.len(),
{
}

/// In a segmentation every segment but the last holds 65536 words, the last holds between
/// one and 65536, there is no segment for no words, and word `j` of segment `k` is heap
/// word `65536 * k + j`.
pub proof fn lemma_segmentation_shape(words: Seq<u16>, segs: Seq<Seq<u16>>)
    requires
        is_segmentation(words, segs),
    ensures
        segs.len() == 0 <==> words.len() == 0,
        forall|k: int| 0 <= k < segs.len() - 1 ==> (#[trigger] segs[k]).len() == 65536,
        segs.len() > 0 ==> 0 < segs.last().len() <= 65536,
        forall|k: int, j: int|
            0 <= k < segs.len() && 0 <= j < segs[k].len() ==> #[trigger] segs[k][j]
                == words[65536 * k + j],
{
    if segs.len() > 0 {
        assert(segs.last() == segs[segs.len() - 1]);
    }
}

/// A big endian image and a little endian image with the same header whose heap and object
/// table bytes are the same words with their two bytes swapped hold the same heap words and
/// the same object table, so they parse to equal memories.
pub proof fn lemma_byte_orders_agree(b: ImageView, l: ImageView)
    requires
        b.big_endian,
        !l.big_endian,
        b.header == l.header,
        forall|p: int|
            #![trigger l.data[p]]
            512 <= p < object_table_end(b.header) ==> l.data[p] == b.data[if (p - 512) % 2 == 0 {
                p + 1
            } else {
                p - 1
            }],
    ensures
        heap_words(b) == heap_words(l),
        object_table_words(b) == object_table_words(l),
{
    let n = b.header.last_segment * 65536 + b.header.limit_in_last_page;
    assert forall|i: int| 0 <= i < n implies heap_words(b)[i] == heap_words(l)[i] by {
        lemma_heap_words_from_bytes(b, i);
        lemma_heap_words_from_bytes(l, i);
        assert(l.data[512 + 2 * i] == b.data[512 + 2 * i + 1]);
        assert(l.data[512 + 2 * i + 1] == b.data[512 + 2 * i]);
    }
    assert(heap_words(b) =~= heap_words(l));
    assert forall|i: int| 0 <= i < b.header.object_table_length implies object_table_words(b)[i]
        == object_table_words(l)[i] by {
        lemma_object_table_words_from_bytes(b, i);
        lemma_object_table_words_from_bytes(l, i);
        let start = object_table_start(b.header);
        assert(start % 512 == 0);
        assert(l.data[start + 2 * i] == b.data[start + 2 * i + 1]);
        assert(l.data[start + 2 * i + 1] == b.data[start + 2 * i]);
    }
    assert(object_table_words(b) =~= object_table_words(l));
}

/// The number of object pointers that must be present in every image.
pub open spec fn well_known_root_count() -> int {
    8
}

/// The object pointers that must be present in every image, in the order they are checked.
pub open spec fn well_known_root(i: int) -> u16 {
    if i == 0 {
        NIL_POINTER
    } else if i == 1 {
        FALSE_POINTER
    } else if i == 2 {
        TRUE_POINTER
    } else if i == 3 {
        SCHEDULER_ASSOCIATION_POINTER
    } else if i == 4 {
        CLASS_SMALL_INTEGER_POINTER
    } else if i == 5 {
        CLASS_STRING_POINTER
    } else if i == 6 {
        CLASS_ARRAY_POINTER
    } else {
        CLASS_FLOAT_POINTER
    }
}

/// The name under which the `i`-th well-known object pointer is reported.
pub open spec fn well_known_root_name(i: int) -> Seq<char> {
    if i == 0 {
        "nil"@
    } else if i == 1 {
        "false"@
    } else if i == 2 {
        "true"@
    } else if i == 3 {
        "SchedulerAssociation"@
    } else if i == 4 {
        "SmallInteger class"@
    } else if i == 5 {
        "String class"@
    } else if i == 6 {
        "Array class"@
    } else {
        "Float class"@
    }
}

/// Whether the object table has a live entry for `oop`.
pub open spec fn root_present(table: Seq<u16>, oop: u16) -> bool {
    oop < table.len() && !is_free_entry(table[oop as int])
}

/// Whether every well-known object pointer has a live entry.
pub open spec fn roots_present(table: Seq<u16>) -> bool {
    forall|i: int| 0 <= i < well_known_root_count() ==> root_present(table, well_known_root(i))
}

/// Whether `oop` is one of nil (0x02), false (0x04), true (0x06), the SchedulerAssociation
/// (0x08) and the classes SmallInteger (0x0C), String (0x0E), Array (0x10) and Float (0x14).
pub open spec fn is_well_known(oop: u16) -> bool {
    oop == 2 || oop == 4 || oop == 6 || oop == 8 || oop == 12 || oop == 14 || oop == 16 || oop
        == 20
}

/// Every well-known object pointer is present exactly when each lies within the object
/// table and its header word has the free bit (0x20) clear.
pub proof fn lemma_roots_present_bytes(table: Seq<u16>)
    ensures
        roots_present(table) <==> (forall|oop: u16|
            #[trigger] is_well_known(oop) ==> oop < table.len() && (table[oop as int] & 0x20)
                == 0),
{
    assert forall|h: u16| #[trigger] is_free_entry(h) <==> !((h & 0x20) == 0) by {
        crate::objectmemory::lemma_free_bit(h);
        assert(((h & 0x20) == 0) <==> !((h & 0x20) == 0x20)) by (bit_vector);
    }
    if roots_present(table) {
        assert forall|oop: u16| #[trigger] is_well_known(oop) implies oop < table.len() && (
        table[oop as int] & 0x20) == 0 by {
            let i: int = if oop == 2 {
                0
            } else if oop == 4 {
                1
            } else if oop == 6 {
                2
            } else if oop == 8 {
                3
            } else if oop == 12 {
                4
            } else if oop == 14 {
                5
            } else if oop == 16 {
                6
            } else {
                7
            };
            assert(well_known_root(i) == oop);
            assert(root_present(table, well_known_root(i)));
            assert(!is_free_entry(table[oop as int]));
        }
    }
    if forall|oop: u16|
        #[trigger] is_well_known(oop) ==> oop < table.len() && (table[oop as int] & 0x20) == 0 {
        assert forall|i: int| 0 <= i < well_known_root_count() implies root_present(
            table,
            well_known_root(i),
        ) by {
            let oop = well_known_root(i);
            assert(is_well_known(oop));
            assert(!is_free_entry(table[oop as int]));
        }
    }
}

/// Whether `i` is the first well-known object pointer without a live entry.
pub open spec fn first_missing_root(table: Seq<u16>, i: int) -> bool {
    &&& 0 <= i < well_known_root_count()
    &&& !root_present(table, well_known_root(i))
    &&& forall|j: int| 0 <= j < i ==> root_present(table, well_known_root(j))
}

/// The character of a digit below 16: `0`-`9`, then `a`-`f`.
pub open spec fn digit_char(d: nat) -> char {
    if d < 10 {
        (48 + d) as char
    } else {
        (87 + d) as char
    }
}

/// The digits of `n` in base `base`, most significant first, without leading zeros
/// (zero is the single digit `0`).
pub open spec fn digits(n: nat, base: nat) -> Seq<char>
    recommends
        2 <= base <= 16,
    decreases n,
{
    if n < base || base < 2 {
        seq![digit_char(n)]
    } else {
        proof {
            assert(n / base < n) by (nonlinear_arith)
                requires
                    n >= base,
                    base >= 2,
            ;
        }
        digits(n / base, base).push(digit_char(n % base))
    }
}

/// A number in decimal, as `{}` formats it.
pub open spec fn decimal_text(n: nat) -> Seq<char> {
    digits(n, 10)
}

/// A number in lower case hexadecimal behind `0x`, as `{:#x}` formats it.
pub open spec fn prefixed_hex_text(n: nat) -> Seq<char> {
    "0x"@ + digits(n, 16)
}

/// The value of a digit character `0`-`9` or `a`-`f`.
pub open spec fn char_digit_value(c: char) -> int {
    if c <= '9' {
        c as int - 48
    } else {
        c as int - 87
    }
}

/// The number that a sequence of digits in base `base` writes, most significant first.
pub open spec fn digits_value(s: Seq<char>, base: nat) -> int
    decreases s.len(),
{
    if s.len() == 0 {
        0
    } else {
        digits_value(s.drop_last(), base) * base + char_digit_value(s.last())
    }
}

/// The decimal and hexadecimal digits of a number read back as that number, have no
/// leading zero (zero is written `0`), and are drawn from `0`-`9` and `a`-`f` below the
/// base.
pub proof fn lemma_digits_read_back(n: nat, base: nat)
    requires
        base == 10 || base == 16,
    ensures
        digits_value(digits(n, base), base) == n,
        digits(n, base).len() >= 1,
        digits(n, base)[0] != '0' || n == 0,
        forall|i: int|
            0 <= i < digits(n, base).len() ==> {
                let c = #[trigger] digits(n, base)[i];
                &&& ('0' <= c <= '9' || 'a' <= c <= 'f')
                &&& 0 <= char_digit_value(c) < base
            },
    decreases n,
{
    let d = digits(n, base);
    if n < base {
        assert(d == seq![digit_char(n)]);
        assert(d.drop_last() =~= Seq::<char>::empty());
        if n < 10 {
            assert(digit_char(n) as int == 48 + n);
        } else {
            assert(digit_char(n) as int == 87 + n);
        }
        assert(char_digit_value(digit_char(n)) == n);
        assert(digits_value(d, base) == digits_value(d.drop_last(), base) * base
            + char_digit_value(d.last()));
        assert(digits_value(d.drop_last(), base) == 0);
    } else {
        assert(n / base < n) by (nonlinear_arith)
            requires
                n >= base,
                base >= 2,
        ;
        lemma_digits_read_back(n / base, base);
        let prefix = digits(n / base, base);
        let r = n % base;
        assert(d == prefix.push(digit_char(r)));
        assert(d.drop_last() =~= prefix);
        assert(d.last() == digit_char(r));
        if r < 10 {
            assert(digit_char(r) as int == 48 + r);
        } else {
            assert(digit_char(r) as int == 87 + r);
        }
        assert(char_digit_value(digit_char(r)) == r);
        vstd::arithmetic::div_mod::lemma_fundamental_div_mod(n as int, base as int);
        assert((n / base) * base + r == n) by (nonlinear_arith)
            requires
                n == base * (n / base) + r,
        ;
        assert(n / base != 0) by (nonlinear_arith)
            requires
                n >= base,
                base >= 2,
        ;
        assert(d[0] == prefix[0]);
        assert forall|i: int| 0 <= i < d.len() implies {
            let c = #[trigger] d[i];
            &&& ('0' <= c <= '9' || 'a' <= c <= 'f')
            &&& 0 <= char_digit_value(c) < base
        } by {
            if i < prefix.len() {
                assert(d[i] == prefix[i]);
            }
        }
    }
}

/// The message for an unknown image type.
pub open spec fn unknown_image_type_text(image_type: u16) -> Seq<char> {
    "unknown image type: "@ + decimal_text(image_type as nat)
}

/// The message for a missing or free well-known object pointer.
pub open spec fn missing_root_text(name: Seq<char>, oop: u16) -> Seq<char> {
    "well-known OOP "@ + name + " ("@ + prefixed_hex_text(oop as nat)
        + ") is missing or marked free"@
}

/// Writes a number in decimal with std's `format!` (`Display` for `u16`).
#[verifier::external_body]
fn format_decimal(n: u16) -> (s: String)
    ensures
        s@ == decimal_text(n as nat),
{
    format!("{}", n)
}

/// Writes a number in lower case hexadecimal behind `0x` with std's `format!`
/// (`LowerHex` for `u16`, alternate form).
#[verifier::external_body]
fn format_prefixed_hex(n: u16) -> (s: String)
    ensures
        s@ == prefixed_hex_text(n as nat),
{
    format!("{:#x}", n)
}

/// The message for an unknown image type.
fn unknown_image_type_message(image_type: u16) -> (s: String)
    ensures
        s@ == unknown_image_type_text(image_type),
{
    let number = format_decimal(image_type);
    let mut s = "unknown image type: ".to_owned();
    s.append(number.as_str());
    s
}

/// The message for a missing or free well-known object pointer.
fn missing_root_message(name: &str, oop: u16) -> (s: String)
    ensures
        s@ == missing_root_text(name@, oop),
{
    let number = format_prefixed_hex(oop);
    let mut s = "well-known OOP ".to_owned();
    s.append(name);
    s.append(" (");
    s.append(number.as_str());
    s.append(") is missing or marked free");
    proof {
        assert(s@ =~= missing_root_text(name@, oop));
    }
    s
}

/// The `i`-th well-known object pointer and its name.
fn well_known_root_entry(i: usize) -> (r: (u16, &'static str))
    requires
        i < well_known_root_count(),
    ensures
        r.0 == well_known_root(i as int),
        r.1@ == well_known_root_name(i as int),
{
    if i == 0 {
        (NIL_POINTER, "nil")
    } else if i == 1 {
        (FALSE_POINTER, "false")
    } else if i == 2 {
        (TRUE_POINTER, "true")
    } else if i == 3 {
        (SCHEDULER_ASSOCIATION_POINTER, "SchedulerAssociation")
    } else if i == 4 {
        (CLASS_SMALL_INTEGER_POINTER, "SmallInteger class")
    } else if i == 5 {
        (CLASS_STRING_POINTER, "String class")
    } else if i == 6 {
        (CLASS_ARRAY_POINTER, "Array class")
    } else {
        (CLASS_FLOAT_POINTER, "Float class")
    }
}

/// Reads the 16 bit word at byte `pos` in the given byte order.
fn read_word(data: &Vec<u8>, pos: usize, big_endian: bool) -> (w: u16)
    requires
        pos + 1 < data.len(),
    ensures
        w == word_at(data@, big_endian, pos as int),
{
    let hi: u8;
    let lo: u8;
    if big_endian {
        hi = data[pos];
        lo = data[pos + 1];
    } else {
        hi = data[pos + 1];
        lo = data[pos];
    }
    (hi as u16) * 256 + (lo as u16)
}

/// Reads the 32 bit word at byte `pos` in the given byte order.
fn read_double_word(data: &Vec<u8>, pos: usize, big_endian: bool) -> (w: u32)
    requires
        pos + 3 < data.len(),
    ensures
        w == (if big_endian {
            be_double_word(data@, pos as int)
        } else {
            le_double_word(data@, pos as int)
        }),
{
    let b0: u8;
    let b1: u8;
    let b2: u8;
    let b3: u8;
    if big_endian {
        b0 = data[pos];
        b1 = data[pos + 1];
        b2 = data[pos + 2];
        b3 = data[pos + 3];
    } else {
        b0 = data[pos + 3];
        b1 = data[pos + 2];
        b2 = data[pos + 1];
        b3 = data[pos];
    }
    (b0 as u32) * 0x1000000 + (b1 as u32) * 0x10000 + (b2 as u32) * 0x100 + (b3 as u32)
}

impl Image {
    /// The path the image was read from.
    pub fn path(&self) -> (p: &PathBuf)
        ensures
            *p == self@.path,
    {
        &self.path
    }

    /// The number of bytes in the image.
    pub fn data_len(&self) -> (n: usize)
        ensures
            n == self@.data.len(),
    {
        self.data.len()
    }

    /// Whether the image is stored most significant byte first.
    pub fn big_endian(&self) -> (b: bool)
        ensures
            b == self@.big_endian,
    {
        self.big_endian
    }

    /// The image's header.
    pub fn header(&self) -> (h: ImageHeader)
        ensures
            h == self@.header,
    {
        self.header
    }

    /// Whether the image's bytes hold the whole heap and object table that its header
    /// announces, which `parse_into_memory` needs.
    pub fn holds_whole_memory(&self) -> (b: bool)
        ensures
            b == holds_memory(self@),
    {
        let heap_end_byte: u64 = 512 + 2 * ((self.header.last_segment as u64) * 65536
            + self.header.limit_in_last_page as u64);
        let start: u64 = if heap_end_byte % 512 == 0 {
            heap_end_byte
        } else {
            (heap_end_byte / 512 + 1) * 512
        };
        let end: u64 = start + 2 * (self.header.object_table_length as u64);
        end <= self.data.len() as u64
    }

    /// Checks the header of the bytes read from `path`: at least a whole header, and image
    /// type 0. The byte order is big endian when the object table length, read big endian, fits in
    /// 16 bits.
    pub fn from_bytes(path: PathBuf, data: Vec<u8>) -> (r: Result<Image, ImageLoadError>)
        ensures
            data@.len() < 512 ==> (r matches Err(ImageLoadError::InvalidHeader(m)) && m@
                == "Image file should be at least contain the header (512 Bytes)"@),
            data@.len() >= 512 && decoded_header(data@).image_type == 1 ==> (r matches Err(
                ImageLoadError::UnsupportedImageType(m),
            ) && m@ == "The Stretch/DV6 image format is not supported"@),
            data@.len() >= 512 && decoded_header(data@).image_type > 1 ==> (r matches Err(
                ImageLoadError::UnsupportedImageType(m),
            ) && m@ == unknown_image_type_text(decoded_header(data@).image_type)),
            data@.len() >= 512 && decoded_header(data@).image_type == 0 ==> (r matches Ok(img)
                && img@.path == path && img@.data == data@ && img@.header == decoded_header(data@) && img@.big_endian
                == image_is_big_endian(data@)),
    {
        if data.len() < IMAGE_HEADER_BYTES {
            return Err(
                ImageLoadError::InvalidHeader(
                    "Image file should be at least contain the header (512 Bytes)".to_owned(),
                ),
            );
        }
        let be_length = read_double_word(&data, 4, true);
        let big_endian = be_length <= 0xFFFF;
        let object_table_length = if big_endian {
            be_length
        } else {
            read_double_word(&data, 4, false)
        };
        let last_segment = read_word(&data, 0, big_endian);
        let limit_in_last_page = read_word(&data, 2, big_endian);
        let image_type = read_word(&data, 8, big_endian);

        if image_type == 1 {
            return Err(
                ImageLoadError::UnsupportedImageType(
                    "The Stretch/DV6 image format is not supported".to_owned(),
                ),
            );
        } else if image_type != 0 {
            return Err(ImageLoadError::UnsupportedImageType(unknown_image_type_message(image_type)));
        }
        let header = ImageHeader { last_segment, limit_in_last_page, object_table_length, image_type };
        Ok(Image { path, data, header, big_endian })
    }

    /// Reads the heap and the object table of an image into an object memory, and checks
    /// that every well-known object pointer has a live object table entry.
    ///
    /// The heap words are cut into segments of 65536 words; the object table starts at the
    /// first page boundary after the heap.
    pub fn parse_into_memory(image: &Image) -> (r: Result<ObjectMemory, ImageLoadError>)
        requires
            holds_memory(image@),
        ensures
            r matches Ok(mem) ==> {
                &&& mem.table() == object_table_words(image@)
                &&& is_segmentation(heap_words(image@), mem.heap())
                &&& roots_present(mem.table())
            },
            r matches Err(e) ==> exists|i: int|
                first_missing_root(object_table_words(image@), i) && (e matches ImageLoadError::InvalidImage(m)
                    && m@ == missing_root_text(well_known_root_name(i), well_known_root(i))),
            roots_present(object_table_words(image@)) <==> r is Ok,
    {
        let ghost v = image@;
        let ghost words = heap_words(v);
        let ghost table = object_table_words(v);
        let mut heap_segments: Vec<Vec<u16>> = Vec::new();
        let mut heap_segment: Vec<u16> = Vec::with_capacity(HEAP_SEGMENT_SIZE);

        assert(heap_end(v.header) <= object_table_start(v.header));
        assert(object_table_end(v.header) <= image.data.len());
        let heap_word_total: usize = (image.header.last_segment as usize) * HEAP_SEGMENT_SIZE
            + image.header.limit_in_last_page as usize;
        let heap_end_byte: usize = IMAGE_HEADER_BYTES + heap_word_total * 2;

        let mut i: usize = 0;
        while i < heap_word_total
            invariant
                v == image@,
                words == heap_words(v),
                heap_word_total == heap_word_count(v.header),
                heap_end(v.header) <= image.data.len(),
                i <= heap_word_total,
                i == heap_segments.len() * 65536 + heap_segment.len(),
                heap_segment.len() < 65536,
                forall|k: int|
                    #![trigger heap_segments@[k]]
                    0 <= k < heap_segments.len() ==> heap_segments@[k]@ == words.subrange(
                        k * 65536,
                        k * 65536 + 65536,
                    ),
                heap_segment@ == words.subrange(heap_segments.len() * 65536, i as int),
            decreases heap_word_total - i,
        {
            let pos = IMAGE_HEADER_BYTES + 2 * i;
            let heap_word = read_word(&image.data, pos, image.big_endian);
            heap_segment.push(heap_word);
            assert(heap_segment@ == words.subrange(heap_segments.len() * 65536, i + 1));
            if heap_segment.len() == HEAP_SEGMENT_SIZE {
                heap_segments.push(heap_segment);
                heap_segment = Vec::new();
            }
            i += 1;
        }
        let ghost full_segments = heap_segments@;
        let ghost last_segment = heap_segment@;
        if !heap_segment.is_empty() {
            heap_segments.push(heap_segment);
        }
        proof {
            let segs = heap_segments.deep_view();
            assert forall|k: int|
                #![trigger segs[k]]
                0 <= k < segs.len() implies segs[k] == words.subrange(
                k * 65536,
                if k * 65536 + 65536 <= words.len() {
                    k * 65536 + 65536
                } else {
                    words.len() as int
                },
            ) by {
                assert(segs[k] == heap_segments@[k]@);
                if k < full_segments.len() {
                    assert(heap_segments@[k] == full_segments[k]);
                } else {
                    assert(heap_segments@[k]@ == last_segment);
                }
            }
        }
        assert(is_segmentation(words, heap_segments.deep_view()));

        // the object table starts at the beginning of the next page
        let index: usize = if heap_end_byte % IMAGE_PAGE_SIZE_BYTES == 0 {
            heap_end_byte
        } else {
            (heap_end_byte / IMAGE_PAGE_SIZE_BYTES + 1) * IMAGE_PAGE_SIZE_BYTES
        };
        let table_length: usize = image.header.object_table_length as usize;
        let mut object_table: Vec<u16> = Vec::with_capacity(table_length);
        let mut j: usize = 0;
        while j < table_length
            invariant
                v == image@,
                table == object_table_words(v),
                index == object_table_start(v.header),
                table_length == v.header.object_table_length,
                object_table_end(v.header) <= image.data.len(),
                j <= table_length,
                object_table@ == table.take(j as int),
            decreases table_length - j,
        {
            let word = read_word(&image.data, index + 2 * j, image.big_endian);
            object_table.push(word);
            assert(object_table@ == table.take(j + 1));
            j += 1;
        }
        assert(object_table@ == table);

        let mem = ObjectMemory::from_image(heap_segments, object_table);

        let mut k: usize = 0;
        while k < 8
            invariant
                v == image@,
                table == object_table_words(v),
                mem.table() == table,
                k <= 8,
                forall|j: int| 0 <= j < k ==> root_present(table, well_known_root(j)),
            decreases 8 - k,
        {
            let (oop_value, name) = well_known_root_entry(k);
            if (oop_value as usize) >= mem.object_table_len() || mem.is_free_oop(
                OOP::from_raw(oop_value),
            ) {
                let message = missing_root_message(name, oop_value);
                let e = ImageLoadError::InvalidImage(message);
                assert(first_missing_root(table, k as int));
                assert(e matches ImageLoadError::InvalidImage(m) && m@ == missing_root_text(
                    well_known_root_name(k as int),
                    well_known_root(k as int),
                ));
                assert(!roots_present(table));
                return Err(e);
            }
            k += 1;
        }
        Ok(mem)
    }
}

} // verus!
