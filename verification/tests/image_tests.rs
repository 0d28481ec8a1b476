use lib::errors::ImageLoadError;
use lib::globalconstants::CLASS_SMALL_INTEGER_POINTER;
use lib::image::Image;
use lib::oop::OOP;
use std::path::PathBuf;

fn fixture() -> PathBuf {
    PathBuf::from("fixture.im")
}

fn put_word(data: &mut [u8], pos: usize, word: u16, big_endian: bool) {
    let bytes = if big_endian {
        word.to_be_bytes()
    } else {
        word.to_le_bytes()
    };
    data[pos] = bytes[0];
    data[pos + 1] = bytes[1];
}

/// The first 512 bytes of an image with the given header fields.
fn header_bytes(
    last_segment: u16,
    limit_in_last_page: u16,
    object_table_length: u32,
    image_type: u16,
    big_endian: bool,
) -> Vec<u8> {
    let mut data = vec![0u8; 512];
    put_word(&mut data, 0, last_segment, big_endian);
    put_word(&mut data, 2, limit_in_last_page, big_endian);
    let length = if big_endian {
        object_table_length.to_be_bytes()
    } else {
        object_table_length.to_le_bytes()
    };
    data[4..8].copy_from_slice(&length);
    put_word(&mut data, 8, image_type, big_endian);
    data
}

/// A whole image: header, heap words from byte 512, object table from the next page.
fn image_bytes(
    last_segment: u16,
    limit_in_last_page: u16,
    heap: &[u16],
    table: &[u16],
    big_endian: bool,
) -> Vec<u8> {
    let mut data = header_bytes(
        last_segment,
        limit_in_last_page,
        table.len() as u32,
        0,
        big_endian,
    );
    for w in heap {
        data.extend_from_slice(&if big_endian {
            w.to_be_bytes()
        } else {
            w.to_le_bytes()
        });
    }
    while data.len() % 512 != 0 {
        data.push(0);
    }
    for w in table {
        data.extend_from_slice(&if big_endian {
            w.to_be_bytes()
        } else {
            w.to_le_bytes()
        });
    }
    data
}

/// A small image: one object at segment 0, location 0, of class 0x000C; 32 object table
/// words, every entry live.
fn parse_fixture(big_endian: bool) -> Vec<u8> {
    let heap = [0x0004u16, 0x000C, 0x0000, 0x0000];
    let table = [0u16; 32];
    image_bytes(0, 4, &heap, &table, big_endian)
}

#[test]
fn loads_valid_big_endian_image() {
    let img = Image::from_bytes(fixture(), header_bytes(1, 0xFF, 0x1000, 0, true)).expect("load failed");
    assert!(img.big_endian());
    assert_eq!(img.header().last_segment, 1);
    assert_eq!(img.header().limit_in_last_page, 0xFF);
    assert_eq!(img.header().object_table_length, 0x1000);
    assert_eq!(img.header().image_type, 0);
}

#[test]
fn loads_valid_little_endian_image() {
    let img = Image::from_bytes(fixture(), header_bytes(1, 0xFF, 0x1000, 0, false)).expect("load failed");
    assert!(!img.big_endian());
    assert_eq!(img.header().last_segment, 1);
    assert_eq!(img.header().limit_in_last_page, 0xFF);
    assert_eq!(img.header().object_table_length, 0x1000);
    assert_eq!(img.header().image_type, 0);
}

#[test]
fn rejects_too_short_file() {
    let result = Image::from_bytes(fixture(), vec![0u8; 100]);
    assert!(matches!(result, Err(ImageLoadError::InvalidHeader(_))));
}

#[test]
fn rejects_dv6_image_type() {
    let result = Image::from_bytes(fixture(), header_bytes(1, 0xFF, 0x1000, 1, true));
    assert!(matches!(
        result,
        Err(ImageLoadError::UnsupportedImageType(_))
    ));
}

#[test]
fn rejects_unknown_image_type() {
    let result = Image::from_bytes(fixture(), header_bytes(1, 0xFF, 0x1000, 7, true));
    assert!(matches!(
        result,
        Err(ImageLoadError::UnsupportedImageType(_))
    ));
}

#[test]
fn parse_into_memory_loads_big_endian_image() {
    let img = Image::from_bytes(fixture(), parse_fixture(true)).expect("load failed");
    let memory = Image::parse_into_memory(&img).expect("parse failed");
    // OOP 0 points to segment 0, location 0; class word lives at heap[0][1] = 0x000C
    assert_eq!(memory.fetch_class_of(OOP::from_raw(0)), 0x000C);
}

#[test]
fn parse_into_memory_loads_little_endian_image() {
    let img = Image::from_bytes(fixture(), parse_fixture(false)).expect("load failed");
    let memory = Image::parse_into_memory(&img).expect("parse failed");
    // Same logical content as the BE fixture
    assert_eq!(memory.fetch_class_of(OOP::from_raw(0)), 0x000C);
}

#[test]
fn parse_into_memory_be_and_le_produce_equal_memory() {
    let img_be = Image::from_bytes(fixture(), parse_fixture(true)).expect("load BE failed");
    let img_le = Image::from_bytes(fixture(), parse_fixture(false)).expect("load LE failed");
    let mem_be = Image::parse_into_memory(&img_be).expect("parse BE failed");
    let mem_le = Image::parse_into_memory(&img_le).expect("parse LE failed");
    assert_eq!(mem_be, mem_le);
}

// Further cases of this library.

#[test]
fn too_short_message() {
    assert_eq!(
        Image::from_bytes(fixture(), vec![0u8; 511]).unwrap_err(),
        ImageLoadError::InvalidHeader(
            "Image file should be at least contain the header (512 Bytes)".to_string()
        )
    );
}

#[test]
fn exactly_a_header_is_enough() {
    let img = Image::from_bytes(fixture(), header_bytes(0, 0, 0, 0, true)).expect("load failed");
    assert_eq!(img.path(), &fixture());
    assert_eq!(img.data_len(), 512);
    assert!(img.big_endian());
}

#[test]
fn unsupported_type_messages() {
    assert_eq!(
        Image::from_bytes(fixture(), header_bytes(0, 0, 0x1000, 1, false)).unwrap_err(),
        ImageLoadError::UnsupportedImageType(
            "The Stretch/DV6 image format is not supported".to_string()
        )
    );
    assert_eq!(
        Image::from_bytes(fixture(), header_bytes(0, 0, 0, 7, true)).unwrap_err(),
        ImageLoadError::UnsupportedImageType("unknown image type: 7".to_string())
    );
}

#[test]
fn byte_order_follows_object_table_length() {
    // A length above 0xFFFF, stored big endian, is read as little endian.
    let img = Image::from_bytes(fixture(), header_bytes(0, 0, 0x0001_0000, 0, true)).expect("load failed");
    assert!(!img.big_endian());
    assert_eq!(img.header().object_table_length, 0x0000_0100);
}

#[test]
fn holds_whole_memory_checks_length() {
    let data = parse_fixture(true);
    let img = Image::from_bytes(fixture(), data.clone()).expect("load failed");
    assert!(img.holds_whole_memory());
    let mut short = data;
    short.pop();
    let img = Image::from_bytes(fixture(), short).expect("load failed");
    assert!(!img.holds_whole_memory());
}

#[test]
fn object_table_starts_on_next_page() {
    let memory = Image::parse_into_memory(&Image::from_bytes(fixture(), parse_fixture(true)).unwrap())
        .expect("parse failed");
    assert_eq!(memory.object_table_len(), 32);
    for i in 0..16u16 {
        assert!(!memory.is_free_oop(OOP::from_raw(i * 2)));
    }
}

#[test]
fn missing_well_known_oop_is_reported() {
    // 0x14 (Float class) is beyond an object table of 0x14 words.
    let heap = [0x0004u16, 0x000C, 0x0000, 0x0000];
    let table = [0u16; 0x14];
    let img = Image::from_bytes(fixture(), image_bytes(0, 4, &heap, &table, true)).unwrap();
    assert_eq!(
        Image::parse_into_memory(&img).unwrap_err(),
        ImageLoadError::InvalidImage(
            "well-known OOP Float class (0x14) is missing or marked free".to_string()
        )
    );
}

#[test]
fn free_well_known_oop_is_reported() {
    // the entry of true (0x06) has its free bit set
    let heap = [0x0004u16, 0x000C, 0x0000, 0x0000];
    let mut table = [0u16; 32];
    table[0x06] = 0x0020;
    table[0x08] = 0x0020;
    let img = Image::from_bytes(fixture(), image_bytes(0, 4, &heap, &table, false)).unwrap();
    let memory_err = Image::parse_into_memory(&img).unwrap_err();
    assert_eq!(
        memory_err,
        ImageLoadError::InvalidImage(
            "well-known OOP true (0x6) is missing or marked free".to_string()
        )
    );
}

#[test]
fn heap_is_cut_into_segments() {
    // 65536 + 3 words: a full segment 0 and three words in segment 1.
    let mut heap = vec![0u16; 65539];
    heap[65536] = 0x0006; // size
    heap[65537] = 0x0010; // class
    heap[65538] = 0x1234; // field 0
    let mut table = [0u16; 32];
    table[0x18] = 0x0001; // segment 1
    table[0x19] = 0x0000; // location 0
    let img = Image::from_bytes(fixture(), image_bytes(1, 3, &heap, &table, true)).unwrap();
    assert!(img.holds_whole_memory());
    let memory = Image::parse_into_memory(&img).expect("parse failed");
    let oop = OOP::from_raw(0x18);
    assert!(memory.holds_heap_word(oop, 2));
    assert!(!memory.holds_heap_word(oop, 3));
    assert_eq!(memory.fetch_class_of(oop), 0x0010);
    assert_eq!(memory.fetch_pointer(0, oop), 0x1234);
}

#[test]
fn small_integers_have_their_class() {
    let memory = Image::parse_into_memory(&Image::from_bytes(fixture(), parse_fixture(true)).unwrap())
        .expect("parse failed");
    assert_eq!(
        memory.fetch_class_of(OOP::from_raw(0x0003)),
        CLASS_SMALL_INTEGER_POINTER
    );
}

#[test]
fn entry_counts_split_live_and_free() {
    let heap = [0x0004u16, 0x000C, 0x0000, 0x0000];
    let mut table = [0u16; 32];
    table[0x00] = 0x0020;
    table[0x18] = 0x0020;
    table[0x1E] = 0x0021;
    table[0x19] = 0x0020; // a location word, not an entry header
    let img = Image::from_bytes(fixture(), image_bytes(0, 4, &heap, &table, true)).unwrap();
    let memory = Image::parse_into_memory(&img).expect("parse failed");
    assert_eq!(memory.entry_counts(), (13, 3));
}
