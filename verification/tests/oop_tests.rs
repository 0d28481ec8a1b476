use lib::errors::ObjectMemoryError;
use lib::oop::OOP;

#[test]
fn from_raw_creates_oop() {
    let val = 0x02; // 0x02 is the NilPointer 'constant'
    let oop = OOP::from_raw(val);
    assert!(!oop.is_integer_object()); // should be an object
    assert_eq!(oop.cant_be_integer_object(), Ok(val));
    assert!(!oop.cant_be_integer_object().is_err());
}

#[test]
fn is_integer_object_truthy() {
    let val = 0x3; // SmallInteger of value '1'
    let oop = OOP::from_raw(val);
    assert!(oop.is_integer_object());
    assert_eq!(oop.integer_value_of(), Ok(0x01));
}

#[test]
fn is_integer_object_falsy() {
    let val = 0x4; // An object value
    let oop = OOP::from_raw(val);
    assert!(!oop.is_integer_object());
}

#[test]
fn cant_be_integer_object_errors_on_integer() {
    let val = 0x3; // SmallInteger of value '1'
    let oop = OOP::from_raw(val);
    assert!(oop.cant_be_integer_object().is_err());
}

#[test]
fn cant_be_integer_object_returns_value_on_object() {
    let val = 0x4;
    let oop = OOP::from_raw(val);
    assert_eq!(oop.cant_be_integer_object(), Ok(val));
}

#[test]
fn integer_value_of_returns_integer() {
    let val = 0x3;
    let oop = OOP::from_raw(val);
    assert_eq!(oop.integer_value_of(), Ok(0x01));
}

#[test]
fn integer_value_of_returns_error() {
    let val = 0x02;
    let oop = OOP::from_raw(val);
    assert!(oop.integer_value_of().is_err());
}

#[test]
fn is_integer_value_truthy() {
    // some values within the range
    let val1 = 12345;
    assert!(OOP::is_integer_value(val1));
    let val2 = -12345;
    assert!(OOP::is_integer_value(val2));
    // zero
    let val3 = 0;
    assert!(OOP::is_integer_value(val3));
    // lower bound
    let val4 = -16384;
    assert!(OOP::is_integer_value(val4));
    // upper bound
    let val5 = 16383;
    assert!(OOP::is_integer_value(val5));
}

#[test]
fn is_integer_value_falsy_low() {
    let val = -16385;
    assert!(!OOP::is_integer_value(val));
}

#[test]
fn is_integer_value_falsy_high() {
    let val = 16834;
    assert!(!OOP::is_integer_value(val));
}

#[test]
fn integer_object_of_returns_integer_oop() {
    let val1 = 12345;
    assert_eq!(OOP::integer_object_of(val1), Ok(OOP::from_raw(0x6073)));
    let val2 = -12345;
    assert_eq!(OOP::integer_object_of(val2), Ok(OOP::from_raw(0x9f8f)));
}

#[test]
fn integer_object_of_returns_error() {
    let val = 20000;
    assert!(OOP::integer_object_of(val).is_err())
}

// Further cases of this library.

#[test]
fn cant_be_integer_object_reports_small_integer_access() {
    let oop = OOP::from_raw(0x7);
    assert_eq!(
        oop.cant_be_integer_object(),
        Err(ObjectMemoryError::InvalidSmallIntegerAccess)
    );
}

#[test]
fn integer_value_of_reports_not_integer() {
    assert_eq!(
        OOP::from_raw(0x10).integer_value_of(),
        Err(ObjectMemoryError::NotInteger)
    );
}

#[test]
fn integer_object_of_reports_not_in_range() {
    assert_eq!(
        OOP::integer_object_of(16384),
        Err(ObjectMemoryError::NotInIntegerRange)
    );
    assert_eq!(
        OOP::integer_object_of(-16385),
        Err(ObjectMemoryError::NotInIntegerRange)
    );
}

#[test]
fn integer_value_of_negative_words_round_down() {
    // 0xFFFF is -1 in two's complement: SmallInteger -1
    assert_eq!(OOP::from_raw(0xFFFF).integer_value_of(), Ok(-1));
    // 0x8001 is the least SmallInteger, -16384
    assert_eq!(OOP::from_raw(0x8001).integer_value_of(), Ok(-16384));
    // 0x7FFF is the greatest SmallInteger, 16383
    assert_eq!(OOP::from_raw(0x7FFF).integer_value_of(), Ok(16383));
}

#[test]
fn integer_object_of_bounds() {
    assert_eq!(OOP::integer_object_of(0), Ok(OOP::from_raw(0x0001)));
    assert_eq!(OOP::integer_object_of(-1), Ok(OOP::from_raw(0xFFFF)));
    assert_eq!(OOP::integer_object_of(-16384), Ok(OOP::from_raw(0x8001)));
    assert_eq!(OOP::integer_object_of(16383), Ok(OOP::from_raw(0x7FFF)));
}

#[test]
fn small_integer_roundtrip_on_values() {
    for v in [-16384i16, -12345, -1, 0, 1, 12345, 16383] {
        let oop = OOP::integer_object_of(v).unwrap();
        assert!(oop.is_integer_object());
        assert_eq!(oop.integer_value_of(), Ok(v));
    }
}

#[test]
fn small_integer_roundtrip_on_words() {
    for w in [0x0001u16, 0x0003, 0x6073, 0x7FFF, 0x8001, 0x9f8f, 0xFFFF] {
        let v = OOP::from_raw(w).integer_value_of().unwrap();
        assert!(OOP::is_integer_value(v));
        assert_eq!(OOP::integer_object_of(v), Ok(OOP::from_raw(w)));
    }
}

#[test]
fn object_memory_error_messages() {
    assert_eq!(
        ObjectMemoryError::InvalidSmallIntegerAccess.message(),
        "A small integer has no object table entry"
    );
    assert_eq!(
        ObjectMemoryError::NotInteger.message(),
        "Object pointer is not a SmallInteger"
    );
    assert_eq!(
        ObjectMemoryError::NotInIntegerRange.message(),
        "Value is outside of the SmallInteger range (-2^14..2^14-1)"
    );
}
