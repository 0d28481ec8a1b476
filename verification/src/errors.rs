use vstd::prelude::*;

verus! {

/// Errors raised by the object memory when an object pointer is used in the wrong role.
#[derive(Debug, Clone, Copy, PartialEq, Eq, Structural)]
pub enum ObjectMemoryError {
    InvalidSmallIntegerAccess,
    NotInteger,
    NotInIntegerRange,
}

/// Reasons an image cannot be read. Each carries a message for the user.
#[derive(Debug, PartialEq, Eq)]
pub enum ImageLoadError {
    /// The header is missing or cut short.
    InvalidHeader(String),
    /// The header names an image type this reader does not handle.
    UnsupportedImageType(String),
    /// The image's contents are inconsistent.
    InvalidImage(String),
}

/// The text that describes each object memory error.
pub open spec fn object_memory_error_text(e: ObjectMemoryError) -> Seq<char> {
    match e {
        ObjectMemoryError::InvalidSmallIntegerAccess => "A small integer has no object table entry"@,
        ObjectMemoryError::NotInteger => "Object pointer is not a SmallInteger"@,
        ObjectMemoryError::NotInIntegerRange => "Value is outside of the SmallInteger range (-2^14..2^14-1)"@,
    }
}

impl ObjectMemoryError {
    /// A human readable description of the error.
    pub fn message(&self) -> (s: String)
        ensures
            s@ == object_memory_error_text(*self),
    {
        match self {
            ObjectMemoryError::InvalidSmallIntegerAccess => {
                "A small integer has no object table entry".to_owned()
            },
            ObjectMemoryError::NotInteger => "Object pointer is not a SmallInteger".to_owned(),
            ObjectMemoryError::NotInIntegerRange => {
                "Value is outside of the SmallInteger range (-2^14..2^14-1)".to_owned()
            },
        }
    }
}

} // verus!
