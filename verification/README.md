# lib

Object pointers and image loading for a Blue Book Smalltalk-80 virtual machine, verified
with Verus.

- `src/oop.rs`: object pointers, SmallInteger tagging, encoding and decoding.
- `src/objectmemory.rs`: heap segments and object table of a loaded image.
- `src/image.rs`: image header checks and reading an image into an object memory.
- `src/errors.rs`, `src/globalconstants.rs`: error types and well-known constants.
- `app/main.rs`: reads an image file and prints a summary of its object memory.
