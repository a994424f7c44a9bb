use vstd::prelude::*;

verus! {

/// Reading stopped because the input ended inside a value.
pub const UNEXPECTED_EOF: &'static str = "unexpected end of input";

/// A length, pointer or property count in the value's framing cannot hold.
pub const MALFORMED_FRAME: &'static str = "malformed value framing";

/// A UTF-16 payload holds an odd number of bytes.
pub const ODD_UTF16_LENGTH: &'static str = "UTF-16 data of odd byte length";

/// A UTF-16 payload holds an unpaired surrogate.
pub const INVALID_UTF16: &'static str = "invalid UTF-16 data";

/// The collation names no code page that this library knows.
pub const UNSUPPORTED_COLLATION: &'static str = "unsupported collation";

/// A character column came without a collation.
pub const MISSING_COLLATION: &'static str = "character data without a collation";

/// The collation's code page is one of the legacy OEM code pages, not an ANSI one.
pub const NOT_AN_ANSI_CODE_PAGE: &'static str = "the collation uses an OEM code page";

/// The bytes are not a valid sequence in the collation's code page.
pub const MALFORMED_CHARACTERS: &'static str = "invalid byte sequence for the collation";

/// A character has no encoding in the collation's code page.
pub const UNREPRESENTABLE_CHARACTER: &'static str = "unrepresentable character";

/// The column type holds no character data.
pub const UNSUPPORTED_TYPE: &'static str = "unsupported column type";

/// The `sql_variant` value holds a base type that is not character data.
pub const UNSUPPORTED_VARIANT: &'static str = "unsupported sql_variant base type";

/// The encoded value does not fit the column's declared length.
pub const VALUE_TOO_LONG: &'static str = "value too long for the column";

/// The errors of decoding and encoding column values.
#[derive(Debug, Clone, Copy, PartialEq, Eq)]
pub enum Error {
    /// The input ended before the value was complete.
    Io(&'static str),
    /// The value's framing is malformed or of a kind this library does not read.
    Protocol(&'static str),
    /// A code page could not be chosen, or could not carry the characters.
    Encoding(&'static str),
    /// UTF-16 data is malformed.
    Utf16(&'static str),
    /// A value given for bulk insertion does not fit its column.
    BulkInput(&'static str),
    /// The value and the column type do not go together.
    Conversion(&'static str),
}

} // verus!
