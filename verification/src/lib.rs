pub mod error;
pub mod text;
pub mod codepage;
pub mod collation;
pub mod utf16;
pub mod wire;
pub mod column;
pub mod laws;

pub use codepage::{AnsiCodePage, Codec, LegacyCodePage};
pub use collation::Collation;
pub use column::{
    frame, type_info, wire_value, ByteReader, ColumnData, ReaderContext, TypeInfo, VarLenContext,
    VarLenType,
};
pub use error::Error;
