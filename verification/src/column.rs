use vstd::prelude::*;
use crate::codepage::max_converted_len;
use crate::collation::Collation;
use crate::error::{
    Error, MALFORMED_FRAME, MISSING_COLLATION, UNEXPECTED_EOF, UNSUPPORTED_COLLATION,
    UNSUPPORTED_TYPE, UNSUPPORTED_VARIANT, VALUE_TOO_LONG,
};
use crate::utf16::{decode_utf16, encode_utf16, spec_utf16_bytes, spec_utf16_text};
use crate::wire::{
    append_range, eof, frame_view, le_bytes16, le_bytes32, le_bytes64, le_u32, lemma_frame_bounds,
    plp_bytes, push_plp_frame, push_short_frame, push_text_frame, push_u16, push_u32, push_u64,
    read_plp_frame, read_short_frame, read_text_frame, read_u32, short_bytes, spec_plp_frame,
    spec_short_frame, spec_text_frame, text_bytes,
};

verus! {

/// The variable-length TDS column types.
#[derive(Debug, Clone, Copy, PartialEq, Eq, Structural)]
pub enum VarLenType {
    BigVarBin,
    BigVarChar,
    BigBinary,
    BigChar,
    NVarchar,
    NChar,
    Xml,
    Udt,
    Text,
    Image,
    NText,
    SSVariant,
}

impl VarLenType {
    /// The type's token on the wire.
    pub open spec fn spec_to_u8(self) -> u8 {
        match self {
            VarLenType::BigVarBin => 0xA5,
            VarLenType::BigVarChar => 0xA7,
            VarLenType::BigBinary => 0xAD,
            VarLenType::BigChar => 0xAF,
            VarLenType::NVarchar => 0xE7,
            VarLenType::NChar => 0xEF,
            VarLenType::Xml => 0xF1,
            VarLenType::Udt => 0xF0,
            VarLenType::Text => 0x23,
            VarLenType::Image => 0x22,
            VarLenType::NText => 0x63,
            VarLenType::SSVariant => 0x62,
        }
    }

    /// The type whose token is `b`, if any.
    pub open spec fn spec_from_u8(b: u8) -> Option<VarLenType> {
        if b == 0xA5 {
            Some(VarLenType::BigVarBin)
        } else if b == 0xA7 {
            Some(VarLenType::BigVarChar)
        } else if b == 0xAD {
            Some(VarLenType::BigBinary)
        } else if b == 0xAF {
            Some(VarLenType::BigChar)
        } else if b == 0xE7 {
            Some(VarLenType::NVarchar)
        } else if b == 0xEF {
            Some(VarLenType::NChar)
        } else if b == 0xF1 {
            Some(VarLenType::Xml)
        } else if b == 0xF0 {
            Some(VarLenType::Udt)
        } else if b == 0x23 {
            Some(VarLenType::Text)
        } else if b == 0x22 {
            Some(VarLenType::Image)
        } else if b == 0x63 {
            Some(VarLenType::NText)
        } else if b == 0x62 {
            Some(VarLenType::SSVariant)
        } else {
            None
        }
    }

    /// The type's token on the wire.
    pub fn to_u8(self) -> (b: u8)
        ensures
            b == self.spec_to_u8(),
    {
        match self {
            VarLenType::BigVarBin => 0xA5,
            VarLenType::BigVarChar => 0xA7,
            VarLenType::BigBinary => 0xAD,
            VarLenType::BigChar => 0xAF,
            VarLenType::NVarchar => 0xE7,
            VarLenType::NChar => 0xEF,
            VarLenType::Xml => 0xF1,
            VarLenType::Udt => 0xF0,
            VarLenType::Text => 0x23,
            VarLenType::Image => 0x22,
            VarLenType::NText => 0x63,
            VarLenType::SSVariant => 0x62,
        }
    }

    /// The type whose token is `b`, if any.
    pub fn from_u8(b: u8) -> (ty: Option<VarLenType>)
        ensures
            ty == Self::spec_from_u8(b),
    {
        if b == 0xA5 {
            Some(VarLenType::BigVarBin)
        } else if b == 0xA7 {
            Some(VarLenType::BigVarChar)
        } else if b == 0xAD {
            Some(VarLenType::BigBinary)
        } else if b == 0xAF {
            Some(VarLenType::BigChar)
        } else if b == 0xE7 {
            Some(VarLenType::NVarchar)
        } else if b == 0xEF {
            Some(VarLenType::NChar)
        } else if b == 0xF1 {
            Some(VarLenType::Xml)
        } else if b == 0xF0 {
            Some(VarLenType::Udt)
        } else if b == 0x23 {
            Some(VarLenType::Text)
        } else if b == 0x22 {
            Some(VarLenType::Image)
        } else if b == 0x63 {
            Some(VarLenType::NText)
        } else if b == 0x62 {
            Some(VarLenType::SSVariant)
        } else {
            None
        }
    }

    /// Reading a type's token gives the type back.
    pub proof fn law_token_roundtrip(self)
        ensures
            Self::spec_from_u8(self.spec_to_u8()) == Some(self),
    {
    }
}

/// The declared length that marks a `(max)` column, whose values travel as PLP.
pub const MAX_LEN: usize = 0xFFFF;

/// The metadata of a variable-length column: its type, declared length in
/// bytes, and collation.
#[derive(Debug, Clone, Copy, PartialEq, Eq, Structural)]
pub struct VarLenContext {
    pub ty: VarLenType,
    pub len: usize,
    pub collation: Option<Collation>,
}

impl VarLenContext {
    /// The metadata with these fields.
    pub fn new(ty: VarLenType, len: usize, collation: Option<Collation>) -> (c: Self)
        ensures
            c.ty == ty,
            c.len == len,
            c.collation == collation,
    {
        VarLenContext { ty, len, collation }
    }

    /// The column type.
    pub fn ty(&self) -> (ty: VarLenType)
        ensures
            ty == self.ty,
    {
        self.ty
    }

    /// The declared length in bytes.
    pub fn len(&self) -> (len: usize)
        ensures
            len == self.len,
    {
        self.len
    }

    /// The collation, for character columns.
    pub fn collation(&self) -> (collation: Option<Collation>)
        ensures
            collation == self.collation,
    {
        self.collation
    }

    /// Whether this is a `(max)` column.
    pub open spec fn is_max(self) -> bool {
        self.len == MAX_LEN
    }
}

/// The metadata of a column, as far as this library reads it.
#[derive(Debug, Clone, PartialEq, Eq)]
pub enum TypeInfo {
    VarLenSized(VarLenContext),
    Xml { schema: Option<String>, size: usize },
}

/// The character column of declared length 64 whose collation has locale
/// 0x804 and the sort ID `sort_id`.
pub fn type_info(ty: VarLenType, sort_id: u8) -> (info: TypeInfo)
    ensures
        info == TypeInfo::VarLenSized(VarLenContext {
            ty,
            len: 64,
            collation: Some(Collation { info: 0x804, sort_id }),
        }),
{
    TypeInfo::VarLenSized(VarLenContext::new(ty, 64, Some(Collation::new(0x804, sort_id))))
}

/// How a reader treats bytes that its code pages cannot decode.
#[derive(Debug, Clone, Copy, PartialEq, Eq, Structural)]
pub struct ReaderContext {
    /// Malformed bytes of code page data become U+FFFD in place of an error.
    pub lossy_codepage: bool,
    /// Unpaired surrogates of UTF-16 data become U+FFFD in place of an error.
    pub lossy_utf16: bool,
}

impl ReaderContext {
    /// The strict context: both flags off.
    pub fn new() -> (c: Self)
        ensures
            !c.lossy_codepage,
            !c.lossy_utf16,
    {
        ReaderContext { lossy_codepage: false, lossy_utf16: false }
    }

    /// Whether code page data is read lossily.
    pub fn lossy_codepage(&self) -> (b: bool)
        ensures
            b == self.lossy_codepage,
    {
        self.lossy_codepage
    }

    /// Whether UTF-16 data is read lossily.
    pub fn lossy_utf16(&self) -> (b: bool)
        ensures
            b == self.lossy_utf16,
    {
        self.lossy_utf16
    }

    /// Sets the code page flag; the UTF-16 flag stays.
    pub fn set_lossy_codepage(&mut self, lossy: bool)
        ensures
            final(self).lossy_codepage == lossy,
            final(self).lossy_utf16 == old(self).lossy_utf16,
    {
        self.lossy_codepage = lossy;
    }

    /// Sets the UTF-16 flag; the code page flag stays.
    pub fn set_lossy_utf16(&mut self, lossy: bool)
        ensures
            final(self).lossy_utf16 == lossy,
            final(self).lossy_codepage == old(self).lossy_codepage,
    {
        self.lossy_utf16 = lossy;
    }
}

/// A decoded value: character data (`None` for NULL), or an XML document.
#[derive(Debug, Clone, PartialEq, Eq)]
pub enum ColumnData {
    String(Option<String>),
    Xml(Option<String>),
}

/// The model of a decoded value.
pub enum ColumnValue {
    Text(Option<Seq<char>>),
    Xml(Option<Seq<char>>),
}

/// The model of an optional string.
pub open spec fn opt_view(s: Option<String>) -> Option<Seq<char>> {
    match s {
        Some(t) => Some(t@),
        None => None,
    }
}

impl View for ColumnData {
    type V = ColumnValue;

    open spec fn view(&self) -> ColumnValue {
        match self {
            ColumnData::String(s) => ColumnValue::Text(opt_view(*s)),
            ColumnData::Xml(s) => ColumnValue::Xml(opt_view(*s)),
        }
    }
}

/// The text of code page bytes under a column's collation.
pub open spec fn spec_chars(collation: Option<Collation>, bytes: Seq<u8>, lossy: bool) -> Result<Seq<char>, Error> {
    match collation {
        None => Err(Error::Encoding(MISSING_COLLATION)),
        Some(c) => match c.spec_codec() {
            None => Err(Error::Encoding(UNSUPPORTED_COLLATION)),
            Some(codec) => codec.spec_decode(bytes, lossy),
        },
    }
}

/// A character value from its frame: NULL stays NULL, a payload is decoded
/// under the collation.
pub open spec fn char_value(
    frame: Result<(Option<Seq<u8>>, int), Error>,
    collation: Option<Collation>,
    lossy: bool,
) -> Result<(ColumnValue, int), Error> {
    match frame {
        Err(e) => Err(e),
        Ok((None, n)) => Ok((ColumnValue::Text(None), n)),
        Ok((Some(bytes), n)) => match spec_chars(collation, bytes, lossy) {
            Ok(text) => Ok((ColumnValue::Text(Some(text)), n)),
            Err(e) => Err(e),
        },
    }
}

/// A Unicode value from its frame: NULL stays NULL, a payload is decoded as
/// UTF-16LE; `xml` tells which kind of value it makes.
pub open spec fn unicode_value(
    frame: Result<(Option<Seq<u8>>, int), Error>,
    lossy: bool,
    xml: bool,
) -> Result<(ColumnValue, int), Error> {
    match frame {
        Err(e) => Err(e),
        Ok((None, n)) => Ok((if xml { ColumnValue::Xml(None) } else { ColumnValue::Text(None) }, n)),
        Ok((Some(bytes), n)) => match spec_utf16_text(bytes, lossy) {
            Ok(text) => Ok((if xml { ColumnValue::Xml(Some(text)) } else { ColumnValue::Text(Some(text)) }, n)),
            Err(e) => Err(e),
        },
    }
}

/// The offset of the data in a character `sql_variant` value: the length,
/// the base type and property count, five bytes of collation, two of maximum
/// length.
pub open spec fn variant_data_start() -> int {
    13
}

/// A `sql_variant` value: a four-byte length (zero for NULL) of what
/// follows, the base type, the count of property bytes, the properties
/// (collation and maximum length for character types), the data.
pub open spec fn spec_variant(s: Seq<u8>, ctx: ReaderContext) -> Result<(ColumnValue, int), Error> {
    if s.len() < 4 {
        eof()
    } else if le_u32(s, 0) == 0 {
        Ok((ColumnValue::Text(None), 4))
    } else if s.len() < 4 + le_u32(s, 0) {
        eof()
    } else if le_u32(s, 0) < 2 {
        Err(Error::Protocol(MALFORMED_FRAME))
    } else {
        let total = le_u32(s, 0);
        let base = VarLenType::spec_from_u8(s[4]);
        if base == Some(VarLenType::BigChar) || base == Some(VarLenType::BigVarChar)
            || base == Some(VarLenType::NChar) || base == Some(VarLenType::NVarchar) {
            if s[5] != 7 || total < 9 {
                Err(Error::Protocol(MALFORMED_FRAME))
            } else {
                let data = s.subrange(variant_data_start(), 4 + total);
                let frame = Ok((Some(data), 4 + total));
                if base == Some(VarLenType::BigChar) || base == Some(VarLenType::BigVarChar) {
                    let collation = Collation { info: le_u32(s, 6) as u32, sort_id: s[10] };
                    char_value(frame, Some(collation), ctx.lossy_codepage)
                } else {
                    unicode_value(frame, ctx.lossy_utf16, false)
                }
            }
        } else {
            Err(Error::Protocol(UNSUPPORTED_VARIANT))
        }
    }
}

/// Decoding a column value at the start of `s`: the value and the number of
/// bytes it takes.
pub open spec fn spec_decode_value(s: Seq<u8>, ti: TypeInfo, ctx: ReaderContext) -> Result<(ColumnValue, int), Error> {
    match ti {
        TypeInfo::VarLenSized(vlc) => match vlc.ty {
            VarLenType::BigChar | VarLenType::BigVarChar => char_value(
                if vlc.is_max() { spec_plp_frame(s) } else { spec_short_frame(s) },
                vlc.collation,
                ctx.lossy_codepage,
            ),
            VarLenType::Text => char_value(spec_text_frame(s), vlc.collation, ctx.lossy_codepage),
            VarLenType::NChar | VarLenType::NVarchar => unicode_value(
                if vlc.is_max() { spec_plp_frame(s) } else { spec_short_frame(s) },
                ctx.lossy_utf16,
                false,
            ),
            VarLenType::NText => unicode_value(spec_text_frame(s), ctx.lossy_utf16, false),
            VarLenType::SSVariant => spec_variant(s, ctx),
            _ => Err(Error::Protocol(UNSUPPORTED_TYPE)),
        },
        TypeInfo::Xml { .. } => unicode_value(spec_plp_frame(s), ctx.lossy_utf16, true),
    }
}

/// Decodes code page bytes under a column's collation; see `spec_chars`.
pub fn decode_chars(collation: Option<Collation>, bytes: &[u8], lossy: bool) -> (r: Result<String, Error>)
    requires
        bytes@.len() <= max_converted_len(),
    ensures
        match r {
            Ok(text) => spec_chars(collation, bytes@, lossy) == Ok::<Seq<char>, Error>(text@),
            Err(e) => spec_chars(collation, bytes@, lossy) == Err::<Seq<char>, Error>(e),
        },
{
    match collation {
        None => Err(Error::Encoding(MISSING_COLLATION)),
        Some(c) => match c.codec() {
            Err(e) => Err(e),
            Ok(codec) => codec.decode_with(bytes, lossy),
        },
    }
}

/// The model of a decoding result.
pub open spec fn decoded_view(r: Result<(ColumnData, usize), Error>) -> Result<(ColumnValue, int), Error> {
    match r {
        Ok((v, n)) => Ok((v@, n as int)),
        Err(e) => Err(e),
    }
}

/// A character value from its frame; see `char_value`.
fn char_from_frame(
    frame: Result<(Option<Vec<u8>>, usize), Error>,
    collation: Option<Collation>,
    lossy: bool,
) -> (r: Result<(ColumnData, usize), Error>)
    requires
        frame matches Ok((Some(d), _)) ==> d@.len() <= max_converted_len(),
    ensures
        decoded_view(r) == char_value(frame_view(frame), collation, lossy),
{
    match frame {
        Err(e) => Err(e),
        Ok((None, n)) => Ok((ColumnData::String(None), n)),
        Ok((Some(bytes), n)) => match decode_chars(collation, bytes.as_slice(), lossy) {
            Ok(text) => Ok((ColumnData::String(Some(text)), n)),
            Err(e) => Err(e),
        },
    }
}

/// A Unicode value from its frame; see `unicode_value`.
fn unicode_from_frame(
    frame: Result<(Option<Vec<u8>>, usize), Error>,
    lossy: bool,
    xml: bool,
) -> (r: Result<(ColumnData, usize), Error>)
    ensures
        decoded_view(r) == unicode_value(frame_view(frame), lossy, xml),
{
    match frame {
        Err(e) => Err(e),
        Ok((None, n)) => Ok((if xml { ColumnData::Xml(None) } else { ColumnData::String(None) }, n)),
        Ok((Some(bytes), n)) => match decode_utf16(bytes.as_slice(), lossy) {
            Ok(text) => Ok((if xml { ColumnData::Xml(Some(text)) } else { ColumnData::String(Some(text)) }, n)),
            Err(e) => Err(e),
        },
    }
}

/// Decodes a `sql_variant` value; see `spec_variant`.
fn decode_variant(s: &[u8], ctx: ReaderContext) -> (r: Result<(ColumnData, usize), Error>)
    requires
        s@.len() <= max_converted_len(),
    ensures
        decoded_view(r) == spec_variant(s@, ctx),
{
    let len = s.len();
    if len < 4 {
        return Err(Error::Io(UNEXPECTED_EOF));
    }
    let total = read_u32(s, 0);
    if total == 0 {
        return Ok((ColumnData::String(None), 4));
    }
    if len - 4 < total as usize {
        return Err(Error::Io(UNEXPECTED_EOF));
    }
    if total < 2 {
        return Err(Error::Protocol(MALFORMED_FRAME));
    }
    let end: usize = 4 + total as usize;
    let base = VarLenType::from_u8(s[4]);
    let is_char = match base {
        Some(VarLenType::BigChar) | Some(VarLenType::BigVarChar) => true,
        _ => false,
    };
    let is_unicode = match base {
        Some(VarLenType::NChar) | Some(VarLenType::NVarchar) => true,
        _ => false,
    };
    if !is_char && !is_unicode {
        return Err(Error::Protocol(UNSUPPORTED_VARIANT));
    }
    if s[5] != 7 || total < 9 {
        return Err(Error::Protocol(MALFORMED_FRAME));
    }
    let mut data: Vec<u8> = Vec::new();
    crate::wire::append_range(&mut data, s, 13, end);
    assert(data@ =~= s@.subrange(variant_data_start(), end as int));
    let frame: Result<(Option<Vec<u8>>, usize), Error> = Ok((Some(data), end));
    if is_char {
        let collation = Collation::new(read_u32(s, 6), s[10]);
        char_from_frame(frame, Some(collation), ctx.lossy_codepage)
    } else {
        unicode_from_frame(frame, ctx.lossy_utf16, false)
    }
}

/// Decodes the column value at the start of `s`; see `spec_decode_value`.
pub fn decode_value(s: &[u8], ti: &TypeInfo, ctx: ReaderContext) -> (r: Result<(ColumnData, usize), Error>)
    requires
        s@.len() <= max_converted_len(),
    ensures
        decoded_view(r) == spec_decode_value(s@, *ti, ctx),
{
    proof {
        lemma_frame_bounds(s@);
    }
    match ti {
        TypeInfo::VarLenSized(vlc) => match vlc.ty {
            VarLenType::BigChar | VarLenType::BigVarChar => {
                let frame = if vlc.len == MAX_LEN {
                    read_plp_frame(s)
                } else {
                    read_short_frame(s)
                };
                char_from_frame(frame, vlc.collation, ctx.lossy_codepage)
            },
            VarLenType::Text => char_from_frame(read_text_frame(s), vlc.collation, ctx.lossy_codepage),
            VarLenType::NChar | VarLenType::NVarchar => {
                let frame = if vlc.len == MAX_LEN {
                    read_plp_frame(s)
                } else {
                    read_short_frame(s)
                };
                unicode_from_frame(frame, ctx.lossy_utf16, false)
            },
            VarLenType::NText => unicode_from_frame(read_text_frame(s), ctx.lossy_utf16, false),
            VarLenType::SSVariant => decode_variant(s, ctx),
            _ => Err(Error::Protocol(UNSUPPORTED_TYPE)),
        },
        TypeInfo::Xml { .. } => unicode_from_frame(read_plp_frame(s), ctx.lossy_utf16, true),
    }
}

/// A decoded value takes no more bytes than the input holds.
pub proof fn lemma_decode_bounds(s: Seq<u8>, ti: TypeInfo, ctx: ReaderContext)
    ensures
        spec_decode_value(s, ti, ctx) matches Ok((_, n)) ==> 0 <= n <= s.len(),
{
    lemma_frame_bounds(s);
}

/// Received bytes and how many of them have been read.
struct Cursor {
    buf: Vec<u8>,
    pos: usize,
}

impl Cursor {
    #[verifier::type_invariant]
    spec fn inv(self) -> bool {
        self.pos <= self.buf@.len() <= max_converted_len()
    }

    /// Moves past `n` more bytes.
    fn advance(&mut self, n: usize)
        requires
            old(self).pos + n <= old(self).buf@.len(),
        ensures
            final(self).buf@ == old(self).buf@,
            final(self).pos == old(self).pos + n,
    {
        proof {
            use_type_invariant(&*self);
        }
        self.pos = self.pos + n;
    }
}

/// A buffer of received bytes, read value by value from the front.
pub struct ByteReader {
    cursor: Cursor,
    context: ReaderContext,
}

impl ByteReader {
    /// All the bytes the reader holds, read or not.
    pub closed spec fn buffer(&self) -> Seq<u8> {
        self.cursor.buf@
    }

    /// How many bytes have been read.
    pub closed spec fn offset(&self) -> int {
        self.cursor.pos as int
    }

    /// How the reader treats undecodable bytes.
    pub closed spec fn ctx(&self) -> ReaderContext {
        self.context
    }

    /// The bytes not yet read.
    pub open spec fn unread(&self) -> Seq<u8> {
        self.buffer().skip(self.offset())
    }

    /// A reader at the start of `buf`, in the strict context.
    pub fn new(buf: Vec<u8>) -> (r: Self)
        requires
            buf@.len() <= max_converted_len(),
        ensures
            r.buffer() == buf@,
            r.offset() == 0,
            !r.ctx().lossy_codepage,
            !r.ctx().lossy_utf16,
    {
        ByteReader { cursor: Cursor { buf, pos: 0 }, context: ReaderContext::new() }
    }

    /// How many bytes have been read.
    pub fn position(&self) -> (pos: usize)
        ensures
            pos == self.offset(),
    {
        self.cursor.pos
    }

    /// How the reader treats undecodable bytes.
    pub fn context(&self) -> (ctx: &ReaderContext)
        ensures
            *ctx == self.ctx(),
    {
        &self.context
    }

    /// The reader's context, to change it; the bytes and the position stay.
    pub fn context_mut(&mut self) -> (ctx: &mut ReaderContext)
        ensures
            *ctx == old(self).ctx(),
            final(self).ctx() == *final(ctx),
            final(self).buffer() == old(self).buffer(),
            final(self).offset() == old(self).offset(),
    {
        &mut self.context
    }
}

impl ColumnData {
    /// Decodes the next value of the reader. On success the reader moves past
    /// the value; on an error it stays where it was.
    pub fn decode(reader: &mut ByteReader, ti: &TypeInfo) -> (r: Result<ColumnData, Error>)
        ensures
            final(reader).buffer() == old(reader).buffer(),
            final(reader).ctx() == old(reader).ctx(),
            match spec_decode_value(old(reader).unread(), *ti, old(reader).ctx()) {
                Ok((v, n)) => r matches Ok(d) && d@ == v && final(reader).offset() == old(reader).offset() + n,
                Err(e) => r == Err::<ColumnData, Error>(e) && final(reader).offset() == old(reader).offset(),
            },
    {
        proof {
            use_type_invariant(&reader.cursor);
        }
        let len = reader.cursor.buf.len();
        let pos = reader.cursor.pos;
        let rest = vstd::slice::slice_subrange(reader.cursor.buf.as_slice(), pos, len);
        assert(rest@ =~= reader.cursor.buf@.skip(pos as int));
        match decode_value(rest, ti, reader.context) {
            Ok((value, n)) => {
                proof {
                    lemma_decode_bounds(rest@, *ti, reader.context);
                }
                reader.cursor.advance(n);
                Ok(value)
            },
            Err(e) => Err(e),
        }
    }
}

/// The code page bytes of a text under a column's collation.
pub open spec fn spec_char_bytes(collation: Option<Collation>, text: Seq<char>) -> Result<Seq<u8>, Error> {
    match collation {
        None => Err(Error::Encoding(MISSING_COLLATION)),
        Some(c) => match c.spec_codec() {
            None => Err(Error::Encoding(UNSUPPORTED_COLLATION)),
            Some(codec) => codec.spec_encode(text),
        },
    }
}

/// Encoded data framed for its column: the TEXT layout where `text_layout`,
/// PLP for a `(max)` column, else a two-byte length prefix; data longer than
/// the declared length (or than the frame can say) is refused.
pub open spec fn framed(vlc: VarLenContext, data: Seq<u8>, text_layout: bool) -> Result<Seq<u8>, Error> {
    if text_layout {
        if data.len() > 0xFFFF_FFFF {
            Err(Error::BulkInput(VALUE_TOO_LONG))
        } else {
            Ok(text_bytes(data))
        }
    } else if vlc.is_max() {
        if data.len() > 0xFFFF_FFFF {
            Err(Error::BulkInput(VALUE_TOO_LONG))
        } else {
            Ok(plp_bytes(data))
        }
    } else if data.len() > vlc.len || data.len() >= 0xFFFF {
        Err(Error::BulkInput(VALUE_TOO_LONG))
    } else {
        Ok(short_bytes(data))
    }
}

/// The bytes of a NULL in a column of this type.
pub open spec fn null_bytes(vlc: VarLenContext) -> Result<Seq<u8>, Error> {
    match vlc.ty {
        VarLenType::BigChar | VarLenType::BigVarChar | VarLenType::NChar | VarLenType::NVarchar => Ok(
            if vlc.is_max() {
                le_bytes64(0xFFFF_FFFF_FFFF_FFFF)
            } else {
                le_bytes16(0xFFFF)
            },
        ),
        VarLenType::Text | VarLenType::NText => Ok(seq![0u8]),
        _ => Err(Error::Conversion(UNSUPPORTED_TYPE)),
    }
}

/// Encoding a value for bulk insertion into a column of type `ti`.
pub open spec fn spec_encode_value(value: ColumnValue, ti: TypeInfo) -> Result<Seq<u8>, Error> {
    match ti {
        TypeInfo::VarLenSized(vlc) => match value {
            ColumnValue::Text(None) => null_bytes(vlc),
            ColumnValue::Text(Some(text)) => match vlc.ty {
                VarLenType::BigChar | VarLenType::BigVarChar | VarLenType::Text => match spec_char_bytes(vlc.collation, text) {
                    Ok(data) => framed(vlc, data, vlc.ty == VarLenType::Text),
                    Err(e) => Err(e),
                },
                VarLenType::NChar | VarLenType::NVarchar | VarLenType::NText => framed(
                    vlc,
                    spec_utf16_bytes(text),
                    vlc.ty == VarLenType::NText,
                ),
                _ => Err(Error::Conversion(UNSUPPORTED_TYPE)),
            },
            ColumnValue::Xml(_) => Err(Error::Conversion(UNSUPPORTED_TYPE)),
        },
        TypeInfo::Xml { .. } => Err(Error::Conversion(UNSUPPORTED_TYPE)),
    }
}

/// Encodes a text in a column's code page; see `spec_char_bytes`.
pub fn encode_chars(collation: Option<Collation>, text: &str) -> (r: Result<Vec<u8>, Error>)
    requires
        text@.len() <= max_converted_len(),
    ensures
        match r {
            Ok(bytes) => spec_char_bytes(collation, text@) == Ok::<Seq<u8>, Error>(bytes@),
            Err(e) => spec_char_bytes(collation, text@) == Err::<Seq<u8>, Error>(e),
        },
{
    match collation {
        None => Err(Error::Encoding(MISSING_COLLATION)),
        Some(c) => match c.codec() {
            Err(e) => Err(e),
            Ok(codec) => codec.encode(text),
        },
    }
}

/// Appends framed data; see `framed`.
fn push_framed(dst: &mut Vec<u8>, vlc: VarLenContext, data: &[u8], text_layout: bool) -> (r: Result<(), Error>)
    ensures
        match framed(vlc, data@, text_layout) {
            Ok(bytes) => r is Ok && final(dst)@ == old(dst)@ + bytes,
            Err(e) => r == Err::<(), Error>(e) && final(dst)@ == old(dst)@,
        },
{
    let n = data.len();
    if text_layout {
        if n > 0xFFFF_FFFF {
            return Err(Error::BulkInput(VALUE_TOO_LONG));
        }
        push_text_frame(dst, data);
        Ok(())
    } else if vlc.len == MAX_LEN {
        if n > 0xFFFF_FFFF {
            return Err(Error::BulkInput(VALUE_TOO_LONG));
        }
        push_plp_frame(dst, data);
        Ok(())
    } else if n > vlc.len || n >= 0xFFFF {
        Err(Error::BulkInput(VALUE_TOO_LONG))
    } else {
        push_short_frame(dst, data);
        Ok(())
    }
}

impl ColumnData {
    /// Encodes the value for bulk insertion into a column of type `ti`,
    /// appending the bytes to `dst`; on an error `dst` stays as it was.
    pub fn encode(&self, dst: &mut Vec<u8>, ti: &TypeInfo) -> (r: Result<(), Error>)
        requires
            self matches ColumnData::String(Some(t)) ==> t@.len() <= max_converted_len(),
        ensures
            match spec_encode_value(self@, *ti) {
                Ok(bytes) => r is Ok && final(dst)@ == old(dst)@ + bytes,
                Err(e) => r == Err::<(), Error>(e) && final(dst)@ == old(dst)@,
            },
    {
        match ti {
            TypeInfo::VarLenSized(vlc) => match self {
                ColumnData::String(None) => match vlc.ty {
                    VarLenType::BigChar | VarLenType::BigVarChar | VarLenType::NChar
                    | VarLenType::NVarchar => {
                        if vlc.len == MAX_LEN {
                            push_u64(dst, 0xFFFF_FFFF_FFFF_FFFF);
                        } else {
                            push_u16(dst, 0xFFFF);
                        }
                        Ok(())
                    },
                    VarLenType::Text | VarLenType::NText => {
                        dst.push(0u8);
                        Ok(())
                    },
                    _ => Err(Error::Conversion(UNSUPPORTED_TYPE)),
                },
                ColumnData::String(Some(text)) => match vlc.ty {
                    VarLenType::BigChar | VarLenType::BigVarChar | VarLenType::Text => {
                        match encode_chars(vlc.collation, text.as_str()) {
                            Ok(data) => push_framed(dst, *vlc, data.as_slice(), vlc.ty == VarLenType::Text),
                            Err(e) => Err(e),
                        }
                    },
                    VarLenType::NChar | VarLenType::NVarchar | VarLenType::NText => {
                        let data = encode_utf16(text.as_str());
                        push_framed(dst, *vlc, data.as_slice(), vlc.ty == VarLenType::NText)
                    },
                    _ => Err(Error::Conversion(UNSUPPORTED_TYPE)),
                },
                ColumnData::Xml(_) => Err(Error::Conversion(UNSUPPORTED_TYPE)),
            },
            TypeInfo::Xml { .. } => Err(Error::Conversion(UNSUPPORTED_TYPE)),
        }
    }
}

/// The wire form of a payload in a column of type `ty`: the TEXT layout
/// (a one-byte text pointer, an eight-byte timestamp, a four-byte length)
/// for TEXT and NTEXT, a two-byte length prefix otherwise. Lengths are taken
/// modulo the width of their field.
pub open spec fn spec_frame(ty: VarLenType, payload: Seq<u8>) -> Seq<u8> {
    if ty == VarLenType::Text || ty == VarLenType::NText {
        seq![1u8, 0u8] + le_bytes64(0) + le_bytes32((payload.len() % 0x1_0000_0000) as int) + payload
    } else {
        le_bytes16((payload.len() % 0x1_0000) as int) + payload
    }
}

/// Like `spec_frame`, but only TEXT gets the TEXT layout.
pub open spec fn spec_wire_value(ty: VarLenType, payload: Seq<u8>) -> Seq<u8> {
    if ty == VarLenType::Text {
        spec_frame(ty, payload)
    } else {
        le_bytes16((payload.len() % 0x1_0000) as int) + payload
    }
}

/// Appends the wire form of a payload in its chosen layout.
fn push_payload_layout(wire: &mut Vec<u8>, text_layout: bool, payload: &[u8])
    ensures
        final(wire)@ == old(wire)@ + (if text_layout {
            seq![1u8, 0u8] + le_bytes64(0) + le_bytes32((payload@.len() % 0x1_0000_0000) as int) + payload@
        } else {
            le_bytes16((payload@.len() % 0x1_0000) as int) + payload@
        }),
{
    let ghost start = wire@;
    let n = payload.len();
    if text_layout {
        wire.push(1u8);
        wire.push(0u8);
        push_u64(wire, 0);
        push_u32(wire, (n as u64 % 0x1_0000_0000) as u32);
    } else {
        push_u16(wire, (n % 0x1_0000) as u16);
    }
    append_range(wire, payload, 0, n);
    assert(payload@.subrange(0, n as int) =~= payload@);
    assert(final(wire)@ =~= start + (if text_layout {
        seq![1u8, 0u8] + le_bytes64(0) + le_bytes32((payload@.len() % 0x1_0000_0000) as int) + payload@
    } else {
        le_bytes16((payload@.len() % 0x1_0000) as int) + payload@
    }));
}

/// The wire form of a payload in a column of type `ty`; see `spec_frame`.
pub fn frame(ty: VarLenType, payload: &[u8]) -> (wire: Vec<u8>)
    ensures
        wire@ == spec_frame(ty, payload@),
{
    let mut wire: Vec<u8> = Vec::new();
    let text_layout = match ty {
        VarLenType::Text | VarLenType::NText => true,
        _ => false,
    };
    push_payload_layout(&mut wire, text_layout, payload);
    assert(wire@ =~= spec_frame(ty, payload@));
    wire
}

/// The wire form of a payload in a column of type `ty`; see `spec_wire_value`.
pub fn wire_value(ty: VarLenType, payload: &[u8]) -> (wire: Vec<u8>)
    ensures
        wire@ == spec_wire_value(ty, payload@),
{
    let mut wire: Vec<u8> = Vec::new();
    push_payload_layout(&mut wire, ty == VarLenType::Text, payload);
    assert(wire@ =~= spec_wire_value(ty, payload@));
    wire
}

} // verus!
