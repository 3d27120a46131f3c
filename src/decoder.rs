use vstd::prelude::*;

use vstd::utf8::{decode_utf8, decode_utf8_encode_utf8, encode_utf8, valid_utf8};

use crate::names::{FieldName, TableName};
use crate::schema::{is_numeric_type, is_passthrough_type, ColumnType, VitessSchema};

verus! {

#[verifier::external_type_specification]
#[verifier::external_body]
pub struct ExFromUtf8Error(std::string::FromUtf8Error);

#[verifier::external_type_specification]
#[verifier::external_body]
pub struct ExJsonError(serde_json::Error);

/// One row as the change stream encodes it: the columns' bytes one after the
/// other, and one length per column, where -1 marks a null column.
#[derive(Debug, Clone)]
pub struct Row {
    pub lengths: Vec<i64>,
    pub values: Vec<u8>,
}

/// A typed column value of an output record.
#[derive(Debug, Clone, PartialEq, Eq)]
pub enum FieldValue {
    Null,
    Text(String),
    /// A JSON number, held as its canonical text.
    Number(String),
}

/// A column whose declared type has no conversion to a value.
#[derive(Debug, Clone)]
pub struct UnimplementedConversionError {
    pub column_type: ColumnType,
}

impl UnimplementedConversionError {
    /// Message naming the column type that has no conversion.
    /// The error's message, naming the column type.
    pub fn message(&self) -> (r: String)
        ensures
            r@ == "json conversion not implemented for mysql type `"@ + column_type_text(self.column_type) + "`"@,
    {
        let mut s = String::from_str("json conversion not implemented for mysql type `");
        s.append(column_type_name(self.column_type));
        s.append("`");
        s
    }
}

/// Name of a column type, as the type is written in the metadata service's schema.
pub open spec fn column_type_text(t: ColumnType) -> Seq<char> {
    match t {
        ColumnType::NullType => "NullType"@,
        ColumnType::Int8 => "Int8"@,
        ColumnType::Uint8 => "Uint8"@,
        ColumnType::Int16 => "Int16"@,
        ColumnType::Uint16 => "Uint16"@,
        ColumnType::Int24 => "Int24"@,
        ColumnType::Uint24 => "Uint24"@,
        ColumnType::Int32 => "Int32"@,
        ColumnType::Uint32 => "Uint32"@,
        ColumnType::Int64 => "Int64"@,
        ColumnType::Uint64 => "Uint64"@,
        ColumnType::Float32 => "Float32"@,
        ColumnType::Float64 => "Float64"@,
        ColumnType::Timestamp => "Timestamp"@,
        ColumnType::Date => "Date"@,
        ColumnType::Time => "Time"@,
        ColumnType::Datetime => "Datetime"@,
        ColumnType::Year => "Year"@,
        ColumnType::Decimal => "Decimal"@,
        ColumnType::Text => "Text"@,
        ColumnType::Blob => "Blob"@,
        ColumnType::Varchar => "Varchar"@,
        ColumnType::Varbinary => "Varbinary"@,
        ColumnType::Char => "Char"@,
        ColumnType::Binary => "Binary"@,
        ColumnType::Bit => "Bit"@,
        ColumnType::EnumType => "Enum"@,
        ColumnType::SetType => "Set"@,
        ColumnType::Tuple => "Tuple"@,
        ColumnType::Geometry => "Geometry"@,
        ColumnType::Json => "Json"@,
        ColumnType::Expression => "Expression"@,
        ColumnType::Hexnum => "Hexnum"@,
        ColumnType::Hexval => "Hexval"@,
        ColumnType::Bitnum => "Bitnum"@,
        ColumnType::Vector => "Vector"@,
        ColumnType::Raw => "Raw"@,
        ColumnType::Unknown(_) => "Unknown"@,
    }
}

/// Name of a column type, as the type is written in the metadata service's schema.
pub fn column_type_name(t: ColumnType) -> (r: &'static str)
    ensures
        r@ == column_type_text(t),
{
    match t {
        ColumnType::NullType => "NullType",
        ColumnType::Int8 => "Int8",
        ColumnType::Uint8 => "Uint8",
        ColumnType::Int16 => "Int16",
        ColumnType::Uint16 => "Uint16",
        ColumnType::Int24 => "Int24",
        ColumnType::Uint24 => "Uint24",
        ColumnType::Int32 => "Int32",
        ColumnType::Uint32 => "Uint32",
        ColumnType::Int64 => "Int64",
        ColumnType::Uint64 => "Uint64",
        ColumnType::Float32 => "Float32",
        ColumnType::Float64 => "Float64",
        ColumnType::Timestamp => "Timestamp",
        ColumnType::Date => "Date",
        ColumnType::Time => "Time",
        ColumnType::Datetime => "Datetime",
        ColumnType::Year => "Year",
        ColumnType::Decimal => "Decimal",
        ColumnType::Text => "Text",
        ColumnType::Blob => "Blob",
        ColumnType::Varchar => "Varchar",
        ColumnType::Varbinary => "Varbinary",
        ColumnType::Char => "Char",
        ColumnType::Binary => "Binary",
        ColumnType::Bit => "Bit",
        ColumnType::EnumType => "Enum",
        ColumnType::SetType => "Set",
        ColumnType::Tuple => "Tuple",
        ColumnType::Geometry => "Geometry",
        ColumnType::Json => "Json",
        ColumnType::Expression => "Expression",
        ColumnType::Hexnum => "Hexnum",
        ColumnType::Hexval => "Hexval",
        ColumnType::Bitnum => "Bitnum",
        ColumnType::Vector => "Vector",
        ColumnType::Raw => "Raw",
        ColumnType::Unknown(_) => "Unknown",
    }
}

/// Failure to decode or convert one row of a table.
#[derive(Debug)]
pub struct DeserializeRowError {
    pub table: TableName,
    pub kind: DeserializeRowErrorKind,
}

#[derive(Debug)]
pub enum DeserializeRowErrorKind {
    /// The row has not one length per column of the schema.
    ColumnCountMismatch { columns: usize, lengths: usize },
    /// A length below -1.
    InvalidLength { column_number: usize, column_name: FieldName, length: i64 },
    /// The non-null lengths do not add up to the size of the byte buffer.
    ByteCountMismatch { bytes: usize },
    StringFromBytesFailed {
        column_number: usize,
        column_name: FieldName,
        source: std::string::FromUtf8Error,
    },
    SerdeJsonParseFailed {
        column_number: usize,
        column_name: FieldName,
        source: serde_json::Error,
    },
    UnimplementedConversion {
        column_number: usize,
        column_name: FieldName,
        source: UnimplementedConversionError,
    },
}

impl DeserializeRowError {
    /// The error's message, naming the table.
    pub fn message(&self) -> (r: String)
        ensures
            r@ == "error deserializing row for table `"@ + self.table@ + "`"@,
    {
        let mut s = String::from_str("error deserializing row for table `");
        s.append(self.table.as_str());
        s.append("`");
        s
    }
}

/// The canonical text of the JSON number that a text parses to, or `None`
/// where the text is not a JSON number.
pub uninterp spec fn json_number_text(text: Seq<char>) -> Option<Seq<char>>;

pub open spec fn all_ascii(bytes: Seq<u8>) -> bool {
    forall|i: int| 0 <= i < bytes.len() ==> bytes[i] < 128
}

pub open spec fn ascii_chars(bytes: Seq<u8>) -> Seq<char> {
    bytes.map_values(|b: u8| b as char)
}

/// ASCII bytes are valid UTF-8, each byte encoding the same character.
pub proof fn lemma_ascii_utf8(bytes: Seq<u8>)
    requires
        all_ascii(bytes),
    ensures
        valid_utf8(bytes),
        decode_utf8(bytes) == ascii_chars(bytes),
    decreases bytes.len(),
{
    if bytes.len() > 0 {
        let b = bytes[0];
        let rest = bytes.subrange(1, bytes.len() as int);
        assert(b & 0x7f == b) by (bit_vector)
            requires
                b < 128,
        ;
        assert(vstd::utf8::pop_first_scalar(bytes) =~= rest);
        lemma_ascii_utf8(rest);
        assert(decode_utf8(bytes) =~= ascii_chars(bytes));
    }
}

pub open spec fn is_digit(c: char) -> bool {
    '0' <= c && c <= '9'
}

/// A JSON number starts with a minus sign or a digit.
pub open spec fn may_start_number(s: Seq<char>) -> bool {
    s.len() > 0 && (s[0] == '-' || is_digit(s[0]))
}

/// Decimal digits of an unsigned integer below 10^19, without leading zeros.
pub open spec fn is_canonical_small_unsigned(s: Seq<char>) -> bool {
    &&& 0 < s.len() <= 19
    &&& forall|i: int| 0 <= i < s.len() ==> is_digit(#[trigger] s[i])
    &&& (s[0] == '0' ==> s.len() == 1)
}

/// The text that UTF-8 decoding gives for a byte sequence, or `None` where the
/// bytes are not valid UTF-8.
pub open spec fn utf8_text(bytes: Seq<u8>) -> Option<Seq<char>> {
    if valid_utf8(bytes) {
        Some(decode_utf8(bytes))
    } else {
        None
    }
}

/// Relies on `String::from_utf8`: it succeeds exactly on valid UTF-8, and the
/// string holds the characters that the bytes encode.
#[verifier::external_body]
fn string_from_utf8(bytes: Vec<u8>) -> (r: Result<String, std::string::FromUtf8Error>)
    ensures
        r is Ok <==> valid_utf8(bytes@),
        r is Ok ==> r->Ok_0@ == decode_utf8(bytes@),
{
    String::from_utf8(bytes)
}

/// Relies on serde_json's `Number::from_str`, and on `Number`'s `Display` for
/// the canonical text of the parsed number. The parse fails on an empty text
/// and on one that starts with neither `-` nor a digit; an integer that fits
/// in a `u64`, written without leading zeros, is kept as the same digits.
#[verifier::external_body]
fn parse_json_number(text: &str) -> (r: Result<String, serde_json::Error>)
    ensures
        match r {
            Ok(t) => json_number_text(text@) == Some(t@),
            Err(_) => json_number_text(text@) is None,
        },
        !may_start_number(text@) ==> r is Err,
        is_canonical_small_unsigned(text@) ==> (r is Ok && r->Ok_0@ == text@),
{
    match <serde_json::Number as std::str::FromStr>::from_str(text) {
        Ok(n) => Ok(n.to_string()),
        Err(e) => Err(e),
    }
}

/// Bytes a column takes: the null marker counts for nothing.
pub open spec fn nonneg(len: i64) -> int {
    if len >= 0 {
        len as int
    } else {
        0
    }
}

/// Total of the non-null lengths.
pub open spec fn len_sum(lengths: Seq<i64>) -> int
    decreases lengths.len(),
{
    if lengths.len() == 0 {
        0
    } else {
        len_sum(lengths.drop_last()) + nonneg(lengths.last())
    }
}

/// Where column `i` starts in the byte buffer.
pub open spec fn column_offset(lengths: Seq<i64>, i: int) -> int {
    len_sum(lengths.take(i))
}

pub open spec fn column_bytes(lengths: Seq<i64>, values: Seq<u8>, i: int) -> Seq<u8> {
    values.subrange(column_offset(lengths, i), column_offset(lengths, i) + lengths[i])
}

pub open spec fn lengths_valid(lengths: Seq<i64>) -> bool {
    forall|i: int| 0 <= i < lengths.len() ==> lengths[i] >= -1
}

/// One length per column, none below -1, and the non-null lengths add up to
/// the size of the buffer.
pub open spec fn row_well_formed(lengths: Seq<i64>, values: Seq<u8>, columns: int) -> bool {
    &&& lengths.len() == columns
    &&& lengths_valid(lengths)
    &&& len_sum(lengths) == values.len()
}

/// Text of column `i`: `Some(None)` for null, `Some(Some(t))` for text `t`,
/// `None` where its bytes are not UTF-8.
pub open spec fn column_text(lengths: Seq<i64>, values: Seq<u8>, i: int) -> Option<Option<Seq<char>>> {
    if lengths[i] < 0 {
        Some(None)
    } else {
        match utf8_text(column_bytes(lengths, values, i)) {
            Some(t) => Some(Some(t)),
            None => None,
        }
    }
}

pub open spec fn opt_text(o: Option<String>) -> Option<Seq<char>> {
    match o {
        Some(s) => Some(s@),
        None => None,
    }
}

pub open spec fn schema_column_name(schema: VitessSchema, i: int) -> Seq<char> {
    schema.schema@[i].0@
}

/// What decoding `row` against `schema` gives: the text of every column, or
/// the first fault found (column count, then lengths, then buffer size, then
/// the first column whose bytes are not UTF-8).
pub open spec fn decode_outcome(
    row: Row,
    schema: VitessSchema,
    r: Result<Vec<Option<String>>, DeserializeRowError>,
) -> bool {
    let n = schema.schema@.len() as int;
    let l = row.lengths@;
    let v = row.values@;
    match r {
        Ok(vals) => {
            &&& row_well_formed(l, v, n)
            &&& vals@.len() == n
            &&& forall|i: int| 0 <= i < n ==> column_text(l, v, i) == Some(#[trigger] opt_text(vals@[i]))
        },
        Err(e) => {
            &&& e.table@ == schema.table@
            &&& match e.kind {
                DeserializeRowErrorKind::ColumnCountMismatch { columns, lengths } => {
                    columns == n && lengths == l.len() && l.len() != n
                },
                DeserializeRowErrorKind::InvalidLength { column_number, column_name, length } => {
                    &&& l.len() == n
                    &&& column_number < n
                    &&& length == l[column_number as int]
                    &&& length < -1
                    &&& forall|j: int| 0 <= j < column_number ==> l[j] >= -1
                    &&& column_name@ == schema_column_name(schema, column_number as int)
                },
                DeserializeRowErrorKind::ByteCountMismatch { bytes } => {
                    &&& l.len() == n
                    &&& lengths_valid(l)
                    &&& len_sum(l) != v.len()
                    &&& bytes == v.len()
                },
                DeserializeRowErrorKind::StringFromBytesFailed { column_number, column_name, .. } => {
                    &&& row_well_formed(l, v, n)
                    &&& column_number < n
                    &&& column_text(l, v, column_number as int) is None
                    &&& forall|j: int| 0 <= j < column_number ==> (#[trigger] column_text(l, v, j)) is Some
                    &&& column_name@ == schema_column_name(schema, column_number as int)
                },
                _ => false,
            }
        },
    }
}

proof fn lemma_len_sum_nonneg(l: Seq<i64>)
    ensures
        len_sum(l) >= 0,
    decreases l.len(),
{
    if l.len() > 0 {
        lemma_len_sum_nonneg(l.drop_last());
    }
}

proof fn lemma_len_sum_step(l: Seq<i64>, i: int)
    requires
        0 <= i < l.len(),
    ensures
        len_sum(l.take(i + 1)) == len_sum(l.take(i)) + nonneg(l[i]),
{
    assert(l.take(i + 1).drop_last() =~= l.take(i));
}

/// A prefix never takes more bytes than a longer prefix.
proof fn lemma_len_sum_prefix(l: Seq<i64>, i: int, j: int)
    requires
        0 <= i <= j <= l.len(),
    ensures
        len_sum(l.take(i)) <= len_sum(l.take(j)),
    decreases j - i,
{
    if i < j {
        lemma_len_sum_step(l, j - 1);
        lemma_len_sum_prefix(l, i, j - 1);
    }
}

proof fn lemma_len_sum_prefix_whole(l: Seq<i64>, i: int)
    requires
        0 <= i <= l.len(),
    ensures
        len_sum(l.take(i)) <= len_sum(l),
{
    lemma_len_sum_prefix(l, i, l.len() as int);
    assert(l.take(l.len() as int) =~= l);
}

/// Splits a wire row into the text of each column, in schema order.
pub fn deserialize_row_values(row: Row, schema: &VitessSchema) -> (r: Result<
    Vec<Option<String>>,
    DeserializeRowError,
>)
    ensures
        decode_outcome(row, *schema, r),
        row_well_formed(row.lengths@, row.values@, schema.schema@.len() as int) && all_ascii(row.values@)
            ==> r is Ok,
        r is Ok && all_ascii(row.values@) ==> forall|i: int|
            0 <= i < row.lengths@.len() && row.lengths@[i] >= 0 ==> #[trigger] opt_text(r->Ok_0@[i])
                == Some(ascii_chars(column_bytes(row.lengths@, row.values@, i))),
{
    let n = schema.schema.len();
    let ghost l = row.lengths@;
    let ghost v = row.values@;
    if row.lengths.len() != n {
        return Err(
            DeserializeRowError {
                table: schema.table.duplicate(),
                kind: DeserializeRowErrorKind::ColumnCountMismatch {
                    columns: n,
                    lengths: row.lengths.len(),
                },
            },
        );
    }
    let mut i: usize = 0;
    while i < n
        invariant
            i <= n,
            l == row.lengths@,
            l.len() == n,
            n == schema.schema@.len(),
            forall|j: int| 0 <= j < i ==> l[j] >= -1,
        decreases n - i,
    {
        let len = row.lengths[i];
        if len < -1 {
            return Err(
                DeserializeRowError {
                    table: schema.table.duplicate(),
                    kind: DeserializeRowErrorKind::InvalidLength {
                        column_number: i,
                        column_name: schema.schema[i].0.duplicate(),
                        length: len,
                    },
                },
            );
        }
        i = i + 1;
    }
    let n_bytes = row.values.len();
    let mut total: usize = 0;
    let mut i: usize = 0;
    while i < n
        invariant
            i <= n,
            l == row.lengths@,
            v == row.values@,
            l.len() == n,
            n_bytes == v.len(),
            lengths_valid(l),
            n == schema.schema@.len(),
            total as int == len_sum(l.take(i as int)),
            total <= n_bytes,
        decreases n - i,
    {
        let len = row.lengths[i];
        proof {
            lemma_len_sum_step(l, i as int);
        }
        if len >= 0 {
            if (len as u128) > ((n_bytes - total) as u128) {
                proof {
                    lemma_len_sum_prefix_whole(l, i as int + 1);
                }
                return Err(
                    DeserializeRowError {
                        table: schema.table.duplicate(),
                        kind: DeserializeRowErrorKind::ByteCountMismatch { bytes: n_bytes },
                    },
                );
            }
            total = total + len as usize;
        }
        i = i + 1;
    }
    proof {
        assert(l.take(n as int) =~= l);
    }
    if total != n_bytes {
        return Err(
            DeserializeRowError {
                table: schema.table.duplicate(),
                kind: DeserializeRowErrorKind::ByteCountMismatch { bytes: n_bytes },
            },
        );
    }
    let mut out: Vec<Option<String>> = Vec::new();
    let mut pos: usize = 0;
    let mut i: usize = 0;
    while i < n
        invariant
            i <= n,
            l == row.lengths@,
            v == row.values@,
            n == schema.schema@.len(),
            row_well_formed(l, v, n as int),
            n_bytes == v.len(),
            pos as int == column_offset(l, i as int),
            out@.len() == i,
            forall|j: int| 0 <= j < i ==> column_text(l, v, j) == Some(#[trigger] opt_text(out@[j])),
        decreases n - i,
    {
        let len = row.lengths[i];
        proof {
            lemma_len_sum_step(l, i as int);
            lemma_len_sum_prefix_whole(l, i as int + 1);
        }
        if len < 0 {
            out.push(None);
        } else {
            assert(pos as int + len as int <= n_bytes);
            let end = pos + len as usize;
            let mut bytes: Vec<u8> = Vec::new();
            let mut k: usize = pos;
            while k < end
                invariant
                    pos <= k <= end,
                    end <= v.len(),
                    v == row.values@,
                    bytes@ =~= v.subrange(pos as int, k as int),
                decreases end - k,
            {
                bytes.push(row.values[k]);
                k = k + 1;
            }
            assert(bytes@ =~= column_bytes(l, v, i as int));
            match string_from_utf8(bytes) {
                Ok(s) => {
                    out.push(Some(s));
                },
                Err(e) => {
                    proof {
                        if all_ascii(v) {
                            let cb = column_bytes(l, v, i as int);
                            assert forall|k: int| 0 <= k < cb.len() implies cb[k] < 128 by {
                                assert(cb[k] == v[pos + k]);
                            }
                            lemma_ascii_utf8(cb);
                        }
                    }
                    assert forall|j: int| 0 <= j < i implies (#[trigger] column_text(l, v, j)) is Some by {
                        assert(column_text(l, v, j) == Some(opt_text(out@[j])));
                    }
                    return Err(
                        DeserializeRowError {
                            table: schema.table.duplicate(),
                            kind: DeserializeRowErrorKind::StringFromBytesFailed {
                                column_number: i,
                                column_name: schema.schema[i].0.duplicate(),
                                source: e,
                            },
                        },
                    );
                },
            }
            pos = end;
        }
        i = i + 1;
    }
    proof {
        if all_ascii(v) {
            assert forall|j: int| 0 <= j < l.len() && l[j] >= 0 implies #[trigger] opt_text(out@[j])
                == Some(ascii_chars(column_bytes(l, v, j))) by {
                let cb = column_bytes(l, v, j);
                lemma_len_sum_step(l, j);
                lemma_len_sum_prefix_whole(l, j + 1);
                lemma_len_sum_nonneg(l.take(j));
                assert forall|k: int| 0 <= k < cb.len() implies cb[k] < 128 by {
                    assert(cb[k] == v[column_offset(l, j) + k]);
                }
                lemma_ascii_utf8(cb);
                assert(column_text(l, v, j) == Some(opt_text(out@[j])));
            }
        }
    }
    Ok(out)
}


/// Whether a column's text has a value under its declared type.
pub open spec fn converts(text: Option<Seq<char>>, t: ColumnType) -> bool {
    match text {
        None => true,
        Some(s) => is_passthrough_type(t) || (is_numeric_type(t) && json_number_text(s) is Some),
    }
}

/// Whether `v` is the value of a column's text under its declared type: null
/// for no text, the text itself for a pass-through type, the parsed number for
/// a numeric type.
pub open spec fn value_of(text: Option<Seq<char>>, t: ColumnType, v: FieldValue) -> bool {
    match text {
        None => v is Null,
        Some(s) => if is_passthrough_type(t) {
            v is Text && v->Text_0@ == s
        } else {
            v is Number && json_number_text(s) == Some(v->Number_0@)
        },
    }
}

/// What converting one column's text gives: its value, or the error that
/// names the table, the column and the cause.
pub open spec fn convert_outcome(
    text: Option<Seq<char>>,
    t: ColumnType,
    table: Seq<char>,
    column_number: usize,
    column_name: Seq<char>,
    r: Result<FieldValue, DeserializeRowError>,
) -> bool {
    match r {
        Ok(v) => converts(text, t) && value_of(text, t, v),
        Err(e) => {
            &&& e.table@ == table
            &&& !converts(text, t)
            &&& match e.kind {
                DeserializeRowErrorKind::SerdeJsonParseFailed { column_number: c, column_name: f, .. } => {
                    c == column_number && f@ == column_name && is_numeric_type(t)
                },
                DeserializeRowErrorKind::UnimplementedConversion { column_number: c, column_name: f, source } => {
                    &&& c == column_number
                    &&& f@ == column_name
                    &&& source.column_type == t
                    &&& !is_numeric_type(t)
                    &&& !is_passthrough_type(t)
                },
                _ => false,
            }
        },
    }
}

/// Turns one column's text into a value according to the column's declared type.
pub fn transform_string_to_json_value(
    maybe_value: Option<String>,
    table_name: &TableName,
    column_number: usize,
    field_name: &FieldName,
    column_type: ColumnType,
) -> (r: Result<FieldValue, DeserializeRowError>)
    ensures
        convert_outcome(opt_text(maybe_value), column_type, table_name@, column_number, field_name@, r),
        maybe_value is None ==> r == Ok::<FieldValue, DeserializeRowError>(FieldValue::Null),
        maybe_value is Some && is_passthrough_type(column_type) ==> (r is Ok && r->Ok_0 is Text
            && r->Ok_0->Text_0@ == maybe_value->0@),
        maybe_value is Some && is_numeric_type(column_type) && is_canonical_small_unsigned(
            maybe_value->0@,
        ) ==> (r is Ok && r->Ok_0 is Number && r->Ok_0->Number_0@ == maybe_value->0@),
        maybe_value is Some && is_numeric_type(column_type) && !may_start_number(maybe_value->0@)
            ==> (r is Err && r->Err_0.kind is SerdeJsonParseFailed),
        maybe_value is Some && !is_passthrough_type(column_type) && !is_numeric_type(column_type)
            ==> (r is Err && r->Err_0.kind is UnimplementedConversion
            && r->Err_0.kind->UnimplementedConversion_source.column_type == column_type),
{
    match maybe_value {
        None => Ok(FieldValue::Null),
        Some(value) => match column_type {
            ColumnType::Varchar | ColumnType::Char | ColumnType::Text => Ok(FieldValue::Text(value)),
            ColumnType::Varbinary | ColumnType::Binary | ColumnType::Blob => Ok(FieldValue::Text(value)),
            ColumnType::Date | ColumnType::Datetime => Ok(FieldValue::Text(value)),
            ColumnType::Decimal | ColumnType::Int8 | ColumnType::Uint8 | ColumnType::Int16
            | ColumnType::Uint16 | ColumnType::Int24 | ColumnType::Uint24 | ColumnType::Int32
            | ColumnType::Uint32 | ColumnType::Int64 | ColumnType::Uint64 | ColumnType::Float32
            | ColumnType::Float64 => {
                match parse_json_number(value.as_str()) {
                    Ok(n) => Ok(FieldValue::Number(n)),
                    Err(e) => Err(
                        DeserializeRowError {
                            table: table_name.duplicate(),
                            kind: DeserializeRowErrorKind::SerdeJsonParseFailed {
                                column_number,
                                column_name: field_name.duplicate(),
                                source: e,
                            },
                        },
                    ),
                }
            },
            _ => Err(
                DeserializeRowError {
                    table: table_name.duplicate(),
                    kind: DeserializeRowErrorKind::UnimplementedConversion {
                        column_number,
                        column_name: field_name.duplicate(),
                        source: UnimplementedConversionError { column_type },
                    },
                },
            ),
        },
    }
}


/// A length of -1 at a column always decodes to null at that column,
/// whatever the other columns and the buffer hold.
pub proof fn lemma_null_marker_decodes_to_null(
    row: Row,
    schema: VitessSchema,
    r: Result<Vec<Option<String>>, DeserializeRowError>,
    i: int,
)
    requires
        decode_outcome(row, schema, r),
        r is Ok,
        0 <= i < row.lengths@.len(),
        row.lengths@[i] == -1,
    ensures
        r->Ok_0@[i] is None,
{
    assert(column_text(row.lengths@, row.values@, i) == Some(opt_text(r->Ok_0@[i])));
}

/// Where the non-null lengths do not add up to the buffer's size, decoding
/// fails: it never truncates or pads.
pub proof fn lemma_byte_count_mismatch_fails(
    row: Row,
    schema: VitessSchema,
    r: Result<Vec<Option<String>>, DeserializeRowError>,
)
    requires
        decode_outcome(row, schema, r),
        len_sum(row.lengths@) != row.values@.len(),
    ensures
        r is Err,
        r->Err_0.kind is ByteCountMismatch || r->Err_0.kind is ColumnCountMismatch
            || r->Err_0.kind is InvalidLength,
{
}


/// The bytes of a row whose columns hold these texts: the UTF-8 encodings of
/// the non-null texts, one after the other.
pub open spec fn reencode(texts: Seq<Option<Seq<char>>>) -> Seq<u8>
    decreases texts.len(),
{
    if texts.len() == 0 {
        Seq::empty()
    } else {
        reencode(texts.drop_last()) + match texts.last() {
            Some(t) => encode_utf8(t),
            None => Seq::empty(),
        }
    }
}

/// The length that a column holding `text` has in a row: -1 for null.
pub open spec fn reencoded_length(text: Option<Seq<char>>) -> int {
    match text {
        Some(t) => encode_utf8(t).len() as int,
        None => -1,
    }
}

/// The texts of the columns of a row that decodes.
pub open spec fn row_texts(lengths: Seq<i64>, values: Seq<u8>) -> Seq<Option<Seq<char>>> {
    Seq::new(lengths.len(), |i: int| column_text(lengths, values, i)->0)
}

proof fn lemma_reencode_prefix(lengths: Seq<i64>, values: Seq<u8>, k: int)
    requires
        row_well_formed(lengths, values, lengths.len() as int),
        forall|i: int| 0 <= i < lengths.len() ==> (#[trigger] column_text(lengths, values, i)) is Some,
        0 <= k <= lengths.len(),
    ensures
        reencode(row_texts(lengths, values).take(k)) == values.subrange(0, column_offset(lengths, k)),
    decreases k,
{
    let texts = row_texts(lengths, values);
    if k == 0 {
        assert(texts.take(0) =~= Seq::<Option<Seq<char>>>::empty());
        assert(lengths.take(0) =~= Seq::<i64>::empty());
        assert(values.subrange(0, 0) =~= Seq::<u8>::empty());
    } else {
        let j = k - 1;
        lemma_reencode_prefix(lengths, values, j);
        lemma_len_sum_step(lengths, j);
        lemma_len_sum_prefix_whole(lengths, k);
        lemma_len_sum_nonneg(lengths.take(j));
        assert(texts.take(k).drop_last() =~= texts.take(j));
        assert(texts.take(k).last() == texts[j]);
        let lo = column_offset(lengths, j);
        let hi = column_offset(lengths, k);
        if lengths[j] < 0 {
            assert(values.subrange(0, hi) =~= values.subrange(0, lo) + Seq::<u8>::empty());
        } else {
            let cb = column_bytes(lengths, values, j);
            decode_utf8_encode_utf8(cb);
            assert(values.subrange(0, hi) =~= values.subrange(0, lo) + cb);
        }
    }
}

/// Re-encoding the texts that a row decodes to gives back the row's bytes and
/// its lengths exactly.
pub proof fn lemma_decode_reencode(lengths: Seq<i64>, values: Seq<u8>)
    requires
        row_well_formed(lengths, values, lengths.len() as int),
        forall|i: int| 0 <= i < lengths.len() ==> (#[trigger] column_text(lengths, values, i)) is Some,
    ensures
        reencode(row_texts(lengths, values)) == values,
        forall|i: int| 0 <= i < lengths.len() ==> lengths[i] == reencoded_length(#[trigger] row_texts(lengths, values)[i]),
{
    let texts = row_texts(lengths, values);
    let n = lengths.len() as int;
    lemma_reencode_prefix(lengths, values, n);
    assert(texts.take(n) =~= texts);
    assert(lengths.take(n) =~= lengths);
    assert(values.subrange(0, values.len() as int) =~= values);
    assert forall|i: int| 0 <= i < n implies lengths[i] == reencoded_length(#[trigger] texts[i]) by {
        assert(column_text(lengths, values, i) is Some);
        if lengths[i] >= 0 {
            let cb = column_bytes(lengths, values, i);
            decode_utf8_encode_utf8(cb);
            lemma_len_sum_step(lengths, i);
            lemma_len_sum_prefix_whole(lengths, i + 1);
            lemma_len_sum_nonneg(lengths.take(i));
        }
    }
}


/// The row with column `i` made null: its length becomes -1 and its bytes
/// leave the buffer.
pub open spec fn null_out_lengths(lengths: Seq<i64>, i: int) -> Seq<i64> {
    lengths.update(i, -1i64)
}

pub open spec fn null_out_values(lengths: Seq<i64>, values: Seq<u8>, i: int) -> Seq<u8> {
    values.subrange(0, column_offset(lengths, i)) + values.subrange(
        column_offset(lengths, i) + nonneg(lengths[i]),
        values.len() as int,
    )
}

proof fn lemma_null_out_offsets(lengths: Seq<i64>, i: int, j: int)
    requires
        0 <= i < lengths.len(),
        0 <= j <= lengths.len(),
    ensures
        j <= i ==> column_offset(null_out_lengths(lengths, i), j) == column_offset(lengths, j),
        j > i ==> column_offset(null_out_lengths(lengths, i), j) == column_offset(lengths, j) - nonneg(lengths[i]),
    decreases j,
{
    let l2 = null_out_lengths(lengths, i);
    if j == 0 {
        assert(l2.take(0) =~= lengths.take(0));
    } else {
        lemma_null_out_offsets(lengths, i, j - 1);
        lemma_len_sum_step(lengths, j - 1);
        lemma_len_sum_step(l2, j - 1);
    }
}

/// Making one column null leaves the text of every other column as it was:
/// a null takes no bytes and shifts none of its neighbours.
pub proof fn lemma_null_column_keeps_neighbours(lengths: Seq<i64>, values: Seq<u8>, i: int)
    requires
        row_well_formed(lengths, values, lengths.len() as int),
        0 <= i < lengths.len(),
    ensures
        row_well_formed(
            null_out_lengths(lengths, i),
            null_out_values(lengths, values, i),
            lengths.len() as int,
        ),
        column_text(null_out_lengths(lengths, i), null_out_values(lengths, values, i), i) == Some(
            None::<Seq<char>>,
        ),
        forall|j: int|
            0 <= j < lengths.len() && j != i ==> #[trigger] column_text(
                null_out_lengths(lengths, i),
                null_out_values(lengths, values, i),
                j,
            ) == column_text(lengths, values, j),
{
    let l2 = null_out_lengths(lengths, i);
    let v2 = null_out_values(lengths, values, i);
    let n = lengths.len() as int;
    let d = nonneg(lengths[i]);
    let oi = column_offset(lengths, i);
    lemma_len_sum_step(lengths, i);
    lemma_len_sum_prefix_whole(lengths, i + 1);
    lemma_len_sum_nonneg(lengths.take(i));
    lemma_null_out_offsets(lengths, i, n);
    assert(l2.take(n) =~= l2);
    assert(lengths.take(n) =~= lengths);
    assert(v2.len() == values.len() - d);
    assert forall|j: int| 0 <= j < n && j != i implies #[trigger] column_text(l2, v2, j) == column_text(
        lengths,
        values,
        j,
    ) by {
        if lengths[j] >= 0 {
            lemma_null_out_offsets(lengths, i, j);
            lemma_len_sum_step(lengths, j);
            lemma_len_sum_prefix_whole(lengths, j + 1);
            lemma_len_sum_nonneg(lengths.take(j));
            if j < i {
                lemma_len_sum_prefix(lengths, j + 1, i);
                assert(column_bytes(l2, v2, j) =~= column_bytes(lengths, values, j));
            } else {
                lemma_len_sum_prefix(lengths, i + 1, j);
                assert forall|k: int| 0 <= k < lengths[j] implies #[trigger] column_bytes(l2, v2, j)[k]
                    == column_bytes(lengths, values, j)[k] by {
                    assert(v2[column_offset(lengths, j) - d + k] == values[column_offset(lengths, j) + k]);
                }
                assert(column_bytes(l2, v2, j) =~= column_bytes(lengths, values, j));
            }
        }
    }
}

} // verus!
