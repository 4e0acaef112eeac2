//! The messages of the backup schema, read from their protobuf bytes.
//!
//! Each field is optional: `None` stands for a field absent from the wire.
//! Floating-point fields are kept as their little-endian bytes.
use vstd::prelude::*;
use crate::wire::{
    bool_field, bytes_field, fields_of, fixed32_field, fixed64_field, get_bool, get_bytes,
    get_fixed32, get_fixed64, get_i32, get_i64, get_repeated_bytes, get_string, get_u32,
    get_varint, i32_field, i64_field, opt_bytes_view, opt_string_view, parse_fields,
    repeated_bytes_field, string_field, u32_field, varint_field, bytes_list_view, fields_view,
    Field, FieldView, WireError,
};

verus! {

/// The unencrypted first frame of a backup file.
pub struct Header {
    pub iv: Option<Vec<u8>>,
    pub salt: Option<Vec<u8>>,
    pub version: Option<u32>,
}

/// One parameter of an SQL statement; exactly one field is expected to be set.
pub struct SqlParameter {
    pub string_paramter: Option<String>,
    pub integer_parameter: Option<u64>,
    /// The IEEE 754 double, as eight little-endian bytes.
    pub double_parameter: Option<Vec<u8>>,
    pub blob_parameter: Option<Vec<u8>>,
    pub nullparameter: Option<bool>,
}

/// An SQL statement with its positional parameters.
pub struct SqlStatement {
    pub statement: Option<String>,
    pub parameters: Vec<SqlParameter>,
}

/// One entry of an application preference file.
pub struct SharedPreference {
    pub file: Option<String>,
    pub key: Option<String>,
    pub value: Option<String>,
}

/// The announcement of an attachment payload block.
pub struct Attachment {
    pub row_id: Option<u64>,
    pub attachment_id: Option<u64>,
    pub length: Option<u32>,
}

/// The version of the database schema.
pub struct DatabaseVersion {
    pub version: Option<u32>,
}

/// The announcement of an avatar payload block.
pub struct Avatar {
    pub name: Option<String>,
    pub length: Option<u32>,
}

/// The announcement of a sticker payload block.
pub struct Sticker {
    pub row_id: Option<u64>,
    pub length: Option<u32>,
}

/// A key with a typed value; exactly one value field is expected to be set.
pub struct KeyValue {
    pub key: Option<String>,
    pub blob_value: Option<Vec<u8>>,
    pub boolean_value: Option<bool>,
    /// The IEEE 754 single, as four little-endian bytes.
    pub float_value: Option<Vec<u8>>,
    pub integer_value: Option<i32>,
    pub long_value: Option<i64>,
    pub string_value: Option<String>,
}

/// One frame of the backup stream; exactly one field is expected to be set.
pub struct BackupFrame {
    pub header: Option<Header>,
    pub statement: Option<SqlStatement>,
    pub preference: Option<SharedPreference>,
    pub attachment: Option<Attachment>,
    pub version: Option<DatabaseVersion>,
    pub end: Option<bool>,
    pub avatar: Option<Avatar>,
    pub sticker: Option<Sticker>,
    pub key_value: Option<KeyValue>,
}

// Header: iv = 1, salt = 2, version = 3.
pub open spec fn header_from(fs: Seq<FieldView>, m: Header) -> bool {
    &&& bytes_field(fs, 1) == Some(opt_bytes_view(m.iv))
    &&& bytes_field(fs, 2) == Some(opt_bytes_view(m.salt))
    &&& u32_field(fs, 3) == Some(m.version)
}

pub open spec fn header_ok(fs: Seq<FieldView>) -> bool {
    bytes_field(fs, 1) is Some && bytes_field(fs, 2) is Some && u32_field(fs, 3) is Some
}

// SqlParameter: stringParamter = 1, integerParameter = 2, doubleParameter = 3,
// blobParameter = 4, nullparameter = 5.
pub open spec fn parameter_from(fs: Seq<FieldView>, m: SqlParameter) -> bool {
    &&& string_field(fs, 1) == Some(opt_string_view(m.string_paramter))
    &&& varint_field(fs, 2) == Some(m.integer_parameter)
    &&& fixed64_field(fs, 3) == Some(opt_bytes_view(m.double_parameter))
    &&& bytes_field(fs, 4) == Some(opt_bytes_view(m.blob_parameter))
    &&& bool_field(fs, 5) == Some(m.nullparameter)
}

pub open spec fn parameter_ok(fs: Seq<FieldView>) -> bool {
    &&& string_field(fs, 1) is Some
    &&& varint_field(fs, 2) is Some
    &&& fixed64_field(fs, 3) is Some
    &&& bytes_field(fs, 4) is Some
    &&& bool_field(fs, 5) is Some
}

pub open spec fn parameter_bytes_from(b: Seq<u8>, m: SqlParameter) -> bool {
    fields_of(b) matches Some(fs) && parameter_from(fs, m)
}

pub open spec fn parameter_bytes_ok(b: Seq<u8>) -> bool {
    fields_of(b) matches Some(fs) && parameter_ok(fs)
}

// SqlStatement: statement = 1, parameters = 2 (repeated).
pub open spec fn statement_from(fs: Seq<FieldView>, m: SqlStatement) -> bool {
    &&& string_field(fs, 1) == Some(opt_string_view(m.statement))
    &&& repeated_bytes_field(fs, 2) is Some
    &&& repeated_bytes_field(fs, 2).unwrap().len() == m.parameters@.len()
    &&& forall|i: int|
        0 <= i < m.parameters@.len() ==> parameter_bytes_from(
            repeated_bytes_field(fs, 2).unwrap()[i],
            #[trigger] m.parameters@[i],
        )
}

pub open spec fn statement_ok(fs: Seq<FieldView>) -> bool {
    &&& string_field(fs, 1) is Some
    &&& repeated_bytes_field(fs, 2) is Some
    &&& forall|i: int|
        0 <= i < repeated_bytes_field(fs, 2).unwrap().len() ==> parameter_bytes_ok(
            #[trigger] repeated_bytes_field(fs, 2).unwrap()[i],
        )
}

// SharedPreference: file = 1, key = 2, value = 3.
pub open spec fn preference_from(fs: Seq<FieldView>, m: SharedPreference) -> bool {
    &&& string_field(fs, 1) == Some(opt_string_view(m.file))
    &&& string_field(fs, 2) == Some(opt_string_view(m.key))
    &&& string_field(fs, 3) == Some(opt_string_view(m.value))
}

pub open spec fn preference_ok(fs: Seq<FieldView>) -> bool {
    string_field(fs, 1) is Some && string_field(fs, 2) is Some && string_field(fs, 3) is Some
}

// Attachment: rowId = 1, attachmentId = 2, length = 3.
pub open spec fn attachment_from(fs: Seq<FieldView>, m: Attachment) -> bool {
    &&& varint_field(fs, 1) == Some(m.row_id)
    &&& varint_field(fs, 2) == Some(m.attachment_id)
    &&& u32_field(fs, 3) == Some(m.length)
}

pub open spec fn attachment_ok(fs: Seq<FieldView>) -> bool {
    varint_field(fs, 1) is Some && varint_field(fs, 2) is Some && u32_field(fs, 3) is Some
}

// DatabaseVersion: version = 1.
pub open spec fn version_from(fs: Seq<FieldView>, m: DatabaseVersion) -> bool {
    u32_field(fs, 1) == Some(m.version)
}

pub open spec fn version_ok(fs: Seq<FieldView>) -> bool {
    u32_field(fs, 1) is Some
}

// Avatar: name = 1, length = 2.
pub open spec fn avatar_from(fs: Seq<FieldView>, m: Avatar) -> bool {
    &&& string_field(fs, 1) == Some(opt_string_view(m.name))
    &&& u32_field(fs, 2) == Some(m.length)
}

pub open spec fn avatar_ok(fs: Seq<FieldView>) -> bool {
    string_field(fs, 1) is Some && u32_field(fs, 2) is Some
}

// Sticker: rowId = 1, length = 2.
pub open spec fn sticker_from(fs: Seq<FieldView>, m: Sticker) -> bool {
    &&& varint_field(fs, 1) == Some(m.row_id)
    &&& u32_field(fs, 2) == Some(m.length)
}

pub open spec fn sticker_ok(fs: Seq<FieldView>) -> bool {
    varint_field(fs, 1) is Some && u32_field(fs, 2) is Some
}

// KeyValue: key = 1, blobValue = 2, booleanValue = 3, floatValue = 4,
// integerValue = 5, longValue = 6, stringValue = 7.
pub open spec fn key_value_from(fs: Seq<FieldView>, m: KeyValue) -> bool {
    &&& string_field(fs, 1) == Some(opt_string_view(m.key))
    &&& bytes_field(fs, 2) == Some(opt_bytes_view(m.blob_value))
    &&& bool_field(fs, 3) == Some(m.boolean_value)
    &&& fixed32_field(fs, 4) == Some(opt_bytes_view(m.float_value))
    &&& i32_field(fs, 5) == Some(m.integer_value)
    &&& i64_field(fs, 6) == Some(m.long_value)
    &&& string_field(fs, 7) == Some(opt_string_view(m.string_value))
}

pub open spec fn key_value_ok(fs: Seq<FieldView>) -> bool {
    &&& string_field(fs, 1) is Some
    &&& bytes_field(fs, 2) is Some
    &&& bool_field(fs, 3) is Some
    &&& fixed32_field(fs, 4) is Some
    &&& i32_field(fs, 5) is Some
    &&& i64_field(fs, 6) is Some
    &&& string_field(fs, 7) is Some
}

/// The message held in `b`, read with `from`, exists and is `m`.
pub open spec fn embedded_from<M>(
    field: Option<Option<Seq<u8>>>,
    m: Option<M>,
    from: spec_fn(Seq<FieldView>, M) -> bool,
) -> bool {
    match field {
        Some(None) => m is None,
        Some(Some(b)) => m matches Some(x) && fields_of(b) matches Some(fs) && from(fs, x),
        None => false,
    }
}

pub open spec fn embedded_ok(field: Option<Option<Seq<u8>>>, ok: spec_fn(Seq<FieldView>) -> bool) -> bool {
    match field {
        Some(None) => true,
        Some(Some(b)) => fields_of(b) matches Some(fs) && ok(fs),
        None => false,
    }
}

// BackupFrame: header = 1, statement = 2, preference = 3, attachment = 4,
// version = 5, end = 6, avatar = 7, sticker = 8, keyValue = 9.
pub open spec fn frame_from(fs: Seq<FieldView>, m: BackupFrame) -> bool {
    &&& embedded_from(bytes_field(fs, 1), m.header, |f, x| header_from(f, x))
    &&& embedded_from(bytes_field(fs, 2), m.statement, |f, x| statement_from(f, x))
    &&& embedded_from(bytes_field(fs, 3), m.preference, |f, x| preference_from(f, x))
    &&& embedded_from(bytes_field(fs, 4), m.attachment, |f, x| attachment_from(f, x))
    &&& embedded_from(bytes_field(fs, 5), m.version, |f, x| version_from(f, x))
    &&& bool_field(fs, 6) == Some(m.end)
    &&& embedded_from(bytes_field(fs, 7), m.avatar, |f, x| avatar_from(f, x))
    &&& embedded_from(bytes_field(fs, 8), m.sticker, |f, x| sticker_from(f, x))
    &&& embedded_from(bytes_field(fs, 9), m.key_value, |f, x| key_value_from(f, x))
}

pub open spec fn frame_ok(fs: Seq<FieldView>) -> bool {
    &&& embedded_ok(bytes_field(fs, 1), |f| header_ok(f))
    &&& embedded_ok(bytes_field(fs, 2), |f| statement_ok(f))
    &&& embedded_ok(bytes_field(fs, 3), |f| preference_ok(f))
    &&& embedded_ok(bytes_field(fs, 4), |f| attachment_ok(f))
    &&& embedded_ok(bytes_field(fs, 5), |f| version_ok(f))
    &&& bool_field(fs, 6) is Some
    &&& embedded_ok(bytes_field(fs, 7), |f| avatar_ok(f))
    &&& embedded_ok(bytes_field(fs, 8), |f| sticker_ok(f))
    &&& embedded_ok(bytes_field(fs, 9), |f| key_value_ok(f))
}

/// The bytes `b` hold a well-formed frame.
pub open spec fn frame_bytes_ok(b: Seq<u8>) -> bool {
    fields_of(b) matches Some(fs) && frame_ok(fs)
}

/// `m` is the frame that the bytes `b` hold.
pub open spec fn frame_bytes_from(b: Seq<u8>, m: BackupFrame) -> bool {
    fields_of(b) matches Some(fs) && frame_from(fs, m)
}

impl Header {
    /// Reads the message from its fields.
    pub fn from_fields(fs: &Vec<Field>) -> (r: Result<Header, WireError>)
        ensures
            r is Ok <==> header_ok(fields_view(fs@)),
            r matches Ok(m) ==> header_from(fields_view(fs@), m),
    {
        let iv = match get_bytes(fs, 1) {
            Ok(v) => v,
            Err(e) => return Err(e),
        };
        let salt = match get_bytes(fs, 2) {
            Ok(v) => v,
            Err(e) => return Err(e),
        };
        let version = match get_u32(fs, 3) {
            Ok(v) => v,
            Err(e) => return Err(e),
        };
        Ok(Header { iv, salt, version })
    }

    /// Reads the message from its bytes.
    pub fn decode(b: &[u8]) -> (r: Result<Header, WireError>)
        ensures
            r is Ok <==> (fields_of(b@) matches Some(fs) && header_ok(fs)),
            r matches Ok(m) ==> (fields_of(b@) matches Some(fs) && header_from(fs, m)),
    {
        match parse_fields(b) {
            None => Err(WireError::Malformed),
            Some(fs) => Header::from_fields(&fs),
        }
    }
}

impl SqlParameter {
    /// Reads the message from its fields.
    pub fn from_fields(fs: &Vec<Field>) -> (r: Result<SqlParameter, WireError>)
        ensures
            r is Ok <==> parameter_ok(fields_view(fs@)),
            r matches Ok(m) ==> parameter_from(fields_view(fs@), m),
    {
        let string_paramter = match get_string(fs, 1) {
            Ok(v) => v,
            Err(e) => return Err(e),
        };
        let integer_parameter = match get_varint(fs, 2) {
            Ok(v) => v,
            Err(e) => return Err(e),
        };
        let double_parameter = match get_fixed64(fs, 3) {
            Ok(v) => v,
            Err(e) => return Err(e),
        };
        let blob_parameter = match get_bytes(fs, 4) {
            Ok(v) => v,
            Err(e) => return Err(e),
        };
        let nullparameter = match get_bool(fs, 5) {
            Ok(v) => v,
            Err(e) => return Err(e),
        };
        Ok(SqlParameter { string_paramter, integer_parameter, double_parameter, blob_parameter, nullparameter })
    }

    /// Reads the message from its bytes.
    pub fn decode(b: &[u8]) -> (r: Result<SqlParameter, WireError>)
        ensures
            r is Ok <==> (fields_of(b@) matches Some(fs) && parameter_ok(fs)),
            r matches Ok(m) ==> (fields_of(b@) matches Some(fs) && parameter_from(fs, m)),
    {
        match parse_fields(b) {
            None => Err(WireError::Malformed),
            Some(fs) => SqlParameter::from_fields(&fs),
        }
    }
}

impl SharedPreference {
    /// Reads the message from its fields.
    pub fn from_fields(fs: &Vec<Field>) -> (r: Result<SharedPreference, WireError>)
        ensures
            r is Ok <==> preference_ok(fields_view(fs@)),
            r matches Ok(m) ==> preference_from(fields_view(fs@), m),
    {
        let file = match get_string(fs, 1) {
            Ok(v) => v,
            Err(e) => return Err(e),
        };
        let key = match get_string(fs, 2) {
            Ok(v) => v,
            Err(e) => return Err(e),
        };
        let value = match get_string(fs, 3) {
            Ok(v) => v,
            Err(e) => return Err(e),
        };
        Ok(SharedPreference { file, key, value })
    }

    /// Reads the message from its bytes.
    pub fn decode(b: &[u8]) -> (r: Result<SharedPreference, WireError>)
        ensures
            r is Ok <==> (fields_of(b@) matches Some(fs) && preference_ok(fs)),
            r matches Ok(m) ==> (fields_of(b@) matches Some(fs) && preference_from(fs, m)),
    {
        match parse_fields(b) {
            None => Err(WireError::Malformed),
            Some(fs) => SharedPreference::from_fields(&fs),
        }
    }
}

impl Attachment {
    /// Reads the message from its fields.
    pub fn from_fields(fs: &Vec<Field>) -> (r: Result<Attachment, WireError>)
        ensures
            r is Ok <==> attachment_ok(fields_view(fs@)),
            r matches Ok(m) ==> attachment_from(fields_view(fs@), m),
    {
        let row_id = match get_varint(fs, 1) {
            Ok(v) => v,
            Err(e) => return Err(e),
        };
        let attachment_id = match get_varint(fs, 2) {
            Ok(v) => v,
            Err(e) => return Err(e),
        };
        let length = match get_u32(fs, 3) {
            Ok(v) => v,
            Err(e) => return Err(e),
        };
        Ok(Attachment { row_id, attachment_id, length })
    }

    /// Reads the message from its bytes.
    pub fn decode(b: &[u8]) -> (r: Result<Attachment, WireError>)
        ensures
            r is Ok <==> (fields_of(b@) matches Some(fs) && attachment_ok(fs)),
            r matches Ok(m) ==> (fields_of(b@) matches Some(fs) && attachment_from(fs, m)),
    {
        match parse_fields(b) {
            None => Err(WireError::Malformed),
            Some(fs) => Attachment::from_fields(&fs),
        }
    }
}

impl DatabaseVersion {
    /// Reads the message from its fields.
    pub fn from_fields(fs: &Vec<Field>) -> (r: Result<DatabaseVersion, WireError>)
        ensures
            r is Ok <==> version_ok(fields_view(fs@)),
            r matches Ok(m) ==> version_from(fields_view(fs@), m),
    {
        let version = match get_u32(fs, 1) {
            Ok(v) => v,
            Err(e) => return Err(e),
        };
        Ok(DatabaseVersion { version })
    }

    /// Reads the message from its bytes.
    pub fn decode(b: &[u8]) -> (r: Result<DatabaseVersion, WireError>)
        ensures
            r is Ok <==> (fields_of(b@) matches Some(fs) && version_ok(fs)),
            r matches Ok(m) ==> (fields_of(b@) matches Some(fs) && version_from(fs, m)),
    {
        match parse_fields(b) {
            None => Err(WireError::Malformed),
            Some(fs) => DatabaseVersion::from_fields(&fs),
        }
    }
}

impl Avatar {
    /// Reads the message from its fields.
    pub fn from_fields(fs: &Vec<Field>) -> (r: Result<Avatar, WireError>)
        ensures
            r is Ok <==> avatar_ok(fields_view(fs@)),
            r matches Ok(m) ==> avatar_from(fields_view(fs@), m),
    {
        let name = match get_string(fs, 1) {
            Ok(v) => v,
            Err(e) => return Err(e),
        };
        let length = match get_u32(fs, 2) {
            Ok(v) => v,
            Err(e) => return Err(e),
        };
        Ok(Avatar { name, length })
    }

    /// Reads the message from its bytes.
    pub fn decode(b: &[u8]) -> (r: Result<Avatar, WireError>)
        ensures
            r is Ok <==> (fields_of(b@) matches Some(fs) && avatar_ok(fs)),
            r matches Ok(m) ==> (fields_of(b@) matches Some(fs) && avatar_from(fs, m)),
    {
        match parse_fields(b) {
            None => Err(WireError::Malformed),
            Some(fs) => Avatar::from_fields(&fs),
        }
    }
}

impl Sticker {
    /// Reads the message from its fields.
    pub fn from_fields(fs: &Vec<Field>) -> (r: Result<Sticker, WireError>)
        ensures
            r is Ok <==> sticker_ok(fields_view(fs@)),
            r matches Ok(m) ==> sticker_from(fields_view(fs@), m),
    {
        let row_id = match get_varint(fs, 1) {
            Ok(v) => v,
            Err(e) => return Err(e),
        };
        let length = match get_u32(fs, 2) {
            Ok(v) => v,
            Err(e) => return Err(e),
        };
        Ok(Sticker { row_id, length })
    }

    /// Reads the message from its bytes.
    pub fn decode(b: &[u8]) -> (r: Result<Sticker, WireError>)
        ensures
            r is Ok <==> (fields_of(b@) matches Some(fs) && sticker_ok(fs)),
            r matches Ok(m) ==> (fields_of(b@) matches Some(fs) && sticker_from(fs, m)),
    {
        match parse_fields(b) {
            None => Err(WireError::Malformed),
            Some(fs) => Sticker::from_fields(&fs),
        }
    }
}

impl KeyValue {
    /// Reads the message from its fields.
    pub fn from_fields(fs: &Vec<Field>) -> (r: Result<KeyValue, WireError>)
        ensures
            r is Ok <==> key_value_ok(fields_view(fs@)),
            r matches Ok(m) ==> key_value_from(fields_view(fs@), m),
    {
        let key = match get_string(fs, 1) {
            Ok(v) => v,
            Err(e) => return Err(e),
        };
        let blob_value = match get_bytes(fs, 2) {
            Ok(v) => v,
            Err(e) => return Err(e),
        };
        let boolean_value = match get_bool(fs, 3) {
            Ok(v) => v,
            Err(e) => return Err(e),
        };
        let float_value = match get_fixed32(fs, 4) {
            Ok(v) => v,
            Err(e) => return Err(e),
        };
        let integer_value = match get_i32(fs, 5) {
            Ok(v) => v,
            Err(e) => return Err(e),
        };
        let long_value = match get_i64(fs, 6) {
            Ok(v) => v,
            Err(e) => return Err(e),
        };
        let string_value = match get_string(fs, 7) {
            Ok(v) => v,
            Err(e) => return Err(e),
        };
        Ok(KeyValue { key, blob_value, boolean_value, float_value, integer_value, long_value, string_value })
    }

    /// Reads the message from its bytes.
    pub fn decode(b: &[u8]) -> (r: Result<KeyValue, WireError>)
        ensures
            r is Ok <==> (fields_of(b@) matches Some(fs) && key_value_ok(fs)),
            r matches Ok(m) ==> (fields_of(b@) matches Some(fs) && key_value_from(fs, m)),
    {
        match parse_fields(b) {
            None => Err(WireError::Malformed),
            Some(fs) => KeyValue::from_fields(&fs),
        }
    }
}

impl SqlStatement {
    /// Reads the message from its fields.
    pub fn from_fields(fs: &Vec<Field>) -> (r: Result<SqlStatement, WireError>)
        ensures
            r is Ok <==> statement_ok(fields_view(fs@)),
            r matches Ok(m) ==> statement_from(fields_view(fs@), m),
    {
        let statement = match get_string(fs, 1) {
            Ok(v) => v,
            Err(e) => return Err(e),
        };
        let raw = match get_repeated_bytes(fs, 2) {
            Ok(v) => v,
            Err(e) => return Err(e),
        };
        let mut parameters: Vec<SqlParameter> = Vec::new();
        let mut i: usize = 0;
        while i < raw.len()
            invariant
                i <= raw@.len(),
                parameters@.len() == i,
                repeated_bytes_field(fields_view(fs@), 2) == Some(bytes_list_view(raw@)),
                string_field(fields_view(fs@), 1) == Some(opt_string_view(statement)),
                forall|j: int| 0 <= j < i ==> parameter_bytes_from(raw@[j]@, #[trigger] parameters@[j]),
                forall|j: int| 0 <= j < i ==> parameter_bytes_ok(#[trigger] raw@[j]@),
            decreases raw@.len() - i,
        {
            match SqlParameter::decode(raw[i].as_slice()) {
                Ok(m) => parameters.push(m),
                Err(e) => {
                    assert(bytes_list_view(raw@)[i as int] == raw@[i as int]@);
                    assert(!parameter_bytes_ok(raw@[i as int]@));
                    assert(!parameter_bytes_ok(bytes_list_view(raw@)[i as int]));
                    assert(bytes_list_view(raw@).len() == raw@.len());
                    assert(repeated_bytes_field(fields_view(fs@), 2).unwrap()[i as int] == raw@[i as int]@);
                    assert(!parameter_bytes_ok(repeated_bytes_field(fields_view(fs@), 2).unwrap()[i as int]));
                    assert(!statement_ok(fields_view(fs@)));
                    return Err(e);
                },
            }
            i = i + 1;
        }
        assert forall|j: int| 0 <= j < bytes_list_view(raw@).len() implies parameter_bytes_ok(#[trigger] bytes_list_view(raw@)[j]) by {
            assert(bytes_list_view(raw@)[j] == raw@[j]@);
        }
        assert forall|j: int| 0 <= j < bytes_list_view(raw@).len() implies parameter_bytes_from(bytes_list_view(raw@)[j], #[trigger] parameters@[j]) by {
            assert(bytes_list_view(raw@)[j] == raw@[j]@);
        }
        Ok(SqlStatement { statement, parameters })
    }

    /// Reads the message from its bytes.
    pub fn decode(b: &[u8]) -> (r: Result<SqlStatement, WireError>)
        ensures
            r is Ok <==> (fields_of(b@) matches Some(fs) && statement_ok(fs)),
            r matches Ok(m) ==> (fields_of(b@) matches Some(fs) && statement_from(fs, m)),
    {
        match parse_fields(b) {
            None => Err(WireError::Malformed),
            Some(fs) => SqlStatement::from_fields(&fs),
        }
    }
}

impl BackupFrame {
    /// Reads the message from its fields.
    pub fn from_fields(fs: &Vec<Field>) -> (r: Result<BackupFrame, WireError>)
        ensures
            r is Ok <==> frame_ok(fields_view(fs@)),
            r matches Ok(m) ==> frame_from(fields_view(fs@), m),
    {
        let header = match get_bytes(fs, 1) {
            Err(e) => return Err(e),
            Ok(None) => None,
            Ok(Some(b)) => match Header::decode(b.as_slice()) {
                Ok(m) => Some(m),
                Err(e) => return Err(e),
            },
        };
        let statement = match get_bytes(fs, 2) {
            Err(e) => return Err(e),
            Ok(None) => None,
            Ok(Some(b)) => match SqlStatement::decode(b.as_slice()) {
                Ok(m) => Some(m),
                Err(e) => return Err(e),
            },
        };
        let preference = match get_bytes(fs, 3) {
            Err(e) => return Err(e),
            Ok(None) => None,
            Ok(Some(b)) => match SharedPreference::decode(b.as_slice()) {
                Ok(m) => Some(m),
                Err(e) => return Err(e),
            },
        };
        let attachment = match get_bytes(fs, 4) {
            Err(e) => return Err(e),
            Ok(None) => None,
            Ok(Some(b)) => match Attachment::decode(b.as_slice()) {
                Ok(m) => Some(m),
                Err(e) => return Err(e),
            },
        };
        let version = match get_bytes(fs, 5) {
            Err(e) => return Err(e),
            Ok(None) => None,
            Ok(Some(b)) => match DatabaseVersion::decode(b.as_slice()) {
                Ok(m) => Some(m),
                Err(e) => return Err(e),
            },
        };
        let end = match get_bool(fs, 6) {
            Ok(v) => v,
            Err(e) => return Err(e),
        };
        let avatar = match get_bytes(fs, 7) {
            Err(e) => return Err(e),
            Ok(None) => None,
            Ok(Some(b)) => match Avatar::decode(b.as_slice()) {
                Ok(m) => Some(m),
                Err(e) => return Err(e),
            },
        };
        let sticker = match get_bytes(fs, 8) {
            Err(e) => return Err(e),
            Ok(None) => None,
            Ok(Some(b)) => match Sticker::decode(b.as_slice()) {
                Ok(m) => Some(m),
                Err(e) => return Err(e),
            },
        };
        let key_value = match get_bytes(fs, 9) {
            Err(e) => return Err(e),
            Ok(None) => None,
            Ok(Some(b)) => match KeyValue::decode(b.as_slice()) {
                Ok(m) => Some(m),
                Err(e) => return Err(e),
            },
        };
        Ok(BackupFrame { header, statement, preference, attachment, version, end, avatar, sticker, key_value })
    }

    /// Reads the message from its bytes.
    pub fn decode(b: &[u8]) -> (r: Result<BackupFrame, WireError>)
        ensures
            r is Ok <==> (fields_of(b@) matches Some(fs) && frame_ok(fs)),
            r matches Ok(m) ==> (fields_of(b@) matches Some(fs) && frame_from(fs, m)),
    {
        match parse_fields(b) {
            None => Err(WireError::Malformed),
            Some(fs) => BackupFrame::from_fields(&fs),
        }
    }
}

} // verus!
