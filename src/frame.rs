//! The typed record decoded from one frame of the backup stream.
use vstd::prelude::*;
use crate::backups::{
    frame_bytes_from, frame_bytes_ok, Avatar, BackupFrame, Header, KeyValue, SharedPreference, SqlParameter,
    SqlStatement,
};
use crate::wire::WireError;

verus! {

/// A value bound to an SQL statement parameter.
#[derive(Debug)]
pub enum SqlValue {
    Null,
    Integer(i64),
    /// An IEEE 754 double, as eight little-endian bytes.
    Real(Vec<u8>),
    Text(String),
    Blob(Vec<u8>),
}

/// The typed value of a key-value record.
#[derive(Debug)]
pub enum KeyValueContent {
    Blob(Vec<u8>),
    Bool(bool),
    /// An IEEE 754 single, as four little-endian bytes.
    Float(Vec<u8>),
    Int(i64),
    String(String),
}

/// One record of the backup stream.
#[derive(Debug)]
#[allow(inconsistent_fields)]
pub enum Frame {
    Header { salt: Vec<u8>, iv: Vec<u8>, version: u32 },
    Statement { statement: String, parameter: Vec<SqlValue> },
    Preference { file: String, key: String, value: String },
    Attachment { data_length: usize, id: u64, row: u64, data: Option<Vec<u8>> },
    Version { version: u32 },
    End,
    Avatar { data_length: usize, name: String, data: Option<Vec<u8>> },
    Sticker { data_length: usize, row: u64, data: Option<Vec<u8>> },
    KeyValue { key: String, value: KeyValueContent },
}

/// Failure to turn a frame into a record.
#[derive(Debug, PartialEq, Eq)]
pub enum FrameError {
    /// The bytes are not a well-formed frame message.
    Wire(WireError),
    /// The frame has a number of populated fields other than one.
    FieldCount { count: usize },
    /// A statement parameter has none of the known value fields set.
    UnknownParameter,
    /// A key-value record has a number of value fields set other than one.
    UnknownValue { count: usize },
}

/// A frame that could not be turned into a record, with its raw bytes.
#[derive(Debug)]
pub struct MalformedFrame {
    pub error: FrameError,
    pub data: Vec<u8>,
}

pub open spec fn without_bytes(r: Result<Frame, MalformedFrame>) -> Result<Frame, FrameError> {
    match r {
        Ok(f) => Ok(f),
        Err(e) => Err(e.error),
    }
}

pub open spec fn bytes_or_empty(o: Option<Vec<u8>>) -> Seq<u8> {
    match o {
        Some(v) => v@,
        None => Seq::empty(),
    }
}

pub open spec fn string_or_empty(o: Option<String>) -> Seq<char> {
    match o {
        Some(v) => v@,
        None => Seq::empty(),
    }
}

pub open spec fn u32_or_zero(o: Option<u32>) -> u32 {
    match o {
        Some(v) => v,
        None => 0,
    }
}

pub open spec fn u64_or_zero(o: Option<u64>) -> u64 {
    match o {
        Some(v) => v,
        None => 0,
    }
}

/// How many of the frame's fields are populated.
pub open spec fn populated_count(m: BackupFrame) -> nat {
    (if m.header is Some { 1nat } else { 0nat }) + (if m.statement is Some { 1nat } else { 0nat })
        + (if m.preference is Some { 1nat } else { 0nat }) + (if m.attachment is Some { 1nat } else { 0nat })
        + (if m.version is Some { 1nat } else { 0nat }) + (if m.end is Some { 1nat } else { 0nat })
        + (if m.avatar is Some { 1nat } else { 0nat }) + (if m.sticker is Some { 1nat } else { 0nat })
        + (if m.key_value is Some { 1nat } else { 0nat })
}

/// A parameter has one of the known value fields set.
pub open spec fn parameter_known(p: SqlParameter) -> bool {
    p.string_paramter is Some || p.integer_parameter is Some || p.double_parameter is Some
        || p.blob_parameter is Some || p.nullparameter is Some
}

/// `v` is the value of parameter `p`: the first set field in the order
/// string, integer, double, blob, null.
pub open spec fn parameter_value(p: SqlParameter, v: SqlValue) -> bool {
    if p.string_paramter is Some {
        v matches SqlValue::Text(t) && t@ == p.string_paramter.unwrap()@
    } else if p.integer_parameter is Some {
        v == SqlValue::Integer(p.integer_parameter.unwrap() as i64)
    } else if p.double_parameter is Some {
        v matches SqlValue::Real(b) && b@ == p.double_parameter.unwrap()@
    } else if p.blob_parameter is Some {
        v matches SqlValue::Blob(b) && b@ == p.blob_parameter.unwrap()@
    } else {
        v is Null
    }
}

/// How many value fields of a key-value message are set.
pub open spec fn value_count(kv: KeyValue) -> nat {
    (if kv.blob_value is Some { 1nat } else { 0nat }) + (if kv.boolean_value is Some { 1nat } else { 0nat })
        + (if kv.float_value is Some { 1nat } else { 0nat }) + (if kv.integer_value is Some { 1nat } else { 0nat })
        + (if kv.long_value is Some { 1nat } else { 0nat }) + (if kv.string_value is Some { 1nat } else { 0nat })
}

/// `v` is the one value field set in `kv`.
pub open spec fn key_value_content(kv: KeyValue, v: KeyValueContent) -> bool {
    match v {
        KeyValueContent::Blob(b) => kv.blob_value matches Some(x) && b@ == x@,
        KeyValueContent::Bool(b) => kv.boolean_value == Some(b),
        KeyValueContent::Float(b) => kv.float_value matches Some(x) && b@ == x@,
        KeyValueContent::Int(i) => kv.integer_value matches Some(x) && i == x as i64
            || kv.long_value == Some(i),
        KeyValueContent::String(t) => kv.string_value matches Some(x) && t@ == x@,
    }
}

/// The frame's fields can be turned into a record: every statement parameter
/// is of a known type and a key-value record has exactly one value.
pub open spec fn contents_known(m: BackupFrame) -> bool {
    &&& (m.statement matches Some(st) ==> forall|i: int|
        0 <= i < st.parameters@.len() ==> parameter_known(#[trigger] st.parameters@[i]))
    &&& (m.key_value matches Some(kv) ==> value_count(kv) == 1)
}

/// `f` is the record of the populated field of `m`, with every sub-field kept;
/// an absent scalar reads as zero and an absent string or byte string as empty.
/// The payload of an attachment, avatar or sticker is not part of the frame.
pub open spec fn record_of(m: BackupFrame, f: Frame) -> bool {
    match f {
        Frame::Header { salt, iv, version } => m.header matches Some(h) && salt@ == bytes_or_empty(h.salt)
            && iv@ == bytes_or_empty(h.iv) && version == u32_or_zero(h.version),
        Frame::Statement { statement, parameter } => m.statement matches Some(st) && statement@
            == string_or_empty(st.statement) && parameter@.len() == st.parameters@.len() && forall|i: int|
            0 <= i < parameter@.len() ==> parameter_value(st.parameters@[i], #[trigger] parameter@[i]),
        Frame::Preference { file, key, value } => m.preference matches Some(p) && file@ == string_or_empty(
            p.file,
        ) && key@ == string_or_empty(p.key) && value@ == string_or_empty(p.value),
        Frame::Attachment { data_length, id, row, data } => m.attachment matches Some(a) && data_length
            == u32_or_zero(a.length) as usize && id == u64_or_zero(a.attachment_id) && row == u64_or_zero(
            a.row_id,
        ),
        Frame::Version { version } => m.version matches Some(v) && version == u32_or_zero(v.version),
        Frame::End => m.end is Some,
        Frame::Avatar { data_length, name, data } => m.avatar matches Some(a) && data_length == u32_or_zero(
            a.length,
        ) as usize && name@ == string_or_empty(a.name),
        Frame::Sticker { data_length, row, data } => m.sticker matches Some(s) && data_length
            == u32_or_zero(s.length) as usize && row == u64_or_zero(s.row_id),
        Frame::KeyValue { key, value } => m.key_value matches Some(kv) && key@ == string_or_empty(kv.key)
            && key_value_content(kv, value),
    }
}

fn take_bytes(o: Option<Vec<u8>>) -> (r: Vec<u8>)
    ensures
        r@ == bytes_or_empty(o),
{
    match o {
        Some(v) => v,
        None => Vec::new(),
    }
}

fn take_string(o: Option<String>) -> (r: String)
    ensures
        r@ == string_or_empty(o),
{
    match o {
        Some(v) => v,
        None => String::new(),
    }
}

fn count_if(b: bool) -> (r: usize)
    ensures
        r == (if b { 1usize } else { 0usize }),
{
    if b {
        1
    } else {
        0
    }
}

impl SqlValue {
    /// The value of a statement parameter, or `None` when no known field is set.
    pub fn from_parameter(p: SqlParameter) -> (r: Option<SqlValue>)
        ensures
            r is Some <==> parameter_known(p),
            r matches Some(v) ==> parameter_value(p, v),
    {
        let SqlParameter { string_paramter, integer_parameter, double_parameter, blob_parameter, nullparameter } = p;
        if let Some(t) = string_paramter {
            Some(SqlValue::Text(t))
        } else if let Some(i) = integer_parameter {
            Some(SqlValue::Integer(i as i64))
        } else if let Some(b) = double_parameter {
            Some(SqlValue::Real(b))
        } else if let Some(b) = blob_parameter {
            Some(SqlValue::Blob(b))
        } else if nullparameter.is_some() {
            Some(SqlValue::Null)
        } else {
            None
        }
    }
}

impl KeyValueContent {
    /// The one value set in a key-value message; `None` unless exactly one is set.
    pub fn from_key_value(kv: KeyValue) -> (r: Option<KeyValueContent>)
        ensures
            r is Some <==> value_count(kv) == 1,
            r matches Some(v) ==> key_value_content(kv, v),
    {
        let count = count_if(kv.blob_value.is_some()) + count_if(kv.boolean_value.is_some()) + count_if(
            kv.float_value.is_some(),
        ) + count_if(kv.integer_value.is_some()) + count_if(kv.long_value.is_some()) + count_if(
            kv.string_value.is_some(),
        );
        if count != 1 {
            return None;
        }
        let KeyValue { key: _, blob_value, boolean_value, float_value, integer_value, long_value, string_value } = kv;
        if let Some(b) = blob_value {
            Some(KeyValueContent::Blob(b))
        } else if let Some(b) = boolean_value {
            Some(KeyValueContent::Bool(b))
        } else if let Some(b) = float_value {
            Some(KeyValueContent::Float(b))
        } else if let Some(i) = integer_value {
            Some(KeyValueContent::Int(i as i64))
        } else if let Some(i) = long_value {
            Some(KeyValueContent::Int(i))
        } else if let Some(t) = string_value {
            Some(KeyValueContent::String(t))
        } else {
            None
        }
    }
}

/// Whether a payload block has been attached to the record.
pub open spec fn has_payload(f: Frame) -> bool {
    match f {
        Frame::Attachment { data, .. } => data is Some,
        Frame::Avatar { data, .. } => data is Some,
        Frame::Sticker { data, .. } => data is Some,
        _ => false,
    }
}

/// `f` is the record held in the frame bytes `b`.
pub open spec fn decoded_record(b: Seq<u8>, f: Frame) -> bool {
    exists|m: BackupFrame| #[trigger] frame_bytes_from(b, m) && populated_count(m) == 1 && record_of(m, f)
}

/// `a` and `b` are the same record, but for the payload attached to them.
pub open spec fn same_record(a: Frame, b: Frame) -> bool {
    match (a, b) {
        (
            Frame::Attachment { data_length: l0, id: i0, row: r0, .. },
            Frame::Attachment { data_length: l1, id: i1, row: r1, .. },
        ) => l0 == l1 && i0 == i1 && r0 == r1,
        (
            Frame::Avatar { data_length: l0, name: n0, .. },
            Frame::Avatar { data_length: l1, name: n1, .. },
        ) => l0 == l1 && n0@ == n1@,
        (
            Frame::Sticker { data_length: l0, row: r0, .. },
            Frame::Sticker { data_length: l1, row: r1, .. },
        ) => l0 == l1 && r0 == r1,
        _ => a == b,
    }
}

/// A record held in frame bytes stays so when a payload is attached to it.
pub proof fn lemma_decoded_record_same(b: Seq<u8>, x: Frame, y: Frame)
    requires
        decoded_record(b, x),
        same_record(x, y),
    ensures
        decoded_record(b, y),
{
    let m = choose|m: BackupFrame| #[trigger] frame_bytes_from(b, m) && populated_count(m) == 1 && record_of(m, x);
    assert(record_of(m, y));
}

/// What `Frame::new` gives for the frame message `m`.
pub open spec fn new_outcome(m: BackupFrame, r: Result<Frame, FrameError>) -> bool {
    &&& populated_count(m) != 1 ==> (r matches Err(FrameError::FieldCount { count }) && count
        == populated_count(m))
    &&& populated_count(m) == 1 ==> (r is Ok <==> contents_known(m))
    &&& r matches Ok(f) ==> record_of(m, f) && !has_payload(f)
    &&& r matches Err(e) ==> (e is FieldCount <==> populated_count(m) != 1)
}

impl Frame {
    /// The statement record of a statement message.
    fn from_statement(st: SqlStatement) -> (r: Result<Frame, FrameError>)
        ensures
            r is Ok <==> forall|i: int| 0 <= i < st.parameters@.len() ==> parameter_known(#[trigger] st.parameters@[i]),
            r matches Ok(f) ==> (f matches Frame::Statement { statement, parameter } && statement@ == string_or_empty(
                st.statement,
            ) && parameter@.len() == st.parameters@.len() && forall|i: int|
                0 <= i < parameter@.len() ==> parameter_value(st.parameters@[i], #[trigger] parameter@[i])),
            r matches Err(e) ==> e is UnknownParameter,
    {
        let SqlStatement { statement, parameters } = st;
        let ghost params = parameters@;
        let mut values: Vec<SqlValue> = Vec::new();
        let mut rest = parameters;
        let mut i: usize = 0;
        let n = rest.len();
        while rest.len() > 0
            invariant
                params == st.parameters@,
                n == params.len(),
                i + rest@.len() == n,
                values@.len() == i,
                rest@ == params.subrange(i as int, n as int),
                forall|j: int| 0 <= j < i ==> parameter_known(#[trigger] params[j]),
                forall|j: int| 0 <= j < i ==> parameter_value(params[j], #[trigger] values@[j]),
            decreases rest@.len(),
        {
            let p = rest.remove(0);
            assert(p == params[i as int]);
            match SqlValue::from_parameter(p) {
                Some(v) => values.push(v),
                None => {
                    assert(!parameter_known(st.parameters@[i as int]));
                    return Err(FrameError::UnknownParameter);
                },
            }
            i = i + 1;
        }
        Ok(Frame::Statement { statement: take_string(statement), parameter: values })
    }

    /// Turns a frame message into its record. A frame must have exactly one
    /// populated field; its record keeps every sub-field, and owned buffers
    /// are moved, not copied.
    #[verifier::rlimit(80)]
    pub fn new(frame: BackupFrame) -> (r: Result<Frame, FrameError>)
        ensures
            new_outcome(frame, r),
    {
        let count = count_if(frame.header.is_some()) + count_if(frame.statement.is_some()) + count_if(
            frame.preference.is_some(),
        ) + count_if(frame.attachment.is_some()) + count_if(frame.version.is_some()) + count_if(
            frame.end.is_some(),
        ) + count_if(frame.avatar.is_some()) + count_if(frame.sticker.is_some()) + count_if(
            frame.key_value.is_some(),
        );
        if count != 1 {
            return Err(FrameError::FieldCount { count });
        }
        let ghost m = frame;
        let BackupFrame { header, statement, preference, attachment, version, end, avatar, sticker, key_value } =
            frame;
        if let Some(h) = header {
            let Header { iv, salt, version } = h;
            let version = match version {
                Some(v) => v,
                None => 0,
            };
            Ok(Frame::Header { salt: take_bytes(salt), iv: take_bytes(iv), version })
        } else if let Some(st) = statement {
            Frame::from_statement(st)
        } else if let Some(p) = preference {
            let SharedPreference { file, key, value } = p;
            Ok(Frame::Preference { file: take_string(file), key: take_string(key), value: take_string(value) })
        } else if let Some(a) = attachment {
            let length = match a.length {
                Some(v) => v,
                None => 0,
            };
            let id = match a.attachment_id {
                Some(v) => v,
                None => 0,
            };
            let row = match a.row_id {
                Some(v) => v,
                None => 0,
            };
            Ok(Frame::Attachment { data_length: length as usize, id, row, data: None })
        } else if let Some(v) = version {
            let version = match v.version {
                Some(x) => x,
                None => 0,
            };
            Ok(Frame::Version { version })
        } else if end.is_some() {
            Ok(Frame::End)
        } else if let Some(a) = avatar {
            let Avatar { name, length } = a;
            let length = match length {
                Some(v) => v,
                None => 0,
            };
            Ok(Frame::Avatar { data_length: length as usize, name: take_string(name), data: None })
        } else if let Some(st) = sticker {
            let length = match st.length {
                Some(v) => v,
                None => 0,
            };
            let row = match st.row_id {
                Some(v) => v,
                None => 0,
            };
            Ok(Frame::Sticker { data_length: length as usize, row, data: None })
        } else if let Some(kv) = key_value {
            let KeyValue { key, blob_value, boolean_value, float_value, integer_value, long_value, string_value } =
                kv;
            let values = KeyValue {
                key: None,
                blob_value,
                boolean_value,
                float_value,
                integer_value,
                long_value,
                string_value,
            };
            let count = count_if(values.blob_value.is_some()) + count_if(values.boolean_value.is_some())
                + count_if(values.float_value.is_some()) + count_if(values.integer_value.is_some())
                + count_if(values.long_value.is_some()) + count_if(values.string_value.is_some());
            match KeyValueContent::from_key_value(values) {
                Some(value) => Ok(Frame::KeyValue { key: take_string(key), value }),
                None => Err(FrameError::UnknownValue { count }),
            }
        } else {
            Err(FrameError::FieldCount { count: 0 })
        }
    }

    /// Reads a frame message from its bytes and turns it into its record; a
    /// failure carries the bytes.
    pub fn from_bytes(data: Vec<u8>) -> (r: Result<Frame, MalformedFrame>)
        ensures
            r matches Err(e) ==> e.data@ == data@,
            !frame_bytes_ok(data@) ==> (r matches Err(e) && e.error is Wire),
            frame_bytes_ok(data@) ==> exists|m: BackupFrame| frame_bytes_from(data@, m) && #[trigger] new_outcome(
                m,
                without_bytes(r),
            ),
    {
        let decoded = BackupFrame::decode(data.as_slice());
        match decoded {
            Err(error) => Err(MalformedFrame { error: FrameError::Wire(error), data }),
            Ok(m) => match Frame::new(m) {
                Ok(f) => Ok(f),
                Err(error) => Err(MalformedFrame { error, data }),
            },
        }
    }

    /// Attaches the decrypted payload block to an attachment, avatar or sticker record.
    pub fn set_data(&mut self, data_add: Vec<u8>)
        requires
            *old(self) is Attachment || *old(self) is Avatar || *old(self) is Sticker,
        ensures
            same_record(*old(self), *final(self)),
            has_payload(*final(self)),
            match (*old(self), *final(self)) {
                (
                    Frame::Attachment { data_length: l0, id: i0, row: r0, .. },
                    Frame::Attachment { data_length: l1, id: i1, row: r1, data: Some(d) },
                ) => l0 == l1 && i0 == i1 && r0 == r1 && d@ == data_add@,
                (
                    Frame::Avatar { data_length: l0, name: n0, .. },
                    Frame::Avatar { data_length: l1, name: n1, data: Some(d) },
                ) => l0 == l1 && n0@ == n1@ && d@ == data_add@,
                (
                    Frame::Sticker { data_length: l0, row: r0, .. },
                    Frame::Sticker { data_length: l1, row: r1, data: Some(d) },
                ) => l0 == l1 && r0 == r1 && d@ == data_add@,
                _ => false,
            },
    {
        match self {
            Frame::Attachment { data, .. } => *data = Some(data_add),
            Frame::Avatar { data, .. } => *data = Some(data_add),
            Frame::Sticker { data, .. } => *data = Some(data_add),
            _ => {},
        }
    }
}

} // verus!
