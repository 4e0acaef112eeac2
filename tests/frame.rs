use signal_backup_decode::backups::{Attachment, BackupFrame, KeyValue, SqlParameter, SqlStatement};
use signal_backup_decode::frame::{Frame, FrameError, KeyValueContent, MalformedFrame, SqlValue};
use signal_backup_decode::wire::{parse_fields, read_varint, WireError};

fn varint(mut v: u64, out: &mut Vec<u8>) {
    while v >= 0x80 {
        out.push((v as u8) | 0x80);
        v >>= 7;
    }
    out.push(v as u8);
}

fn field_varint(n: u64, v: u64) -> Vec<u8> {
    let mut out = Vec::new();
    varint(n << 3, &mut out);
    varint(v, &mut out);
    out
}

fn field_bytes(n: u64, data: &[u8]) -> Vec<u8> {
    let mut out = Vec::new();
    varint((n << 3) | 2, &mut out);
    varint(data.len() as u64, &mut out);
    out.extend_from_slice(data);
    out
}

fn empty_frame() -> BackupFrame {
    BackupFrame {
        header: None,
        statement: None,
        preference: None,
        attachment: None,
        version: None,
        end: None,
        avatar: None,
        sticker: None,
        key_value: None,
    }
}

fn attachment(length: u32, id: u64, row: u64) -> Attachment {
    Attachment { row_id: Some(row), attachment_id: Some(id), length: Some(length) }
}

#[test]
fn varint_single_and_multi_byte() {
    assert_eq!(read_varint(&[0x05], 0), Some((5, 1)));
    assert_eq!(read_varint(&[0xac, 0x02], 0), Some((300, 2)));
    assert_eq!(read_varint(&[0xff, 0x96, 0xac, 0x02], 1), Some((300 * 128 + 0x16, 4)));
    let mut max = Vec::new();
    varint(u64::MAX, &mut max);
    assert_eq!(read_varint(&max, 0), Some((u64::MAX, 10)));
}

#[test]
fn varint_rejects_truncated_and_overlong() {
    assert_eq!(read_varint(&[0x80, 0x80], 0), None);
    assert_eq!(read_varint(&[], 0), None);
    assert_eq!(read_varint(&[0xff; 11], 0), None);
    assert_eq!(read_varint(&[0xff, 0xff, 0xff, 0xff, 0xff, 0xff, 0xff, 0xff, 0xff, 0x02], 0), None);
}

#[test]
fn fields_of_message() {
    let mut msg = field_varint(3, 150);
    msg.extend(field_bytes(2, b"hi"));
    let fields = parse_fields(&msg).unwrap();
    assert_eq!(fields.len(), 2);
    assert_eq!(fields[0].number, 3);
    assert_eq!(fields[1].number, 2);
    assert!(parse_fields(&[0x12, 0x05, 0x01]).is_none());
    assert!(parse_fields(&[0x03]).is_none());
}

#[test]
fn frame_with_no_field_fails() {
    match Frame::new(empty_frame()) {
        Err(FrameError::FieldCount { count }) => assert_eq!(count, 0),
        other => panic!("unexpected {:?}", other),
    }
}

#[test]
fn frame_with_two_fields_fails() {
    let mut f = empty_frame();
    f.end = Some(true);
    f.attachment = Some(attachment(10, 1, 2));
    match Frame::new(f) {
        Err(FrameError::FieldCount { count }) => assert_eq!(count, 2),
        other => panic!("unexpected {:?}", other),
    }
}

#[test]
fn frame_with_attachment_keeps_fields() {
    let mut f = empty_frame();
    f.attachment = Some(attachment(123456, 0xdead_beef_0000_0001, 77));
    match Frame::new(f) {
        Ok(Frame::Attachment { data_length, id, row, data }) => {
            assert_eq!(data_length, 123456);
            assert_eq!(id, 0xdead_beef_0000_0001);
            assert_eq!(row, 77);
            assert!(data.is_none());
        }
        other => panic!("unexpected {:?}", other),
    }
}

#[test]
fn frame_with_statement_maps_parameters() {
    let params = vec![
        SqlParameter {
            string_paramter: Some("x".to_string()),
            integer_parameter: None,
            double_parameter: None,
            blob_parameter: None,
            nullparameter: None,
        },
        SqlParameter {
            string_paramter: None,
            integer_parameter: Some(u64::MAX),
            double_parameter: None,
            blob_parameter: None,
            nullparameter: None,
        },
        SqlParameter {
            string_paramter: None,
            integer_parameter: None,
            double_parameter: None,
            blob_parameter: None,
            nullparameter: Some(true),
        },
        SqlParameter {
            string_paramter: None,
            integer_parameter: None,
            double_parameter: Some(1.5f64.to_le_bytes().to_vec()),
            blob_parameter: None,
            nullparameter: None,
        },
    ];
    let mut f = empty_frame();
    f.statement = Some(SqlStatement { statement: Some("INSERT INTO t VALUES (?,?,?,?)".to_string()), parameters: params });
    match Frame::new(f) {
        Ok(Frame::Statement { statement, parameter }) => {
            assert_eq!(statement, "INSERT INTO t VALUES (?,?,?,?)");
            assert_eq!(parameter.len(), 4);
            assert!(matches!(&parameter[0], SqlValue::Text(t) if t == "x"));
            assert!(matches!(&parameter[1], SqlValue::Integer(-1)));
            assert!(matches!(&parameter[2], SqlValue::Null));
            assert!(matches!(&parameter[3], SqlValue::Real(b) if f64::from_le_bytes([b[0], b[1], b[2], b[3], b[4], b[5], b[6], b[7]]) == 1.5));
        }
        other => panic!("unexpected {:?}", other),
    }
}

#[test]
fn frame_with_unknown_parameter_fails() {
    let mut f = empty_frame();
    f.statement = Some(SqlStatement {
        statement: Some("SELECT ?".to_string()),
        parameters: vec![SqlParameter {
            string_paramter: None,
            integer_parameter: None,
            double_parameter: None,
            blob_parameter: None,
            nullparameter: None,
        }],
    });
    assert!(matches!(Frame::new(f), Err(FrameError::UnknownParameter)));
}

#[test]
fn key_value_needs_exactly_one_value() {
    let kv = |boolean_value: Option<bool>, long_value: Option<i64>| KeyValue {
        key: Some("k".to_string()),
        blob_value: None,
        boolean_value,
        float_value: None,
        integer_value: None,
        long_value,
        string_value: None,
    };
    let mut f = empty_frame();
    f.key_value = Some(kv(Some(true), None));
    assert!(matches!(Frame::new(f), Ok(Frame::KeyValue { key, value: KeyValueContent::Bool(true) }) if key == "k"));
    let mut f = empty_frame();
    f.key_value = Some(kv(Some(true), Some(5)));
    assert!(matches!(Frame::new(f), Err(FrameError::UnknownValue { count: 2 })));
    let mut f = empty_frame();
    f.key_value = Some(kv(None, None));
    assert!(matches!(Frame::new(f), Err(FrameError::UnknownValue { count: 0 })));
}

#[test]
fn frame_from_bytes_header() {
    let mut header = field_bytes(1, &[9u8; 16]);
    header.extend(field_bytes(2, &[1, 2, 3]));
    header.extend(field_varint(3, 1));
    let bytes = field_bytes(1, &header);
    match Frame::from_bytes(bytes) {
        Ok(Frame::Header { salt, iv, version }) => {
            assert_eq!(salt, vec![1, 2, 3]);
            assert_eq!(iv, vec![9u8; 16]);
            assert_eq!(version, 1);
        }
        other => panic!("unexpected {:?}", other),
    }
}

#[test]
fn frame_from_bytes_sticker_and_avatar() {
    let mut sticker = field_varint(1, 42);
    sticker.extend(field_varint(2, 1000));
    match Frame::from_bytes(field_bytes(8, &sticker)) {
        Ok(Frame::Sticker { data_length, row, data: None }) => {
            assert_eq!(data_length, 1000);
            assert_eq!(row, 42);
        }
        other => panic!("unexpected {:?}", other),
    }
    let mut avatar = field_bytes(1, "Zoë".as_bytes());
    avatar.extend(field_varint(2, 5));
    match Frame::from_bytes(field_bytes(7, &avatar)) {
        Ok(Frame::Avatar { data_length, name, data: None }) => {
            assert_eq!(data_length, 5);
            assert_eq!(name, "Zoë");
        }
        other => panic!("unexpected {:?}", other),
    }
}

#[test]
fn frame_from_bytes_end_and_version() {
    assert!(matches!(Frame::from_bytes(field_varint(6, 1)), Ok(Frame::End)));
    let version = field_varint(1, 74);
    assert!(matches!(Frame::from_bytes(field_bytes(5, &version)), Ok(Frame::Version { version: 74 })));
}

#[test]
fn frame_from_bytes_preference() {
    let mut pref = field_bytes(1, b"file");
    pref.extend(field_bytes(2, b"key"));
    pref.extend(field_bytes(3, b"value"));
    match Frame::from_bytes(field_bytes(3, &pref)) {
        Ok(Frame::Preference { file, key, value }) => {
            assert_eq!((file.as_str(), key.as_str(), value.as_str()), ("file", "key", "value"));
        }
        other => panic!("unexpected {:?}", other),
    }
}

#[test]
fn frame_from_bytes_rejects_bad_input() {
    match Frame::from_bytes(vec![0x0a, 0x05, 0x01]) {
        Err(MalformedFrame { error, data }) => {
            assert_eq!(error, FrameError::Wire(WireError::Malformed));
            assert_eq!(data, vec![0x0a, 0x05, 0x01]);
        }
        other => panic!("unexpected {:?}", other),
    }
    // a string field holding invalid UTF-8
    let avatar = field_bytes(1, &[0xff, 0xfe]);
    assert!(matches!(Frame::from_bytes(field_bytes(7, &avatar)), Err(MalformedFrame { error: FrameError::Wire(WireError::NotUtf8), .. })));
    // the end field as bytes instead of a varint
    assert!(matches!(Frame::from_bytes(field_bytes(6, &[1])), Err(MalformedFrame { error: FrameError::Wire(WireError::WrongType), .. })));
    // no field at all
    match Frame::from_bytes(field_varint(6, 1).into_iter().chain(field_bytes(5, &[])).collect()) {
        Err(MalformedFrame { error: FrameError::FieldCount { count: 2 }, data }) => assert_eq!(data, vec![48, 1, 42, 0]),
        other => panic!("unexpected {:?}", other),
    }
    assert!(matches!(
        Frame::from_bytes(Vec::new()),
        Err(MalformedFrame { error: FrameError::FieldCount { count: 0 }, .. })
    ));
}

#[test]
fn set_data_on_payload_records() {
    let mut f = Frame::Attachment { data_length: 3, id: 1, row: 2, data: None };
    f.set_data(vec![1, 2, 3]);
    assert!(matches!(f, Frame::Attachment { data: Some(ref d), .. } if d == &vec![1u8, 2, 3]));
}
