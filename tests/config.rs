use signal_backup_decode::args::{password_from_text, PasswordError};
use signal_backup_decode::frame::SqlValue;
use signal_backup_decode::message::Message;

#[test]
fn password_with_spaces_is_accepted() {
    let p = password_from_text(b"12345 67890 12345 67890 12345 67890").unwrap();
    assert_eq!(p, b"123456789012345678901234567890".to_vec());
}

#[test]
fn password_with_wrong_length_is_rejected() {
    assert_eq!(password_from_text(b"1234"), Err(PasswordError { digits: 4 }));
    assert_eq!(password_from_text("١٢٣ abc".as_bytes()), Err(PasswordError { digits: 0 }));
    assert_eq!(password_from_text(&[b'7'; 31]), Err(PasswordError { digits: 31 }));
}

#[test]
fn message_from_sms_parameters() {
    let mut params: Vec<SqlValue> = (0..15).map(|_| SqlValue::Null).collect();
    params[2] = SqlValue::Text("+123".to_string());
    params[14] = SqlValue::Text("hello".to_string());
    params[5] = SqlValue::Integer(1_600_000_000_999);
    params[6] = SqlValue::Integer(-1500);
    let m = Message::new(&params);
    assert_eq!(m.address, "+123");
    assert_eq!(m.body, "hello");
    assert_eq!(m.date_sent, 1_600_000_000);
    assert_eq!(m.date_received, -1);
    params[14] = SqlValue::Integer(3);
    params[5] = SqlValue::Integer(i64::MIN);
    let m = Message::new(&params);
    assert_eq!(m.body, "");
    assert_eq!(m.date_sent, i64::MIN / 1000);
}
