use hmac::{Mac, NewMac};
use signal_backup_decode::decrypter::DecryptError;
use signal_backup_decode::frame::{Frame, KeyValueContent, SqlValue};
use signal_backup_decode::input::{InputFile, ReadError};
use signal_backup_decode::keys::KeyMaterial;
use signal_backup_decode::output::{sink_call, write_frame, SignalOutput, SinkCall, SinkError, WriteError};
use signal_backup_decode::output_none::SignalOutputNone;
use signal_backup_decode::pipeline::{decode_action, DecodeAction, QUEUE_CAPACITY};

const PASSWORD: &[u8] = b"111122223333444455556666777788";

fn varint(mut v: u64, out: &mut Vec<u8>) {
    while v >= 0x80 {
        out.push((v as u8) | 0x80);
        v >>= 7;
    }
    out.push(v as u8);
}

fn field_varint(n: u64, v: u64) -> Vec<u8> {
    let mut out = Vec::new();
    varint(n << 3, &mut out);
    varint(v, &mut out);
    out
}

fn field_bytes(n: u64, data: &[u8]) -> Vec<u8> {
    let mut out = Vec::new();
    varint((n << 3) | 2, &mut out);
    varint(data.len() as u64, &mut out);
    out.extend_from_slice(data);
    out
}

fn salt() -> Vec<u8> {
    (10u8..42).collect()
}

fn iv() -> Vec<u8> {
    let mut iv: Vec<u8> = (200u8..216).collect();
    iv[15] = 254;
    iv
}

fn header_frame(version: u64) -> Vec<u8> {
    let mut header = field_bytes(1, &iv());
    header.extend(field_bytes(2, &salt()));
    header.extend(field_varint(3, version));
    field_bytes(1, &header)
}

fn statement_frame() -> Vec<u8> {
    let mut st = field_bytes(1, b"INSERT INTO t VALUES (?, ?)");
    st.extend(field_bytes(2, &field_bytes(1, b"first")));
    st.extend(field_bytes(2, &field_bytes(1, b"second")));
    field_bytes(2, &st)
}

fn end_frame() -> Vec<u8> {
    field_varint(6, 1)
}

fn attachment_frame(length: u64) -> Vec<u8> {
    let mut a = field_varint(1, 5);
    a.extend(field_varint(2, 6));
    a.extend(field_varint(3, length));
    field_bytes(4, &a)
}

fn key_value_frame() -> Vec<u8> {
    let mut kv = field_bytes(1, b"answer");
    kv.extend(field_varint(6, 42));
    field_bytes(9, &kv)
}

struct Writer {
    keys: KeyMaterial,
    iv: Vec<u8>,
    version: u64,
    out: Vec<u8>,
}

impl Writer {
    fn new(version: u64) -> Writer {
        let header = header_frame(version);
        let mut out = (header.len() as u32).to_be_bytes().to_vec();
        out.extend(header);
        Writer { keys: KeyMaterial::derive(PASSWORD, &salt()), iv: iv(), version, out }
    }

    fn encrypt(&self, data: &[u8]) -> Vec<u8> {
        openssl::symm::encrypt(openssl::symm::Cipher::aes_256_ctr(), &self.keys.cipher_key, Some(&self.iv), data)
            .unwrap()
    }

    fn tag(&self, parts: &[&[u8]]) -> Vec<u8> {
        let mut mac = hmac::Hmac::<sha2::Sha256>::new_varkey(&self.keys.mac_key).unwrap();
        for p in parts {
            mac.update(p);
        }
        mac.finalize().into_bytes()[..10].to_vec()
    }

    fn advance(&mut self) {
        for i in (12..16).rev() {
            if self.iv[i] < 255 {
                self.iv[i] += 1;
                break;
            }
            self.iv[i] = 0;
        }
    }

    fn frame(&mut self, plain: &[u8]) {
        let length = (plain.len() + 10) as u32;
        if self.version == 0 {
            let ct = self.encrypt(plain);
            let tag = self.tag(&[&ct]);
            self.out.extend(length.to_be_bytes());
            self.out.extend(ct);
            self.out.extend(tag);
        } else {
            let length = length + 4;
            let mut buf = length.to_be_bytes().to_vec();
            buf.extend_from_slice(plain);
            let ct = self.encrypt(&buf);
            let tag = self.tag(&[&ct]);
            self.out.extend(ct);
            self.out.extend(tag);
        }
        self.advance();
    }

    fn payload(&mut self, plain: &[u8]) {
        let ct = self.encrypt(plain);
        let tag = self.tag(&[&self.iv.clone(), &ct]);
        self.out.extend(ct);
        self.out.extend(tag);
        self.advance();
    }
}

#[derive(Default)]
struct Recorder {
    seen: Vec<String>,
    fail_on: Option<usize>,
}

impl SignalOutput for Recorder {
    fn write_statement(&mut self, statement: &str, parameters: &[SqlValue]) -> Result<(), SinkError> {
        let params: Vec<String> = parameters
            .iter()
            .map(|p| match p {
                SqlValue::Text(t) => t.clone(),
                other => format!("{:?}", other),
            })
            .collect();
        self.record(format!("statement {} {:?}", statement, params))
    }

    fn write_attachment(&mut self, data: &[u8], attachment_id: u64, row_id: u64) -> Result<(), SinkError> {
        self.record(format!("attachment {} {} {:?}", attachment_id, row_id, data))
    }

    fn write_sticker(&mut self, data: &[u8], row_id: u64) -> Result<(), SinkError> {
        self.record(format!("sticker {} {:?}", row_id, data))
    }

    fn write_avatar(&mut self, data: &[u8], name: &str) -> Result<(), SinkError> {
        self.record(format!("avatar {} {:?}", name, data))
    }

    fn write_preference(&mut self, file: &str, key: &str, value: &str) -> Result<(), SinkError> {
        self.record(format!("preference {} {} {}", file, key, value))
    }

    fn write_version(&mut self, version: u32) -> Result<(), SinkError> {
        self.record(format!("version {}", version))
    }

    fn write_key_value(&mut self, key: &str, value: &KeyValueContent) -> Result<(), SinkError> {
        self.record(format!("keyvalue {} {:?}", key, value))
    }

    fn get_written_frames(&self) -> usize {
        self.seen.len() + 1
    }

    fn finish(&mut self) -> Result<(), SinkError> {
        Ok(())
    }
}

impl Recorder {
    fn record(&mut self, s: String) -> Result<(), SinkError> {
        if self.fail_on == Some(self.seen.len()) {
            return Err(SinkError { message: "sink full".to_string() });
        }
        self.seen.push(s);
        Ok(())
    }
}

#[derive(Debug)]
enum RunError {
    Read(ReadError),
    Write(WriteError),
    Short,
}

/// The bytes of a backup, handed out in the order the reader asks for them.
struct Source<'a> {
    data: &'a [u8],
    pos: usize,
}

impl<'a> Source<'a> {
    fn take(&mut self, n: usize) -> Result<&'a [u8], RunError> {
        if self.data.len() - self.pos < n {
            return Err(RunError::Short);
        }
        let out = &self.data[self.pos..self.pos + n];
        self.pos += n;
        Ok(out)
    }
}

fn open(data: &[u8], verify_mac: bool) -> Result<(InputFile, Source<'_>), RunError> {
    let mut src = Source { data, pos: 0 };
    let len = InputFile::header_length(src.take(4)?);
    let header = src.take(len)?.to_vec();
    let input = InputFile::new(header, data.len() as u64, PASSWORD, verify_mac).map_err(RunError::Read)?;
    Ok((input, src))
}

fn next_record(input: &mut InputFile, src: &mut Source) -> Result<Frame, RunError> {
    let prefix = src.take(4)?;
    let n = input.frame_length(prefix).map_err(RunError::Read)?;
    let rest = src.take(n)?;
    let frame = input.read_frame(prefix, rest).map_err(RunError::Read)?;
    match InputFile::payload_length(&frame) {
        Some(len) => {
            let block = src.take(len + 10)?;
            input.read_payload(frame, block).map_err(RunError::Read)
        }
        None => Ok(frame),
    }
}

/// Decodes every record and hands it to the sink, as the application does.
fn run<O: SignalOutput>(input: &mut InputFile, src: &mut Source, sink: &mut O) -> Result<usize, RunError> {
    let mut forwarded = 0;
    loop {
        let read = match next_record(input, src) {
            Err(RunError::Read(e)) => Err(e),
            Err(other) => return Err(other),
            Ok(f) => Ok(f),
        };
        match decode_action(read) {
            DecodeAction::Forward(f) => {
                write_frame(sink, f).map_err(RunError::Write)?;
                forwarded += 1;
            }
            DecodeAction::Skip { .. } => {}
            DecodeAction::Finish => return Ok(forwarded),
            DecodeAction::Fail(e) => return Err(RunError::Read(e)),
        }
    }
}

#[test]
fn three_record_stream_forwards_statement() {
    let mut w = Writer::new(1);
    w.frame(&statement_frame());
    w.frame(&end_frame());
    let data = w.out.clone();
    let (mut input, mut src) = open(&data, true).unwrap();
    assert_eq!(input.get_file_version(), 1);
    assert_eq!(input.get_count_frame(), 1);
    let mut sink = SignalOutputNone::new();
    assert_eq!(sink.get_written_frames(), 1);
    assert_eq!(run(&mut input, &mut src, &mut sink).unwrap(), 1);
    assert_eq!(sink.get_written_frames(), 2);
    assert_eq!(input.get_count_frame(), 3);
    assert_eq!(input.get_count_byte(), input.get_file_size());
}

#[test]
fn three_record_stream_records_in_order() {
    let mut w = Writer::new(1);
    w.frame(&statement_frame());
    w.frame(&end_frame());
    let data = w.out.clone();
    let (mut input, mut src) = open(&data, true).unwrap();
    let mut sink = Recorder::default();
    assert_eq!(run(&mut input, &mut src, &mut sink).unwrap(), 1);
    assert_eq!(sink.seen, vec!["statement INSERT INTO t VALUES (?, ?) [\"first\", \"second\"]".to_string()]);
    assert_eq!(sink.get_written_frames(), 2);
}

#[test]
fn corrupted_statement_tag_fails_authentication() {
    let mut w = Writer::new(1);
    w.frame(&statement_frame());
    let tag_end = w.out.len();
    w.frame(&end_frame());
    w.out[tag_end - 1] ^= 0x01;
    let data = w.out.clone();
    let (mut input, mut src) = open(&data, true).unwrap();
    let mut sink = Recorder::default();
    match run(&mut input, &mut src, &mut sink) {
        Err(RunError::Read(ReadError::Decrypt(DecryptError::MacVerificationFailed { .. }))) => {}
        other => panic!("unexpected {:?}", other),
    }
    assert!(sink.seen.is_empty());
    assert_eq!(input.get_count_frame(), 1);
}

#[test]
fn failed_mac_leaves_reader_counters() {
    let mut w = Writer::new(1);
    w.frame(&statement_frame());
    let tag_end = w.out.len();
    w.out[tag_end - 1] ^= 0x80;
    let data = w.out.clone();
    let (mut input, mut src) = open(&data, true).unwrap();
    let bytes = input.get_count_byte();
    assert!(matches!(next_record(&mut input, &mut src), Err(RunError::Read(ReadError::Decrypt(_)))));
    assert_eq!(input.get_count_byte(), bytes);
    assert_eq!(input.get_count_frame(), 1);
}

#[test]
fn corrupted_tag_is_ignored_without_mac_verification() {
    let mut w = Writer::new(1);
    w.frame(&statement_frame());
    let tag_end = w.out.len();
    w.frame(&end_frame());
    w.out[tag_end - 1] ^= 0x01;
    let data = w.out.clone();
    let (mut input, mut src) = open(&data, false).unwrap();
    let mut sink = Recorder::default();
    assert_eq!(run(&mut input, &mut src, &mut sink).unwrap(), 1);
}

#[test]
fn version_zero_stream_with_clear_lengths() {
    let mut w = Writer::new(0);
    w.frame(&statement_frame());
    w.frame(&field_bytes(5, &field_varint(1, 74)));
    w.frame(&key_value_frame());
    w.frame(&end_frame());
    let data = w.out.clone();
    let (mut input, mut src) = open(&data, true).unwrap();
    assert_eq!(input.get_file_version(), 0);
    let mut sink = Recorder::default();
    assert_eq!(run(&mut input, &mut src, &mut sink).unwrap(), 2);
    assert_eq!(sink.seen[1], "keyvalue answer Int(42)");
}

#[test]
fn attachment_payload_block_is_read() {
    let mut w = Writer::new(1);
    w.frame(&attachment_frame(4));
    w.payload(&[1, 2, 3, 4]);
    w.frame(&end_frame());
    let data = w.out.clone();
    let (mut input, mut src) = open(&data, true).unwrap();
    match next_record(&mut input, &mut src) {
        Ok(Frame::Attachment { data_length, id, row, data }) => {
            assert_eq!((data_length, id, row), (4, 6, 5));
            assert_eq!(data, Some(vec![1, 2, 3, 4]));
        }
        other => panic!("unexpected {:?}", other),
    }
    assert!(matches!(next_record(&mut input, &mut src), Ok(Frame::End)));
}

#[test]
fn payload_block_tag_covers_the_iv() {
    let mut w = Writer::new(1);
    w.frame(&attachment_frame(4));
    // a tag over the ciphertext alone, without the IV
    let ct = w.encrypt(&[1, 2, 3, 4]);
    let tag = w.tag(&[&ct]);
    w.out.extend(ct);
    w.out.extend(tag);
    let data = w.out.clone();
    let (mut input, mut src) = open(&data, true).unwrap();
    assert!(matches!(
        next_record(&mut input, &mut src),
        Err(RunError::Read(ReadError::Decrypt(DecryptError::MacVerificationFailed { .. })))
    ));
}

#[test]
fn payload_block_of_wrong_length_is_refused() {
    let mut w = Writer::new(1);
    w.frame(&attachment_frame(4));
    let data = w.out.clone();
    let (mut input, mut src) = open(&data, true).unwrap();
    let prefix = src.take(4).unwrap();
    let n = input.frame_length(prefix).unwrap();
    let rest = src.take(n).unwrap();
    let frame = input.read_frame(prefix, rest).unwrap();
    assert!(matches!(input.read_payload(frame, &[0u8; 13]), Err(ReadError::InvalidLength { length: 13 })));
}

#[test]
fn truncated_stream_fails() {
    let mut w = Writer::new(1);
    w.frame(&statement_frame());
    let len = w.out.len();
    w.out.truncate(len - 3);
    let data = w.out.clone();
    let (mut input, mut src) = open(&data, true).unwrap();
    assert!(matches!(next_record(&mut input, &mut src), Err(RunError::Short)));
}

#[test]
fn frame_of_wrong_length_is_refused() {
    let mut w = Writer::new(1);
    w.frame(&statement_frame());
    let data = w.out.clone();
    let (mut input, mut src) = open(&data, true).unwrap();
    let prefix = src.take(4).unwrap();
    let n = input.frame_length(prefix).unwrap();
    let rest = src.take(n).unwrap();
    assert!(matches!(input.read_frame(prefix, &rest[1..]), Err(ReadError::InvalidLength { .. })));
    assert_eq!(input.get_count_frame(), 1);
}

#[test]
fn second_header_is_an_error() {
    let mut w = Writer::new(1);
    w.frame(&header_frame(1));
    let data = w.out.clone();
    let (mut input, mut src) = open(&data, true).unwrap();
    assert!(matches!(next_record(&mut input, &mut src), Err(RunError::Read(ReadError::UnexpectedHeader))));
}

#[test]
fn first_frame_must_be_a_header() {
    let end = end_frame();
    let mut data = (end.len() as u32).to_be_bytes().to_vec();
    data.extend(end);
    assert!(matches!(open(&data, true), Err(RunError::Read(ReadError::NotAHeader))));
    assert!(matches!(open(&[0, 0], true), Err(RunError::Short)));
}

#[test]
fn sink_failure_stops_the_run() {
    let mut w = Writer::new(1);
    w.frame(&statement_frame());
    w.frame(&statement_frame());
    w.frame(&end_frame());
    let data = w.out.clone();
    let (mut input, mut src) = open(&data, true).unwrap();
    let mut sink = Recorder { seen: Vec::new(), fail_on: Some(1) };
    assert!(matches!(run(&mut input, &mut src, &mut sink), Err(RunError::Write(WriteError::Sink(_)))));
    assert_eq!(sink.seen.len(), 1);
}

#[test]
fn header_and_end_are_never_forwarded() {
    let mut sink = Recorder::default();
    assert_eq!(
        write_frame(&mut sink, Frame::Header { salt: vec![], iv: vec![], version: 1 }),
        Err(WriteError::UnexpectedFrame)
    );
    assert_eq!(write_frame(&mut sink, Frame::End), Err(WriteError::UnexpectedFrame));
    assert_eq!(
        write_frame(&mut sink, Frame::Sticker { data_length: 1, row: 1, data: None }),
        Err(WriteError::MissingPayload)
    );
    assert!(sink.seen.is_empty());
    assert_eq!(write_frame(&mut sink, Frame::Version { version: 3 }), Ok(()));
    assert_eq!(sink.seen, vec!["version 3".to_string()]);
}

#[test]
fn write_frame_calls_the_method_of_the_record() {
    let mut sink = Recorder::default();
    write_frame(&mut sink, Frame::Attachment { data_length: 2, id: 9, row: 8, data: Some(vec![5, 6]) }).unwrap();
    write_frame(&mut sink, Frame::Avatar { data_length: 1, name: "n".to_string(), data: Some(vec![7]) }).unwrap();
    write_frame(&mut sink, Frame::Sticker { data_length: 1, row: 3, data: Some(vec![1]) }).unwrap();
    write_frame(
        &mut sink,
        Frame::Preference { file: "f".to_string(), key: "k".to_string(), value: "v".to_string() },
    )
    .unwrap();
    write_frame(&mut sink, Frame::KeyValue { key: "x".to_string(), value: KeyValueContent::Bool(true) }).unwrap();
    assert_eq!(
        sink.seen,
        vec![
            "attachment 9 8 [5, 6]".to_string(),
            "avatar n [7]".to_string(),
            "sticker 3 [1]".to_string(),
            "preference f k v".to_string(),
            "keyvalue x Bool(true)".to_string(),
        ]
    );
}

#[test]
fn queue_capacity_is_ten() {
    assert_eq!(QUEUE_CAPACITY, 10);
}

#[test]
fn version_records_are_not_forwarded() {
    let mut w = Writer::new(1);
    w.frame(&field_bytes(5, &field_varint(1, 74)));
    w.frame(&end_frame());
    let data = w.out.clone();
    let (mut input, mut src) = open(&data, true).unwrap();
    let mut sink = Recorder::default();
    assert_eq!(run(&mut input, &mut src, &mut sink).unwrap(), 0);
    assert!(sink.seen.is_empty());
    assert_eq!(input.get_count_frame(), 3);
}

#[test]
fn statement_record_is_decoded() {
    let mut w = Writer::new(1);
    w.frame(&statement_frame());
    w.frame(&end_frame());
    let data = w.out.clone();
    let (mut input, mut src) = open(&data, true).unwrap();
    match next_record(&mut input, &mut src) {
        Ok(Frame::Statement { statement, parameter }) => {
            assert_eq!(statement, "INSERT INTO t VALUES (?, ?)");
            assert!(matches!(&parameter[..], [SqlValue::Text(a), SqlValue::Text(b)] if a == "first" && b == "second"));
        }
        other => panic!("unexpected {:?}", other),
    }
    assert!(matches!(next_record(&mut input, &mut src), Ok(Frame::End)));
}

#[test]
fn sink_call_moves_record_fields() {
    match sink_call(Frame::Attachment { data_length: 2, id: 9, row: 8, data: Some(vec![5, 6]) }) {
        Ok(SinkCall::Attachment { data, attachment_id, row_id }) => {
            assert_eq!((data, attachment_id, row_id), (vec![5, 6], 9, 8));
        }
        other => panic!("unexpected {:?}", other),
    }
    assert!(matches!(sink_call(Frame::End), Err(WriteError::UnexpectedFrame)));
}
