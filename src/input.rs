//! The stream reader: the header frame, the two length framings of ordinary
//! frames, and the payload blocks that follow attachment, avatar and sticker
//! records.
//!
//! The reader holds no input. The caller reads the byte source in the order
//! the reader asks for: the four length bytes of a frame, then as many bytes
//! as `frame_length` gives, then, for a record that announces one, a payload
//! block of `payload_length` bytes and its tag.
use vstd::prelude::*;
use crate::backups::{frame_bytes_from, frame_bytes_ok, parameter_bytes_from, BackupFrame};
use crate::bytes::{append_bytes, be_u32, bytes_of, bytes_range, read_u32_be};
use crate::decrypter::{advanced_iv, truncated_tag, DecryptError, Decrypter, LENGTH_HMAC, LENGTH_IV};
use crate::frame::{
    bytes_or_empty, contents_known, decoded_record, has_payload, new_outcome, parameter_known, populated_count,
    same_record, u32_or_zero, without_bytes, Frame, MalformedFrame,
};
use crate::keys::{derived_cipher_key, derived_mac_key};
use crate::primitives::aes256_ctr_of;
use crate::wire::{bytes_field, fields_of, opt_bytes_view, opt_string_view, repeated_bytes_field};

verus! {

/// Failure while reading the backup stream.
#[derive(Debug)]
pub enum ReadError {
    /// A frame length that the framing does not allow, or bytes of another length than asked for.
    InvalidLength { length: usize },
    /// The first frame is not a header.
    NotAHeader,
    /// A header where only the first frame may be one.
    UnexpectedHeader,
    /// The header's IV is not 16 bytes long.
    InvalidIv { length: usize },
    /// The frame bytes do not decode to a record.
    Frame(MalformedFrame),
    /// Decryption or authentication failed.
    Decrypt(DecryptError),
    /// More records than the frame counter can count.
    TooManyFrames,
}

/// The cipher library failed or refused a range too long for it.
pub open spec fn cipher_refused(e: ReadError) -> bool {
    e matches ReadError::Decrypt(DecryptError::CipherFailed) || e matches ReadError::Decrypt(DecryptError::TooLong)
}

/// A MAC tag that did not check.
pub open spec fn mac_failed(e: ReadError) -> bool {
    e matches ReadError::Decrypt(DecryptError::MacVerificationFailed { .. })
}

/// The tag checks: MAC verification is off, or the tag is the truncated
/// HMAC of the authenticated bytes.
pub open spec fn tag_ok(mac_key: Option<Seq<u8>>, data: Seq<u8>, tag: Seq<u8>) -> bool {
    match mac_key {
        Some(k) => tag == truncated_tag(k, data),
        None => true,
    }
}

/// How many bytes follow the four length bytes `prefix` of an ordinary frame.
///
/// With version 0 the big-endian length is in clear and not authenticated;
/// it counts the body and the ten-byte tag that follow it. From version 1 on
/// the length is encrypted and counts the four length bytes too.
pub open spec fn rest_length(prefix: Seq<u8>, encrypted_length: bool, key: Seq<u8>, iv: Seq<u8>) -> Option<int> {
    if encrypted_length {
        let len = be_u32(aes256_ctr_of(key, iv, prefix));
        if len < 4 + LENGTH_HMAC {
            None
        } else {
            Some(len - 4)
        }
    } else {
        let len = be_u32(prefix);
        if len < LENGTH_HMAC {
            None
        } else {
            Some(len)
        }
    }
}

/// The MAC-covered ciphertext of a frame whose length bytes are `prefix` and
/// whose remaining bytes are `rest`, and how many of its decrypted bytes to
/// drop. From version 1 on the length bytes are authenticated and decrypted
/// together with the body.
pub open spec fn frame_ciphertext(prefix: Seq<u8>, rest: Seq<u8>, encrypted_length: bool) -> (Seq<u8>, int) {
    let body = rest.subrange(0, rest.len() - LENGTH_HMAC);
    if encrypted_length {
        (prefix + body, 4)
    } else {
        (body, 0)
    }
}

/// The tag at the end of the bytes of a frame or payload block.
pub open spec fn trailing_tag(rest: Seq<u8>) -> Seq<u8> {
    rest.subrange(rest.len() - LENGTH_HMAC, rest.len() as int)
}

/// `n` plus `k`, saturating at the largest `u64`.
pub open spec fn add_saturating(n: u64, k: int) -> u64 {
    if n + k > u64::MAX {
        u64::MAX
    } else {
        (n + k) as u64
    }
}

/// The frame message held in the bytes `b`, when they hold one.
pub open spec fn message_of(b: Seq<u8>) -> BackupFrame {
    choose|m: BackupFrame| frame_bytes_from(b, m)
}

/// The bytes `b` hold a frame message whose one field is a record other than
/// a header, which turns into a record.
pub open spec fn holds_record(b: Seq<u8>) -> bool {
    &&& frame_bytes_ok(b)
    &&& (exists|m: BackupFrame| frame_bytes_from(b, m))
    &&& populated_count(message_of(b)) == 1
    &&& message_of(b).header is None
    &&& contents_known(message_of(b))
}

/// The bytes `b` hold a frame message whose one field is a header.
pub open spec fn holds_header(b: Seq<u8>) -> bool {
    &&& frame_bytes_ok(b)
    &&& (exists|m: BackupFrame| frame_bytes_from(b, m))
    &&& populated_count(message_of(b)) == 1
    &&& message_of(b).header is Some
}

/// The IV of the header held in `b`.
pub open spec fn header_iv(b: Seq<u8>) -> Seq<u8> {
    bytes_or_empty(message_of(b).header.unwrap().iv)
}

/// Two frame messages read from the same bytes have the same populated
/// fields and, when there is one, the same header.
pub proof fn lemma_frame_message_unique(b: Seq<u8>, m1: BackupFrame, m2: BackupFrame)
    requires
        frame_bytes_from(b, m1),
        frame_bytes_from(b, m2),
    ensures
        populated_count(m1) == populated_count(m2),
        m1.header is Some <==> m2.header is Some,
        contents_known(m1) == contents_known(m2),
        m1.header matches Some(h1) ==> (m2.header matches Some(h2) && bytes_or_empty(h1.iv) == bytes_or_empty(h2.iv)
            && bytes_or_empty(h1.salt) == bytes_or_empty(h2.salt) && u32_or_zero(h1.version) == u32_or_zero(
            h2.version,
        )),
{
    let fs = fields_of(b).unwrap();
    assert(m1.end == m2.end);
    if let (Some(st1), Some(st2)) = (m1.statement, m2.statement) {
        let fs2 = fields_of(bytes_field(fs, 2).unwrap().unwrap()).unwrap();
        let bs = repeated_bytes_field(fs2, 2).unwrap();
        assert forall|i: int| 0 <= i < st1.parameters@.len() implies parameter_known(st1.parameters@[i])
            == parameter_known(st2.parameters@[i]) by {
            let p1 = st1.parameters@[i];
            let p2 = st2.parameters@[i];
            assert(parameter_bytes_from(bs[i], p1));
            assert(parameter_bytes_from(bs[i], p2));
            assert(opt_string_view(p1.string_paramter) == opt_string_view(p2.string_paramter));
            assert(opt_bytes_view(p1.double_parameter) == opt_bytes_view(p2.double_parameter));
            assert(opt_bytes_view(p1.blob_parameter) == opt_bytes_view(p2.blob_parameter));
        }
    }
    if let (Some(kv1), Some(kv2)) = (m1.key_value, m2.key_value) {
        assert(opt_bytes_view(kv1.blob_value) == opt_bytes_view(kv2.blob_value));
        assert(opt_bytes_view(kv1.float_value) == opt_bytes_view(kv2.float_value));
        assert(opt_string_view(kv1.string_value) == opt_string_view(kv2.string_value));
    }
    if let (Some(h1), Some(h2)) = (m1.header, m2.header) {
        let fs2 = fields_of(bytes_field(fs, 1).unwrap().unwrap()).unwrap();
        assert(opt_bytes_view(h1.iv) == opt_bytes_view(h2.iv));
        assert(opt_bytes_view(h1.salt) == opt_bytes_view(h2.salt));
        assert(h1.version == h2.version);
    }
}

/// `f` is the reader opened on a first frame whose bytes are `b`: the frame
/// message `m` read from them has the header as its one field, and the keys
/// come from the password and the header's salt, the IV and the version from
/// the header.
pub open spec fn header_opens(b: Seq<u8>, m: BackupFrame, password: Seq<u8>, verify_mac: bool, f: InputFile) -> bool {
    &&& frame_bytes_from(b, m)
    &&& populated_count(m) == 1
    &&& m.header matches Some(h)
    &&& f.decrypter_view().key_view() == derived_cipher_key(password, bytes_or_empty(h.salt))
    &&& f.decrypter_view().mac_key_view() == (if verify_mac {
        Some(derived_mac_key(password, bytes_or_empty(h.salt)))
    } else {
        None
    })
    &&& f.decrypter_view().iv_view() == bytes_or_empty(h.iv)
    &&& f.file_version_view() == u32_or_zero(h.version)
}

/// Decodes the records of one backup file as its bytes are handed in.
pub struct InputFile {
    decrypter: Decrypter,
    count_frame: usize,
    count_byte: u64,
    file_bytes: u64,
    file_version: u32,
}

impl InputFile {
    pub closed spec fn decrypter_view(&self) -> Decrypter {
        self.decrypter
    }

    pub closed spec fn count_frame_view(&self) -> usize {
        self.count_frame
    }

    /// How many bytes of the input have been consumed by completed reads.
    pub closed spec fn count_byte_view(&self) -> u64 {
        self.count_byte
    }

    pub closed spec fn file_bytes_view(&self) -> u64 {
        self.file_bytes
    }

    /// The file version announced by the header.
    pub closed spec fn file_version_view(&self) -> u32 {
        self.file_version
    }

    pub open spec fn wf(&self) -> bool {
        &&& self.decrypter_view().wf()
        &&& self.decrypter_view().mac_input_view() == Seq::<u8>::empty()
    }

    /// The length, read from the four bytes that precede it, of the header
    /// frame that opens a backup file.
    pub fn header_length(prefix: &[u8]) -> (r: usize)
        requires
            prefix@.len() == 4,
        ensures
            r == be_u32(prefix@),
    {
        read_u32_be(prefix) as usize
    }

    /// Opens a backup file from its unencrypted header frame (the bytes after
    /// its four length bytes): derives the keys from `password` and the
    /// header's salt. `file_size` is kept for progress reports.
    pub fn new(header: Vec<u8>, file_size: u64, password: &[u8], verify_mac: bool) -> (r: Result<Self, ReadError>)
        ensures
            ({
                let b = header@;
                &&& holds_header(b) ==> (r is Ok <==> header_iv(b).len() == LENGTH_IV)
                &&& r is Ok ==> holds_header(b) && header_iv(b).len() == LENGTH_IV && header_opens(
                    b,
                    message_of(b),
                    password@,
                    verify_mac,
                    r->Ok_0,
                )
                &&& (r matches Err(ReadError::NotAHeader)) <==> (frame_bytes_ok(b) && (exists|m: BackupFrame|
                    frame_bytes_from(b, m)) && populated_count(message_of(b)) == 1 && message_of(b).header is None
                    && contents_known(message_of(b)))
                &&& r matches Err(ReadError::InvalidIv { .. }) ==> holds_header(b) && header_iv(b).len() != LENGTH_IV
            }),
            r matches Ok(f) ==> {
                &&& f.wf()
                &&& f.count_frame_view() == 1
                &&& f.count_byte_view() == add_saturating(0, 4 + header@.len() as int)
                &&& f.file_bytes_view() == file_size
            },
    {
        let ghost frame_view = header@;
        let len = header.len();
        let result = Frame::from_bytes(header);
        let ghost m = choose|m: BackupFrame| frame_bytes_from(frame_view, m) && #[trigger] new_outcome(m, without_bytes(result));
        proof {
            if frame_bytes_ok(frame_view) {
                lemma_frame_message_unique(frame_view, m, message_of(frame_view));
            }
        }
        let frame = match result {
            Ok(f) => f,
            Err(e) => return Err(ReadError::Frame(e)),
        };
        match frame {
            Frame::Header { salt, iv, version } => {
                if iv.len() != LENGTH_IV {
                    return Err(ReadError::InvalidIv { length: iv.len() });
                }
                let decrypter = Decrypter::new(password, salt.as_slice(), iv.as_slice(), verify_mac);
                let count_byte: u64 = if len as u64 > u64::MAX - 4 {
                    u64::MAX
                } else {
                    len as u64 + 4
                };
                let input = InputFile { decrypter, count_frame: 1, count_byte, file_bytes: file_size, file_version: version };
                assert(header_opens(frame_view, m, password@, verify_mac, input));
                Ok(input)
            },
            _ => Err(ReadError::NotAHeader),
        }
    }

    /// How many bytes follow the four length bytes `prefix` of the next
    /// ordinary frame: its body and its tag. Reading the length changes nothing.
    pub fn frame_length(&self, prefix: &[u8]) -> (r: Result<usize, ReadError>)
        requires
            self.wf(),
            prefix@.len() == 4,
        ensures
            ({
                let d = self.decrypter_view();
                let expected = rest_length(prefix@, self.file_version_view() != 0, d.key_view(), d.iv_view());
                &&& r matches Ok(n) ==> expected == Some(n as int)
                &&& r matches Err(e) ==> (expected is None && e is InvalidLength) || (self.file_version_view() != 0
                    && cipher_refused(e))
                &&& expected is Some ==> (r is Ok || (r matches Err(e) && cipher_refused(e)))
                &&& self.file_version_view() == 0 ==> (r is Ok <==> expected is Some)
            }),
    {
        if self.file_version == 0 {
            let length = read_u32_be(prefix) as usize;
            if length < LENGTH_HMAC {
                return Err(ReadError::InvalidLength { length });
            }
            Ok(length)
        } else {
            let plain = match self.decrypter.apply_keystream(prefix) {
                Ok(v) => v,
                Err(e) => return Err(ReadError::Decrypt(e)),
            };
            let length = read_u32_be(plain.as_slice()) as usize;
            if length < 4 + LENGTH_HMAC {
                return Err(ReadError::InvalidLength { length });
            }
            Ok(length - 4)
        }
    }

    /// Authenticates and decrypts the ordinary frame whose length bytes are
    /// `prefix` and whose remaining bytes are `rest`, and returns its plaintext.
    fn decrypt_frame(&mut self, prefix: &[u8], rest: &[u8]) -> (r: Result<Vec<u8>, ReadError>)
        requires
            old(self).wf(),
            prefix@.len() == 4,
            rest@.len() >= LENGTH_HMAC,
        ensures
            final(self).count_frame_view() == old(self).count_frame_view(),
            final(self).count_byte_view() == old(self).count_byte_view(),
            final(self).file_bytes_view() == old(self).file_bytes_view(),
            final(self).file_version_view() == old(self).file_version_view(),
            final(self).decrypter_view().key_view() == old(self).decrypter_view().key_view(),
            final(self).decrypter_view().mac_key_view() == old(self).decrypter_view().mac_key_view(),
            final(self).decrypter_view().wf(),
            r is Err ==> final(self).decrypter_view().iv_view() == old(self).decrypter_view().iv_view(),
            r is Ok ==> final(self).wf(),
            ({
                let d = old(self).decrypter_view();
                let (ct, skip) = frame_ciphertext(prefix@, rest@, old(self).file_version_view() != 0);
                let tag = trailing_tag(rest@);
                &&& r matches Err(e) ==> cipher_refused(e) || (mac_failed(e) && !tag_ok(d.mac_key_view(), ct, tag))
                &&& !tag_ok(d.mac_key_view(), ct, tag) ==> r is Err
                &&& r matches Ok(v) ==> {
                    &&& tag_ok(d.mac_key_view(), ct, tag)
                    &&& v@ == aes256_ctr_of(d.key_view(), d.iv_view(), ct).subrange(skip, ct.len() as int)
                    &&& final(self).decrypter_view().iv_view() == advanced_iv(d.iv_view())
                }
            }),
    {
        let body_end = rest.len() - LENGTH_HMAC;
        let ct: Vec<u8>;
        let skip: usize;
        if self.file_version == 0 {
            ct = bytes_range(rest, 0, body_end);
            skip = 0;
        } else {
            let mut assembled = bytes_of(prefix);
            append_bytes(&mut assembled, &rest[0..body_end]);
            ct = assembled;
            skip = 4;
        }
        let tag = bytes_range(rest, body_end, rest.len());
        let plain = match self.decrypter.decrypt(ct.as_slice(), true) {
            Ok(v) => v,
            Err(e) => return Err(ReadError::Decrypt(e)),
        };
        match self.decrypter.verify_mac(tag.as_slice()) {
            Ok(()) => {},
            Err(e) => return Err(ReadError::Decrypt(e)),
        }
        self.decrypter.increase_iv();
        Ok(bytes_range(plain.as_slice(), skip, plain.len()))
    }

    /// Reads the next ordinary frame from its length bytes `prefix` and the
    /// `frame_length` bytes `rest` that follow them: checks its tag, decrypts
    /// it and decodes its record, which may not be a header. A record that
    /// announces a payload block comes back without it (see `read_payload`).
    /// A failed read leaves the counters as they were.
    pub fn read_frame(&mut self, prefix: &[u8], rest: &[u8]) -> (r: Result<Frame, ReadError>)
        requires
            old(self).wf(),
            prefix@.len() == 4,
        ensures
            final(self).file_version_view() == old(self).file_version_view(),
            final(self).file_bytes_view() == old(self).file_bytes_view(),
            final(self).decrypter_view().key_view() == old(self).decrypter_view().key_view(),
            final(self).decrypter_view().mac_key_view() == old(self).decrypter_view().mac_key_view(),
            r is Err ==> final(self).count_frame_view() == old(self).count_frame_view()
                && final(self).count_byte_view() == old(self).count_byte_view(),
            r is Ok ==> final(self).wf(),
            ({
                let d = old(self).decrypter_view();
                let era1 = old(self).file_version_view() != 0;
                let expected = rest_length(prefix@, era1, d.key_view(), d.iv_view());
                let (ct, skip) = frame_ciphertext(prefix@, rest@, era1);
                let tag = trailing_tag(rest@);
                let plain = aes256_ctr_of(d.key_view(), d.iv_view(), ct).subrange(skip, ct.len() as int);
                let complete = expected == Some(rest@.len() as int);
                &&& !complete ==> (r is Err && final(self).decrypter_view().iv_view() == d.iv_view())
                &&& (complete && !tag_ok(d.mac_key_view(), ct, tag)) ==> (r matches Err(e) && (mac_failed(e)
                    || cipher_refused(e)) && final(self).decrypter_view().iv_view() == d.iv_view())
                &&& (complete && tag_ok(d.mac_key_view(), ct, tag) && holds_record(plain) && old(self).count_frame_view()
                    < usize::MAX) ==> (r is Ok || (r matches Err(e) && cipher_refused(e)))
                &&& (complete && tag_ok(d.mac_key_view(), ct, tag) && holds_header(plain)) ==> (r matches Err(e) && (
                    e is UnexpectedHeader || cipher_refused(e)))
                &&& r matches Err(ReadError::UnexpectedHeader) ==> holds_header(plain)
                &&& r matches Err(ReadError::Frame(_)) ==> complete && tag_ok(d.mac_key_view(), ct, tag) && !holds_record(
                    plain,
                ) && !holds_header(plain)
                &&& r matches Err(e) ==> !(e is NotAHeader || e is InvalidIv)
                &&& r matches Ok(f) ==> {
                    &&& complete
                    &&& tag_ok(d.mac_key_view(), ct, tag)
                    &&& holds_record(plain)
                    &&& decoded_record(plain, f)
                    &&& !(f is Header)
                    &&& !has_payload(f)
                    &&& final(self).decrypter_view().iv_view() == advanced_iv(d.iv_view())
                    &&& final(self).count_frame_view() == old(self).count_frame_view() + 1
                    &&& final(self).count_byte_view() == add_saturating(old(self).count_byte_view(), 4 + rest@.len() as int)
                }
            }),
    {
        let expected = match self.frame_length(prefix) {
            Ok(n) => n,
            Err(e) => return Err(e),
        };
        if rest.len() != expected {
            return Err(ReadError::InvalidLength { length: rest.len() });
        }
        let plain = match self.decrypt_frame(prefix, rest) {
            Ok(v) => v,
            Err(e) => return Err(e),
        };
        let ghost plain_view = plain@;
        let result = Frame::from_bytes(plain);
        let ghost m = choose|m: BackupFrame| frame_bytes_from(plain_view, m) && #[trigger] new_outcome(m, without_bytes(result));
        proof {
            if frame_bytes_ok(plain_view) {
                lemma_frame_message_unique(plain_view, m, message_of(plain_view));
            }
        }
        let frame = match result {
            Ok(Frame::Header { .. }) => return Err(ReadError::UnexpectedHeader),
            Ok(f) => f,
            Err(e) => return Err(ReadError::Frame(e)),
        };
        if self.count_frame == usize::MAX {
            return Err(ReadError::TooManyFrames);
        }
        self.count_frame = self.count_frame + 1;
        self.count_byte = add_count(self.count_byte, 4, rest.len());
        Ok(frame)
    }

    /// The length of the payload block that `frame` announces, if any: the
    /// caller then reads that many bytes and the ten-byte tag after them.
    pub fn payload_length(frame: &Frame) -> (r: Option<usize>)
        ensures
            r == payload_length_of(*frame),
    {
        match frame {
            Frame::Attachment { data_length, .. } => Some(*data_length),
            Frame::Avatar { data_length, .. } => Some(*data_length),
            Frame::Sticker { data_length, .. } => Some(*data_length),
            _ => None,
        }
    }

    /// Reads the payload block of an attachment, avatar or sticker record:
    /// `block` is its ciphertext followed by its tag. The tag covers the
    /// current IV followed by the ciphertext. The record comes back with the
    /// decrypted payload. A failed read leaves the counters as they were.
    pub fn read_payload(&mut self, frame: Frame, block: &[u8]) -> (r: Result<Frame, ReadError>)
        requires
            old(self).wf(),
            payload_length_of(frame) is Some,
            !has_payload(frame),
        ensures
            final(self).file_version_view() == old(self).file_version_view(),
            final(self).file_bytes_view() == old(self).file_bytes_view(),
            final(self).count_frame_view() == old(self).count_frame_view(),
            final(self).decrypter_view().key_view() == old(self).decrypter_view().key_view(),
            final(self).decrypter_view().mac_key_view() == old(self).decrypter_view().mac_key_view(),
            r is Err ==> final(self).count_byte_view() == old(self).count_byte_view(),
            r is Ok ==> final(self).wf(),
            ({
                let d = old(self).decrypter_view();
                let n = payload_length_of(frame).unwrap();
                let complete = block@.len() == n + LENGTH_HMAC;
                let ct = block@.subrange(0, n as int);
                let tag = trailing_tag(block@);
                &&& !complete ==> (r matches Err(ReadError::InvalidLength { .. }) && final(self).decrypter_view().iv_view()
                    == d.iv_view())
                &&& (complete && !tag_ok(d.mac_key_view(), d.iv_view() + ct, tag)) ==> (r matches Err(e) && (mac_failed(e)
                    || cipher_refused(e)) && final(self).decrypter_view().iv_view() == d.iv_view())
                &&& (complete && tag_ok(d.mac_key_view(), d.iv_view() + ct, tag)) ==> (r is Ok || (r matches Err(e)
                    && cipher_refused(e)))
                &&& r matches Err(e) ==> e is InvalidLength || mac_failed(e) || cipher_refused(e)
                &&& r matches Ok(f) ==> {
                    &&& complete
                    &&& tag_ok(d.mac_key_view(), d.iv_view() + ct, tag)
                    &&& same_record(frame, f)
                    &&& payload_of(f) matches Some(p)
                    &&& p@ == aes256_ctr_of(d.key_view(), d.iv_view(), ct)
                    &&& p@.len() == n
                    &&& final(self).decrypter_view().iv_view() == advanced_iv(d.iv_view())
                    &&& final(self).count_byte_view() == add_saturating(old(self).count_byte_view(), block@.len() as int)
                }
            }),
    {
        let n = match InputFile::payload_length(&frame) {
            Some(n) => n,
            None => return Ok(frame),
        };
        if block.len() < LENGTH_HMAC || block.len() - LENGTH_HMAC != n {
            return Err(ReadError::InvalidLength { length: block.len() });
        }
        let ct = bytes_range(block, 0, n);
        let tag = bytes_range(block, n, block.len());
        self.decrypter.mac_update_with_iv();
        let plain = match self.decrypter.decrypt(ct.as_slice(), true) {
            Ok(v) => v,
            Err(e) => return Err(ReadError::Decrypt(e)),
        };
        match self.decrypter.verify_mac(tag.as_slice()) {
            Ok(()) => {},
            Err(e) => return Err(ReadError::Decrypt(e)),
        }
        self.decrypter.increase_iv();
        let mut frame = frame;
        frame.set_data(plain);
        self.count_byte = add_count(self.count_byte, 0, block.len());
        Ok(frame)
    }

    /// How many records have been read, the header included.
    pub fn get_count_frame(&self) -> (r: usize)
        ensures
            r == self.count_frame_view(),
    {
        self.count_frame
    }

    /// How many bytes of the input completed reads have consumed.
    pub fn get_count_byte(&self) -> (r: u64)
        ensures
            r == self.count_byte_view(),
    {
        self.count_byte
    }

    /// The size of the whole input in bytes, as given when opening it.
    pub fn get_file_size(&self) -> (r: u64)
        ensures
            r == self.file_bytes_view(),
    {
        self.file_bytes
    }

    /// The file version announced by the header.
    pub fn get_file_version(&self) -> (r: u32)
        ensures
            r == self.file_version_view(),
    {
        self.file_version
    }
}

/// `n + extra + k`, saturating at the largest `u64`.
fn add_count(n: u64, extra: u64, k: usize) -> (r: u64)
    requires
        extra <= 4,
    ensures
        r == add_saturating(n, extra + k),
{
    let k = k as u64;
    if n > u64::MAX - extra || n + extra > u64::MAX - k {
        u64::MAX
    } else {
        n + extra + k
    }
}

/// The length of the payload block a record announces.
pub open spec fn payload_length_of(f: Frame) -> Option<usize> {
    match f {
        Frame::Attachment { data_length, .. } => Some(data_length),
        Frame::Avatar { data_length, .. } => Some(data_length),
        Frame::Sticker { data_length, .. } => Some(data_length),
        _ => None,
    }
}

/// The payload attached to a record.
pub open spec fn payload_of(f: Frame) -> Option<Vec<u8>> {
    match f {
        Frame::Attachment { data, .. } => data,
        Frame::Avatar { data, .. } => data,
        Frame::Sticker { data, .. } => data,
        _ => None,
    }
}

} // verus!
