//! The contract between the decoder and the sinks that persist its records.
use vstd::prelude::*;
use crate::frame::{Frame, KeyValueContent, SqlValue};

verus! {

/// A failure reported by a sink.
#[derive(Debug, PartialEq, Eq)]
pub struct SinkError {
    pub message: String,
}

/// Why a record could not be handed to a sink.
#[derive(Debug, PartialEq, Eq)]
pub enum WriteError {
    /// A header or end record, which are never forwarded.
    UnexpectedFrame,
    /// A payload-bearing record without its payload.
    MissingPayload,
    /// The sink failed.
    Sink(SinkError),
}

/// The kinds of output a run can write.
#[derive(Debug, Clone, Copy, PartialEq, Eq)]
pub enum SignalOutputType {
    /// Write nothing; only decode and authenticate.
    NoOutput,
    Raw,
    Csv,
}

/// A sink for decoded records; each call is independently fallible.
pub trait SignalOutput {
    /// The calls this sink has accepted, oldest first.
    closed spec fn received(&self) -> Seq<CallView> {
        Seq::empty()
    }

    fn write_statement(&mut self, statement: &str, parameters: &[SqlValue]) -> (r: Result<(), SinkError>)
        ensures
            final(self).received() == accepted(
                old(self).received(),
                CallView::Statement { statement: statement@, parameters: parameters@ },
                r is Ok,
            ),
    ;

    fn write_attachment(&mut self, data: &[u8], attachment_id: u64, row_id: u64) -> (r: Result<(), SinkError>)
        ensures
            final(self).received() == accepted(
                old(self).received(),
                CallView::Attachment { data: data@, attachment_id, row_id },
                r is Ok,
            ),
    ;

    fn write_sticker(&mut self, data: &[u8], row_id: u64) -> (r: Result<(), SinkError>)
        ensures
            final(self).received() == accepted(old(self).received(), CallView::Sticker { data: data@, row_id }, r is Ok),
    ;

    fn write_avatar(&mut self, data: &[u8], name: &str) -> (r: Result<(), SinkError>)
        ensures
            final(self).received() == accepted(
                old(self).received(),
                CallView::Avatar { data: data@, name: name@ },
                r is Ok,
            ),
    ;

    fn write_preference(&mut self, file: &str, key: &str, value: &str) -> (r: Result<(), SinkError>)
        ensures
            final(self).received() == accepted(
                old(self).received(),
                CallView::Preference { file: file@, key: key@, value: value@ },
                r is Ok,
            ),
    ;

    fn write_version(&mut self, version: u32) -> (r: Result<(), SinkError>)
        ensures
            final(self).received() == accepted(old(self).received(), CallView::Version { version }, r is Ok),
    ;

    fn write_key_value(&mut self, key: &str, value: &KeyValueContent) -> (r: Result<(), SinkError>)
        ensures
            final(self).received() == accepted(
                old(self).received(),
                CallView::KeyValue { key: key@, value: *value },
                r is Ok,
            ),
    ;

    /// How many records the sink has written, the header included.
    fn get_written_frames(&self) -> usize;

    /// Flushes and finalises what the sink has written.
    fn finish(&mut self) -> (r: Result<(), SinkError>)
        ensures
            final(self).received() == old(self).received(),
    ;
}

/// A sink call as a value: the method, named by the variant, and its arguments.
#[allow(inconsistent_fields)]
pub enum CallView {
    Statement { statement: Seq<char>, parameters: Seq<SqlValue> },
    Attachment { data: Seq<u8>, attachment_id: u64, row_id: u64 },
    Sticker { data: Seq<u8>, row_id: u64 },
    Avatar { data: Seq<u8>, name: Seq<char> },
    Preference { file: Seq<char>, key: Seq<char>, value: Seq<char> },
    Version { version: u32 },
    KeyValue { key: Seq<char>, value: KeyValueContent },
}

/// `calls` after one more call, which the sink accepted when `ok`.
pub open spec fn accepted(calls: Seq<CallView>, call: CallView, ok: bool) -> Seq<CallView> {
    if ok {
        calls.push(call)
    } else {
        calls
    }
}

/// One call on a sink: the method, named by the variant, and its arguments.
#[derive(Debug)]
#[allow(inconsistent_fields)]
pub enum SinkCall {
    Statement { statement: String, parameters: Vec<SqlValue> },
    Attachment { data: Vec<u8>, attachment_id: u64, row_id: u64 },
    Sticker { data: Vec<u8>, row_id: u64 },
    Avatar { data: Vec<u8>, name: String },
    Preference { file: String, key: String, value: String },
    Version { version: u32 },
    KeyValue { key: String, value: KeyValueContent },
}

/// A sink call as a value.
pub open spec fn call_view(c: SinkCall) -> CallView {
    match c {
        SinkCall::Statement { statement, parameters } => CallView::Statement {
            statement: statement@,
            parameters: parameters@,
        },
        SinkCall::Attachment { data, attachment_id, row_id } => CallView::Attachment { data: data@, attachment_id, row_id },
        SinkCall::Sticker { data, row_id } => CallView::Sticker { data: data@, row_id },
        SinkCall::Avatar { data, name } => CallView::Avatar { data: data@, name: name@ },
        SinkCall::Preference { file, key, value } => CallView::Preference { file: file@, key: key@, value: value@ },
        SinkCall::Version { version } => CallView::Version { version },
        SinkCall::KeyValue { key, value } => CallView::KeyValue { key: key@, value },
    }
}

/// The sink call that a forwardable record becomes: its fields, moved.
pub open spec fn call_of(frame: Frame) -> SinkCall {
    match frame {
        Frame::Statement { statement, parameter } => SinkCall::Statement { statement, parameters: parameter },
        Frame::Preference { file, key, value } => SinkCall::Preference { file, key, value },
        Frame::Attachment { id, row, data, .. } => SinkCall::Attachment {
            data: data.unwrap(),
            attachment_id: id,
            row_id: row,
        },
        Frame::Avatar { name, data, .. } => SinkCall::Avatar { data: data.unwrap(), name },
        Frame::Sticker { row, data, .. } => SinkCall::Sticker { data: data.unwrap(), row_id: row },
        Frame::Version { version } => SinkCall::Version { version },
        Frame::KeyValue { key, value } => SinkCall::KeyValue { key, value },
        _ => SinkCall::Version { version: 0 },
    }
}

/// A record that is handed to a sink: neither a header nor the end record,
/// and a payload-bearing record with its payload.
pub open spec fn forwardable(frame: Frame) -> bool {
    match frame {
        Frame::Header { .. } => false,
        Frame::End => false,
        Frame::Attachment { data, .. } => data is Some,
        Frame::Avatar { data, .. } => data is Some,
        Frame::Sticker { data, .. } => data is Some,
        _ => true,
    }
}

/// The sink call for a record: header and end records are never handed to
/// a sink, and a payload-bearing record needs its payload.
pub fn sink_call(frame: Frame) -> (r: Result<SinkCall, WriteError>)
    ensures
        forwardable(frame) ==> r == Ok::<SinkCall, WriteError>(call_of(frame)),
        (frame is Header || frame is End) ==> r == Err::<SinkCall, WriteError>(WriteError::UnexpectedFrame),
        !(frame is Header || frame is End) && !forwardable(frame) ==> r == Err::<SinkCall, WriteError>(
            WriteError::MissingPayload,
        ),
{
    match frame {
        Frame::Statement { statement, parameter } => Ok(SinkCall::Statement { statement, parameters: parameter }),
        Frame::Preference { file, key, value } => Ok(SinkCall::Preference { file, key, value }),
        Frame::Attachment { id, row, data, .. } => match data {
            Some(d) => Ok(SinkCall::Attachment { data: d, attachment_id: id, row_id: row }),
            None => Err(WriteError::MissingPayload),
        },
        Frame::Avatar { name, data, .. } => match data {
            Some(d) => Ok(SinkCall::Avatar { data: d, name }),
            None => Err(WriteError::MissingPayload),
        },
        Frame::Sticker { row, data, .. } => match data {
            Some(d) => Ok(SinkCall::Sticker { data: d, row_id: row }),
            None => Err(WriteError::MissingPayload),
        },
        Frame::Version { version } => Ok(SinkCall::Version { version }),
        Frame::KeyValue { key, value } => Ok(SinkCall::KeyValue { key, value }),
        Frame::Header { .. } => Err(WriteError::UnexpectedFrame),
        Frame::End => Err(WriteError::UnexpectedFrame),
    }
}

/// Makes `call` on the sink: the one method the call names, with its arguments.
pub fn deliver<O: SignalOutput>(output: &mut O, call: &SinkCall) -> (r: Result<(), WriteError>)
    ensures
        r matches Ok(()) || r matches Err(WriteError::Sink(_)),
        final(output).received() == accepted(old(output).received(), call_view(*call), r is Ok),
{
    let result = match call {
        SinkCall::Statement { statement, parameters } => output.write_statement(statement.as_str(), parameters.as_slice()),
        SinkCall::Attachment { data, attachment_id, row_id } => output.write_attachment(data.as_slice(), *attachment_id, *row_id),
        SinkCall::Sticker { data, row_id } => output.write_sticker(data.as_slice(), *row_id),
        SinkCall::Avatar { data, name } => output.write_avatar(data.as_slice(), name.as_str()),
        SinkCall::Preference { file, key, value } => output.write_preference(file.as_str(), key.as_str(), value.as_str()),
        SinkCall::Version { version } => output.write_version(*version),
        SinkCall::KeyValue { key, value } => output.write_key_value(key.as_str(), value),
    };
    match result {
        Ok(()) => Ok(()),
        Err(e) => Err(WriteError::Sink(e)),
    }
}

/// Hands one record to the sink method of its kind.
pub fn write_frame<O: SignalOutput>(output: &mut O, frame: Frame) -> (r: Result<(), WriteError>)
    ensures
        (frame is Header || frame is End) ==> r == Err::<(), WriteError>(WriteError::UnexpectedFrame),
        !(frame is Header || frame is End) && !forwardable(frame) ==> r == Err::<(), WriteError>(
            WriteError::MissingPayload,
        ),
        !forwardable(frame) ==> *final(output) == *old(output),
        forwardable(frame) ==> (r matches Ok(()) || r matches Err(WriteError::Sink(_))),
        forwardable(frame) ==> final(output).received() == accepted(
            old(output).received(),
            call_view(call_of(frame)),
            r is Ok,
        ),
{
    match sink_call(frame) {
        Ok(call) => {
            deliver(output, &call)
        },
        Err(e) => Err(e),
    }
}

} // verus!
