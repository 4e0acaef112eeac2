//! A sink that writes nothing; running a file through it checks its MACs.
use vstd::prelude::*;
use crate::frame::{KeyValueContent, SqlValue};
use crate::output::{CallView, SignalOutput, SinkError};

verus! {

/// Counts the records it is given and writes none of them.
pub struct SignalOutputNone {
    written_frames: usize,
    calls: Ghost<Seq<CallView>>,
}

/// The count a sink reports after the header and `calls` accepted calls.
pub open spec fn count_after(calls: nat) -> usize {
    if 1 + calls > usize::MAX {
        usize::MAX
    } else {
        (1 + calls) as usize
    }
}

impl SignalOutputNone {
    /// How many records have been counted, the header included.
    pub closed spec fn written(&self) -> usize {
        self.written_frames
    }

    /// The count is one for the header plus one for each accepted call.
    #[verifier::type_invariant]
    closed spec fn counts_calls(&self) -> bool {
        self.written_frames == count_after(self.calls@.len())
    }

    /// A sink that has counted only the header, which is never forwarded.
    pub fn new() -> (r: Self)
        ensures
            r.written() == 1,
            r.received() == Seq::<CallView>::empty(),
    {
        SignalOutputNone { written_frames: 1, calls: Ghost(Seq::empty()) }
    }

    /// How many records have been counted: one for the header plus one for
    /// each call the sink accepted.
    pub fn written_frames(&self) -> (r: usize)
        ensures
            r == self.written(),
            r == count_after(self.received().len()),
    {
        proof {
            use_type_invariant(self);
        }
        self.written_frames
    }

    fn count(&mut self, call: Ghost<CallView>)
        ensures
            final(self).received() == old(self).received().push(call@),
            final(self).written() == if old(self).written() < usize::MAX {
                (old(self).written() + 1) as usize
            } else {
                old(self).written()
            },
    {
        proof {
            use_type_invariant(&*self);
        }
        let next = if self.written_frames < usize::MAX {
            self.written_frames + 1
        } else {
            self.written_frames
        };
        let calls = Ghost(self.calls@.push(call@));
        *self = SignalOutputNone { written_frames: next, calls };
    }
}

impl SignalOutput for SignalOutputNone {
    closed spec fn received(&self) -> Seq<CallView> {
        self.calls@
    }


    fn write_statement(&mut self, _statement: &str, _parameters: &[SqlValue]) -> Result<(), SinkError> {
        self.count(Ghost(CallView::Statement { statement: _statement@, parameters: _parameters@ }));
        Ok(())
    }

    fn write_attachment(&mut self, _data: &[u8], _attachment_id: u64, _row_id: u64) -> Result<(), SinkError> {
        self.count(Ghost(CallView::Attachment { data: _data@, attachment_id: _attachment_id, row_id: _row_id }));
        Ok(())
    }

    fn write_sticker(&mut self, _data: &[u8], _row_id: u64) -> Result<(), SinkError> {
        self.count(Ghost(CallView::Sticker { data: _data@, row_id: _row_id }));
        Ok(())
    }

    fn write_avatar(&mut self, _data: &[u8], _name: &str) -> Result<(), SinkError> {
        self.count(Ghost(CallView::Avatar { data: _data@, name: _name@ }));
        Ok(())
    }

    fn write_preference(&mut self, _file: &str, _key: &str, _value: &str) -> Result<(), SinkError> {
        self.count(Ghost(CallView::Preference { file: _file@, key: _key@, value: _value@ }));
        Ok(())
    }

    fn write_version(&mut self, _version: u32) -> Result<(), SinkError> {
        self.count(Ghost(CallView::Version { version: _version }));
        Ok(())
    }

    fn write_key_value(&mut self, _key: &str, _value: &KeyValueContent) -> Result<(), SinkError> {
        self.count(Ghost(CallView::KeyValue { key: _key@, value: *_value }));
        Ok(())
    }

    /// The count `written_frames` reports.
    fn get_written_frames(&self) -> usize {
        self.written_frames()
    }

    fn finish(&mut self) -> Result<(), SinkError> {
        Ok(())
    }
}

} // verus!
