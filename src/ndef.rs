//! Parser for the NDEF records stored in tag memory.
use vstd::prelude::*;
use vstd::slice::slice_subrange;
use vstd::string::StringSliceAdditionalSpecFns;
use vstd::utf8::valid_utf8;

verus! {

/// One NDEF record. Text fields and raw bytes borrow from the parsed buffer.
#[derive(Clone, Copy, Debug, PartialEq, Eq)]
pub enum Record<'d> {
    Empty,
    WellKnown,
    MimeMedia { media_type: &'d str, value: &'d str },
    AbsoluteUri,
    External,
    Unknown,
    Unchanged,
    Unexpected(&'d [u8]),
}

/// Errors of the record parser.
#[derive(Clone, Copy, Debug, PartialEq, Eq, Structural)]
pub enum Error {
    NotFormatted,
    UnderflowHeader,
    UnderflowPayload,
    Utf8,
}

/// The flags byte that opens every record header.
#[derive(Clone, Copy, Debug, PartialEq, Eq, Structural)]
pub struct RecordHeaderFlags(pub u8);

impl RecordHeaderFlags {
    /// Type-name-format field, bits 0 to 2.
    pub fn tnf(&self) -> (r: u8)
        ensures
            r == self.0 & 0x07,
    {
        self.0 & 0b0000_0111
    }

    /// Whether an id-length byte is present, bit 3.
    pub fn has_id_length(&self) -> (r: bool)
        ensures
            r == flag_set(self.0, 0x08),
    {
        self.0 & 0b0000_1000 > 0
    }

    /// Whether the payload length is one byte rather than four, bit 4.
    pub fn is_short_record(&self) -> (r: bool)
        ensures
            r == flag_set(self.0, 0x10),
    {
        self.0 & 0b0001_0000 > 0
    }

    /// Chunk flag, bit 5.
    pub fn chunk(&self) -> (r: bool)
        ensures
            r == flag_set(self.0, 0x20),
    {
        self.0 & 0b0010_0000 > 0
    }

    /// Message-end flag, bit 6.
    pub fn message_end(&self) -> (r: bool)
        ensures
            r == flag_set(self.0, 0x40),
    {
        self.0 & 0b0100_0000 > 0
    }

    /// Message-begin flag, bit 7.
    pub fn message_begin(&self) -> (r: bool)
        ensures
            r == flag_set(self.0, 0x80),
    {
        self.0 & 0b1000_0000 > 0
    }
}

/// Whether `flags` has the bit of `mask` set.
pub open spec fn flag_set(flags: u8, mask: u8) -> bool {
    flags & mask > 0
}

/// Length of the record header announced by `flags`: flags byte, type
/// length, payload length (one byte for a short record, else four) and the
/// optional id length.
pub open spec fn header_len(flags: u8) -> int {
    2 + (if flag_set(flags, 0x10) {
        1int
    } else {
        4int
    }) + (if flag_set(flags, 0x08) {
        1int
    } else {
        0int
    })
}

/// Four bytes read as a big-endian unsigned integer.
pub open spec fn be_u32(b0: u8, b1: u8, b2: u8, b3: u8) -> int {
    b0 * 0x100_0000 + b1 * 0x1_0000 + b2 * 0x100 + b3
}

/// Type length of the record at `p`.
pub open spec fn type_len(data: Seq<u8>, p: int) -> int {
    data[p + 1] as int
}

/// Payload length of the record at `p`.
pub open spec fn payload_len(data: Seq<u8>, p: int) -> int {
    if flag_set(data[p], 0x10) {
        data[p + 2] as int
    } else {
        be_u32(data[p + 2], data[p + 3], data[p + 4], data[p + 5])
    }
}

/// Id length of the record at `p`: zero unless its flags announce one.
pub open spec fn id_len(data: Seq<u8>, p: int) -> int {
    if flag_set(data[p], 0x08) {
        data[p + header_len(data[p]) - 1] as int
    } else {
        0
    }
}

/// Total length of the record at `p`, header included.
pub open spec fn total_len(data: Seq<u8>, p: int) -> int {
    header_len(data[p]) + type_len(data, p) + payload_len(data, p) + id_len(data, p)
}

/// The bytes of the type field of the record at `p`.
pub open spec fn type_bytes(data: Seq<u8>, p: int) -> Seq<u8> {
    let start = p + header_len(data[p]);
    data.subrange(start, start + type_len(data, p))
}

/// The bytes of the payload of the record at `p`, which follow its type and
/// id fields.
pub open spec fn value_bytes(data: Seq<u8>, p: int) -> Seq<u8> {
    let start = p + header_len(data[p]) + type_len(data, p) + id_len(data, p);
    data.subrange(start, start + payload_len(data, p))
}

/// A blank tag: its first four bytes are all 0xFF.
pub open spec fn is_unformatted(data: Seq<u8>) -> bool {
    data.len() >= 4 && data[0] == 0xFF && data[1] == 0xFF && data[2] == 0xFF && data[3] == 0xFF
}

/// Where the first record starts: after the NDEF TLV's tag and length, with
/// the TLV either at offset 0 or after one preceding TLV of five bytes.
pub open spec fn start_offset(data: Seq<u8>) -> int {
    if data[0] == 0x03 {
        2
    } else if data[5] == 0x03 {
        7
    } else {
        0
    }
}

/// Progress of a parse.
#[derive(Clone, Copy, Debug, PartialEq, Eq, Structural)]
pub enum IterState {
    Fresh,
    Reading,
    Complete,
}

/// What one step does when the record under the cursor starts at `p`:
/// `Ok(true)` when it yields a record, else the error, with the state and
/// cursor after the step.
pub open spec fn record_outcome(data: Seq<u8>, p: int) -> (Result<bool, Error>, IterState, int) {
    if p >= data.len() || data.len() - p < header_len(data[p]) {
        (Err(Error::UnderflowHeader), IterState::Reading, p)
    } else if data.len() - p < total_len(data, p) {
        (Err(Error::UnderflowPayload), IterState::Reading, p)
    } else if data[p] & 0x07 == 2 && !(valid_utf8(type_bytes(data, p)) && valid_utf8(
        value_bytes(data, p),
    )) {
        (Err(Error::Utf8), IterState::Reading, p)
    } else {
        (
            Ok(true),
            if flag_set(data[p], 0x40) {
                IterState::Complete
            } else {
                IterState::Reading
            },
            p + total_len(data, p),
        )
    }
}

/// What one step does from `state` with the cursor at `pos`.
pub open spec fn step_outcome(data: Seq<u8>, state: IterState, pos: int) -> (
    Result<bool, Error>,
    IterState,
    int,
) {
    match state {
        IterState::Complete => (Ok(false), IterState::Complete, pos),
        IterState::Fresh => {
            if is_unformatted(data) {
                (Err(Error::NotFormatted), IterState::Fresh, pos)
            } else if data.len() < 8 {
                (Err(Error::UnderflowHeader), IterState::Fresh, pos)
            } else {
                record_outcome(data, start_offset(data))
            }
        },
        IterState::Reading => record_outcome(data, pos),
    }
}

/// Where the record read by a step from `state` at `pos` starts.
pub open spec fn record_pos(data: Seq<u8>, state: IterState, pos: int) -> int {
    match state {
        IterState::Fresh => start_offset(data),
        _ => pos,
    }
}

/// `rec` is the record stored at `p`, interpreted by its type-name format.
pub open spec fn record_of(rec: Record, data: Seq<u8>, p: int) -> bool {
    let tnf = data[p] & 0x07;
    if tnf == 0 {
        rec is Empty
    } else if tnf == 2 {
        rec matches Record::MimeMedia { media_type, value } && media_type.spec_bytes()
            == type_bytes(data, p) && value.spec_bytes() == value_bytes(data, p)
    } else if tnf == 5 {
        rec is Unknown
    } else {
        rec matches Record::Unexpected(raw) && raw@ == data.subrange(p, p + total_len(data, p))
    }
}

/// `r` is what the step described by `outcome` returns for a record at `p`.
pub open spec fn agrees(r: Result<Option<Record>, Error>, outcome: Result<bool, Error>, data: Seq<u8>, p: int) -> bool {
    match (r, outcome) {
        (Ok(None), Ok(false)) => true,
        (Ok(Some(rec)), Ok(true)) => record_of(rec, data, p),
        (Err(e), Err(e2)) => e == e2,
        _ => false,
    }
}

/// Relies on core::str::from_utf8: it accepts exactly the byte sequences
/// that are valid UTF-8, and the string it returns holds the same bytes.
#[verifier::external_body]
fn utf8_text(bytes: &[u8]) -> (r: Option<&str>)
    ensures
        r is Some <==> valid_utf8(bytes@),
        r matches Some(s) ==> s.spec_bytes() == bytes@,
{
    core::str::from_utf8(bytes).ok()
}

/// A buffer of tag memory holding an NDEF message.
pub struct Reader<'d> {
    data: &'d [u8],
}

impl<'d> Reader<'d> {
    /// The buffer to parse.
    pub closed spec fn bytes(&self) -> Seq<u8> {
        self.data@
    }

    pub fn new(data: &'d [u8]) -> (r: Self)
        ensures
            r.bytes() == data@,
    {
        Self { data }
    }

    /// Starts a parse at the beginning of the buffer.
    pub fn into_iter(self) -> (r: ReaderIter<'d>)
        ensures
            r.bytes() == self.bytes(),
            r.state() == IterState::Fresh,
            r.cursor() == 0,
            r.wf(),
    {
        ReaderIter { data: self.data, position: 0, state: IterState::Fresh }
    }
}

/// A parse in progress: yields the records of the buffer one by one.
pub struct ReaderIter<'d> {
    data: &'d [u8],
    position: usize,
    state: IterState,
}

impl<'d> ReaderIter<'d> {
    /// The buffer being parsed.
    pub closed spec fn bytes(&self) -> Seq<u8> {
        self.data@
    }

    /// The parse state.
    pub closed spec fn state(&self) -> IterState {
        self.state
    }

    /// Offset of the next record in the buffer.
    pub closed spec fn cursor(&self) -> int {
        self.position as int
    }

    /// Whether the cursor stays within the buffer.
    pub closed spec fn wf(&self) -> bool {
        self.position <= self.data@.len()
    }

    fn is_unformatted(&self) -> (r: bool)
        ensures
            r == is_unformatted(self.data@),
    {
        self.data.len() >= 4 && self.data[0] == 0xFF && self.data[1] == 0xFF && self.data[2]
            == 0xFF && self.data[3] == 0xFF
    }

    /// Reads the next record. `Ok(None)` means the message is complete: a
    /// record with the message-end flag has been read. A buffer that ends
    /// before such a record fails with `UnderflowHeader`.
    pub fn try_next(&mut self) -> (r: Result<Option<Record<'d>>, Error>)
        requires
            old(self).wf(),
        ensures
            final(self).wf(),
            final(self).bytes() == old(self).bytes(),
            ({
                let (outcome, state, pos) = step_outcome(
                    old(self).bytes(),
                    old(self).state(),
                    old(self).cursor(),
                );
                &&& final(self).state() == state
                &&& final(self).cursor() == pos
                &&& agrees(
                    r,
                    outcome,
                    old(self).bytes(),
                    record_pos(old(self).bytes(), old(self).state(), old(self).cursor()),
                )
            }),
    {
        match self.state {
            IterState::Complete => {
                return Ok(None);
            },
            IterState::Reading => {},
            IterState::Fresh => {
                if self.is_unformatted() {
                    // the state stays Fresh: asking again gives the same answer
                    return Err(Error::NotFormatted);
                }
                if self.data.len() < 8 {
                    return Err(Error::UnderflowHeader);
                }
                if self.data[0] == 0x03 {
                    self.position = 2;
                } else if self.data[5] == 0x03 {
                    self.position = 7;
                } else {
                    self.position = 0;
                }
                self.state = IterState::Reading;
            },
        }

        let (r, state, position) = read_record(self.data, self.position);
        self.state = state;
        self.position = position;
        r
    }

    /// The next item, with the error, if any, inside the item.
    pub fn next(&mut self) -> (r: Option<Result<Record<'d>, Error>>)
        requires
            old(self).wf(),
        ensures
            final(self).wf(),
            final(self).bytes() == old(self).bytes(),
            ({
                let (outcome, state, pos) = step_outcome(
                    old(self).bytes(),
                    old(self).state(),
                    old(self).cursor(),
                );
                let at = record_pos(old(self).bytes(), old(self).state(), old(self).cursor());
                &&& final(self).state() == state
                &&& final(self).cursor() == pos
                &&& match r {
                    None => agrees(Ok(None), outcome, old(self).bytes(), at),
                    Some(Ok(rec)) => agrees(Ok(Some(rec)), outcome, old(self).bytes(), at),
                    Some(Err(e)) => agrees(Err(e), outcome, old(self).bytes(), at),
                }
            }),
    {
        match self.try_next() {
            Ok(None) => None,
            Ok(Some(rec)) => Some(Ok(rec)),
            Err(e) => Some(Err(e)),
        }
    }
}

/// Header length of a record with these flags.
fn header_length(flags: RecordHeaderFlags) -> (r: usize)
    ensures
        r == header_len(flags.0),
{
    let mut len: usize = 2;
    if flags.is_short_record() {
        len += 1;
    } else {
        len += 4;
    }
    if flags.has_id_length() {
        len += 1;
    }
    len
}

/// Total length of the record at `p`, whose header lies within `data`.
fn record_length(data: &[u8], p: usize) -> (r: u64)
    requires
        p < data@.len(),
        data@.len() - p >= header_len(data@[p as int]),
    ensures
        r == total_len(data@, p as int),
{
    let flags = RecordHeaderFlags(data[p]);
    let header = header_length(flags);
    let type_len = data[p + 1] as u64;
    let payload_len: u64 = if flags.is_short_record() {
        data[p + 2] as u64
    } else {
        data[p + 2] as u64 * 0x100_0000 + data[p + 3] as u64 * 0x1_0000 + data[p + 4] as u64
            * 0x100 + data[p + 5] as u64
    };
    let id_len: u64 = if flags.has_id_length() {
        data[p + header - 1] as u64
    } else {
        0
    };
    header as u64 + type_len + payload_len + id_len
}

/// Reads the record at `p` and returns the step's result with the state and
/// cursor after it.
fn read_record<'d>(data: &'d [u8], p: usize) -> (r: (Result<Option<Record<'d>>, Error>, IterState, usize))
    requires
        p <= data@.len(),
    ensures
        r.2 <= data@.len(),
        ({
            let (outcome, state, pos) = record_outcome(data@, p as int);
            &&& r.1 == state
            &&& r.2 == pos
            &&& agrees(r.0, outcome, data@, p as int)
        }),
{
    if p >= data.len() {
        return (Err(Error::UnderflowHeader), IterState::Reading, p);
    }
    let flags = RecordHeaderFlags(data[p]);
    let header = header_length(flags);
    if data.len() - p < header {
        return (Err(Error::UnderflowHeader), IterState::Reading, p);
    }
    let total = record_length(data, p);
    if ((data.len() - p) as u64) < total {
        return (Err(Error::UnderflowPayload), IterState::Reading, p);
    }
    let total = total as usize;
    let tnf = flags.tnf();
    let result = if tnf == 0x00 {
        Record::Empty
    } else if tnf == 0x02 {
        let start = p + header;
        let type_end = start + data[p + 1] as usize;
        let id_len: usize = if flags.has_id_length() {
            data[p + header - 1] as usize
        } else {
            0
        };
        let value_start = type_end + id_len;
        let value_end = p + total;
        let kind = utf8_text(slice_subrange(data, start, type_end));
        let value = utf8_text(slice_subrange(data, value_start, value_end));
        match (kind, value) {
            (Some(media_type), Some(value)) => Record::MimeMedia { media_type, value },
            _ => {
                return (Err(Error::Utf8), IterState::Reading, p);
            },
        }
    } else if tnf == 0x05 {
        Record::Unknown
    } else {
        Record::Unexpected(slice_subrange(data, p, p + total))
    };
    let state = if flags.message_end() {
        IterState::Complete
    } else {
        IterState::Reading
    };
    (Ok(Some(result)), state, p + total)
}

/// Once a record with the message-end flag has been read the parse is
/// complete: every later step yields nothing, whatever bytes remain.
pub proof fn lemma_message_end_halts(data: Seq<u8>, state: IterState, pos: int)
    requires
        step_outcome(data, state, pos).0 == Ok::<bool, Error>(true),
        flag_set(data[record_pos(data, state, pos)], 0x40),
    ensures
        step_outcome(data, state, pos).1 == IterState::Complete,
        forall|q: int|
            step_outcome(data, IterState::Complete, q) == (
                Ok::<bool, Error>(false),
                IterState::Complete,
                q,
            ),
{
}

/// A step that fails leaves the parse where the next step fails the same
/// way: no record is ever produced after an error.
pub proof fn lemma_error_repeats(data: Seq<u8>, state: IterState, pos: int)
    requires
        step_outcome(data, state, pos).0 is Err,
    ensures
        ({
            let (outcome, next_state, next_pos) = step_outcome(data, state, pos);
            step_outcome(data, next_state, next_pos) == (outcome, next_state, next_pos)
        }),
{
}

} // verus!
