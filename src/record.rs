//! One Intel HEX line decoded into a record, or the first invariant it breaks.
use vstd::prelude::*;
use vstd::string::StringSliceAdditionalSpecFns;

use crate::hex::{all_hex_digits, decode_pairs, pairs_value};

verus! {

/// The ASCII code of the start marker `:`.
pub const START_CODE: u8 = 0x3A;

/// Bytes of a record besides its payload: length, two address bytes, type, checksum.
pub const FRAME_LEN: usize = 5;

/// Record type of a data record.
pub const DATA_TYPE: u8 = 0x00;

/// Record type of the end-of-file record.
pub const END_OF_FILE_TYPE: u8 = 0x01;

/// A decoded line.
#[derive(Debug, Clone, PartialEq, Eq)]
pub enum Record {
    /// A chunk of the image, to be placed at `address`.
    Data { address: u16, data: Vec<u8> },
    /// The end of the image.
    EndOfFile,
}

/// Why a line was refused; the variants follow the order in which they are checked.
#[derive(Debug, Clone, Copy, PartialEq, Eq, Structural)]
pub enum Error {
    /// The line does not start with `:`.
    IncorrectInitialCharacter,
    /// An odd number of bytes follows the `:`.
    OddNumberOfBytes,
    /// A byte after the `:` is not a hexadecimal digit.
    NonHexData,
    /// The decoded bytes do not sum to zero modulo 256.
    InvalidChecksum,
    /// Fewer than five bytes were decoded.
    IncompleteLine,
    /// The length byte disagrees with the number of payload bytes.
    MismatchedDataLength,
    /// The record type is neither data nor end of file.
    UnsupportedRecordType(u8),
}

/// The mathematical value of a `Record`.
pub enum RecordView {
    Data { address: u16, data: Seq<u8> },
    EndOfFile,
}

impl View for Record {
    type V = RecordView;

    open spec fn view(&self) -> RecordView {
        match self {
            Record::Data { address, data } => RecordView::Data { address: *address, data: data@ },
            Record::EndOfFile => RecordView::EndOfFile,
        }
    }
}

/// The value of a decoding result.
pub open spec fn result_view(r: Result<Record, Error>) -> Result<RecordView, Error> {
    match r {
        Ok(rec) => Ok(rec@),
        Err(e) => Err(e),
    }
}

/// The sum of `raw`, as an unbounded integer.
pub open spec fn byte_sum(raw: Seq<u8>) -> nat
    decreases raw.len(),
{
    if raw.len() == 0 {
        0
    } else {
        byte_sum(raw.drop_last()) + raw.last() as nat
    }
}

/// Whether the bytes of a record sum to zero modulo 256.
pub open spec fn checksum_ok(raw: Seq<u8>) -> bool {
    byte_sum(raw) % 256 == 0
}

/// The big-endian address held in `raw[1]` and `raw[2]`.
pub open spec fn address_of(raw: Seq<u8>) -> u16 {
    (raw[1] * 256 + raw[2]) as u16
}

/// The payload of a record: what stands between the type byte and the checksum.
pub open spec fn payload_of(raw: Seq<u8>) -> Seq<u8> {
    raw.subrange(4, raw.len() - 1)
}

/// What the decoded bytes of a line stand for: checksum, size, length byte, then type.
pub open spec fn interpret(raw: Seq<u8>) -> Result<RecordView, Error> {
    if !checksum_ok(raw) {
        Err(Error::InvalidChecksum)
    } else if raw.len() < FRAME_LEN {
        Err(Error::IncompleteLine)
    } else if raw[0] as int != raw.len() - FRAME_LEN {
        Err(Error::MismatchedDataLength)
    } else if raw[3] == DATA_TYPE {
        Ok(RecordView::Data { address: address_of(raw), data: payload_of(raw) })
    } else if raw[3] == END_OF_FILE_TYPE {
        Ok(RecordView::EndOfFile)
    } else {
        Err(Error::UnsupportedRecordType(raw[3]))
    }
}

/// What a line, given as its bytes, decodes to.
pub open spec fn decode_line(line: Seq<u8>) -> Result<RecordView, Error> {
    if line.len() == 0 || line[0] != START_CODE {
        Err(Error::IncorrectInitialCharacter)
    } else if (line.len() - 1) % 2 != 0 {
        Err(Error::OddNumberOfBytes)
    } else if !all_hex_digits(line.drop_first()) {
        Err(Error::NonHexData)
    } else {
        interpret(pairs_value(line.drop_first()))
    }
}

/// The sum of `raw` modulo 256.
pub fn checksum(raw: &[u8]) -> (r: u8)
    ensures
        r as nat == byte_sum(raw@) % 256,
{
    let mut acc: u8 = 0;
    let mut i: usize = 0;
    while i < raw.len()
        invariant
            i <= raw@.len(),
            acc as nat == byte_sum(raw@.take(i as int)) % 256,
        decreases raw@.len() - i,
    {
        proof {
            assert(raw@.take(i + 1).drop_last() =~= raw@.take(i as int));
        }
        acc = acc.wrapping_add(raw[i]);
        i = i + 1;
    }
    proof {
        assert(raw@.take(i as int) =~= raw@);
    }
    acc
}

/// A copy of `raw[start..end]`.
fn copy_range(raw: &[u8], start: usize, end: usize) -> (r: Vec<u8>)
    requires
        start <= end <= raw@.len(),
    ensures
        r@ == raw@.subrange(start as int, end as int),
{
    let mut out: Vec<u8> = Vec::new();
    let mut i: usize = start;
    while i < end
        invariant
            start <= i <= end <= raw@.len(),
            out@ == raw@.subrange(start as int, i as int),
        decreases end - i,
    {
        out.push(raw[i]);
        i = i + 1;
        proof {
            assert(out@ =~= raw@.subrange(start as int, i as int));
        }
    }
    out
}

/// Interprets the decoded bytes of a line.
fn record_from_raw(raw: &[u8]) -> (r: Result<Record, Error>)
    ensures
        result_view(r) == interpret(raw@),
{
    if checksum(raw) != 0 {
        return Err(Error::InvalidChecksum);
    }
    if raw.len() < FRAME_LEN {
        return Err(Error::IncompleteLine);
    }
    let len = raw[0];
    let address: u16 = raw[1] as u16 * 256 + raw[2] as u16;
    let kind = raw[3];
    let end = raw.len() - 1;
    if len as usize != end - 4 {
        return Err(Error::MismatchedDataLength);
    }
    if kind == DATA_TYPE {
        let data = copy_range(raw, 4, end);
        Ok(Record::Data { address, data })
    } else if kind == END_OF_FILE_TYPE {
        Ok(Record::EndOfFile)
    } else {
        Err(Error::UnsupportedRecordType(kind))
    }
}

impl Record {
    /// Decodes one line, without its line terminator.
    pub fn from_str(s: &str) -> (r: Result<Record, Error>)
        ensures
            result_view(r) == decode_line(s.spec_bytes()),
    {
        Record::from_bytes(s.as_bytes())
    }

    /// Decodes one line given as its bytes, without its line terminator.
    pub fn from_bytes(line: &[u8]) -> (r: Result<Record, Error>)
        ensures
            result_view(r) == decode_line(line@),
    {
        if line.len() == 0 || line[0] != START_CODE {
            return Err(Error::IncorrectInitialCharacter);
        }
        if (line.len() - 1) % 2 != 0 {
            return Err(Error::OddNumberOfBytes);
        }
        proof {
            assert(line@.subrange(1, line@.len() as int) =~= line@.drop_first());
        }
        match decode_pairs(line, 1) {
            None => Err(Error::NonHexData),
            Some(raw) => record_from_raw(raw.as_slice()),
        }
    }
}

impl std::str::FromStr for Record {
    type Err = Error;

    /// Same as the inherent `Record::from_str`.
    fn from_str(s: &str) -> Result<Record, Error> {
        Record::from_str(s)
    }
}

} // verus!
