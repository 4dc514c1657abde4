//! Properties of line decoding that hold for all inputs.
use vstd::prelude::*;

use crate::hex::{
    all_hex_digits, digit_char, digit_value, encode_pairs, is_hex_digit, pairs_value,
};
use crate::record::{
    address_of, byte_sum, checksum_ok, decode_line, interpret, payload_of, Error, RecordView,
    DATA_TYPE, FRAME_LEN, START_CODE,
};

verus! {

/// The line that writes the record bytes `raw`: the start marker, then upper-case digit pairs.
pub open spec fn frame(raw: Seq<u8>) -> Seq<u8> {
    seq![START_CODE] + encode_pairs(raw)
}

/// Whether `line` is the start marker followed by digit pairs that write `raw`.
pub open spec fn writes_bytes(line: Seq<u8>, raw: Seq<u8>) -> bool {
    &&& line.len() >= 1
    &&& line[0] == START_CODE
    &&& (line.len() - 1) % 2 == 0
    &&& all_hex_digits(line.drop_first())
    &&& pairs_value(line.drop_first()) == raw
}

/// The byte that brings the sum of `s` to zero modulo 256.
pub open spec fn checksum_byte(s: Seq<u8>) -> u8 {
    ((256 - byte_sum(s) % 256) % 256) as u8
}

/// The bytes of a data record at `address` holding `payload`, checksum included.
pub open spec fn data_record(address: u16, payload: Seq<u8>) -> Seq<u8> {
    let body = seq![payload.len() as u8, (address / 256) as u8, (address % 256) as u8, DATA_TYPE]
        + payload;
    body.push(checksum_byte(body))
}

/// The line of a data record at `address` holding `payload`.
pub open spec fn data_line(address: u16, payload: Seq<u8>) -> Seq<u8> {
    frame(data_record(address, payload))
}

/// A digit below sixteen, written as a character, reads back as itself.
pub proof fn lemma_digit_char(v: nat)
    requires
        v < 16,
    ensures
        is_hex_digit(digit_char(v)),
        digit_value(digit_char(v)) == v,
{
}

/// Digit pairs written by `encode_pairs` read back as the bytes they were written from.
pub proof fn lemma_encode_pairs(raw: Seq<u8>)
    ensures
        all_hex_digits(encode_pairs(raw)),
        pairs_value(encode_pairs(raw)) == raw,
{
    let t = encode_pairs(raw);
    assert forall|j: int| 0 <= j < t.len() implies #[trigger] is_hex_digit(t[j]) by {
        lemma_digit_char((raw[j / 2] / 16) as nat);
        lemma_digit_char((raw[j / 2] % 16) as nat);
    }
    assert forall|k: int| 0 <= k < raw.len() implies #[trigger] pairs_value(t)[k] == raw[k] by {
        assert((2 * k) / 2 == k && (2 * k) % 2 == 0);
        assert((2 * k + 1) / 2 == k && (2 * k + 1) % 2 == 1);
        lemma_digit_char((raw[k] / 16) as nat);
        lemma_digit_char((raw[k] % 16) as nat);
    }
    assert(pairs_value(t) =~= raw);
}

/// The framed bytes of `raw` are written by its line.
pub proof fn lemma_frame_writes(raw: Seq<u8>)
    ensures
        writes_bytes(frame(raw), raw),
{
    lemma_encode_pairs(raw);
    assert(frame(raw).drop_first() =~= encode_pairs(raw));
}

/// A line that writes `raw` decodes to what `raw` stands for.
pub proof fn lemma_decode_written(line: Seq<u8>, raw: Seq<u8>)
    requires
        writes_bytes(line, raw),
    ensures
        decode_line(line) == interpret(raw),
{
}

/// The sum of a concatenation is the sum of its parts.
pub proof fn lemma_byte_sum_concat(a: Seq<u8>, b: Seq<u8>)
    ensures
        byte_sum(a + b) == byte_sum(a) + byte_sum(b),
    decreases b.len(),
{
    if b.len() == 0 {
        assert(a + b =~= a);
    } else {
        assert((a + b).drop_last() =~= a + b.drop_last());
        lemma_byte_sum_concat(a, b.drop_last());
    }
}

/// Replacing one byte changes the sum by the difference of the two bytes.
pub proof fn lemma_byte_sum_update(raw: Seq<u8>, k: int, v: u8)
    requires
        0 <= k < raw.len(),
    ensures
        byte_sum(raw.update(k, v)) == byte_sum(raw) - raw[k] + v,
    decreases raw.len(),
{
    let u = raw.update(k, v);
    if k == raw.len() - 1 {
        assert(u.drop_last() =~= raw.drop_last());
    } else {
        assert(u.drop_last() =~= raw.drop_last().update(k, v));
        lemma_byte_sum_update(raw.drop_last(), k, v);
    }
}

/// Round trip: the line of a data record at any address, with any payload of at most
/// 255 bytes and its checksum, decodes to exactly that address and payload.
pub proof fn lemma_data_line_round_trip(address: u16, payload: Seq<u8>)
    requires
        payload.len() <= 255,
    ensures
        decode_line(data_line(address, payload)) == Ok::<RecordView, Error>(
            RecordView::Data { address, data: payload },
        ),
{
    let body = seq![payload.len() as u8, (address / 256) as u8, (address % 256) as u8, DATA_TYPE]
        + payload;
    let raw = data_record(address, payload);
    lemma_frame_writes(raw);
    lemma_decode_written(data_line(address, payload), raw);
    lemma_byte_sum_concat(body, seq![checksum_byte(body)]);
    assert(body + seq![checksum_byte(body)] =~= raw);
    assert(byte_sum(seq![checksum_byte(body)]) == checksum_byte(body)) by {
        assert(seq![checksum_byte(body)].drop_last() =~= Seq::<u8>::empty());
        reveal_with_fuel(byte_sum, 2);
    }
    assert(checksum_ok(raw));
    assert(raw.len() == payload.len() + FRAME_LEN);
    assert(address_of(raw) == address);
    assert(payload_of(raw) =~= payload);
}

/// A single changed character after the start marker of a well-formed line, unless it is
/// another spelling of the same digit, makes the line fail with `NonHexData` or
/// `InvalidChecksum`: it is never accepted as another record.
pub proof fn lemma_single_change_detected(line: Seq<u8>, i: int, c: u8)
    requires
        decode_line(line) is Ok,
        1 <= i < line.len(),
        !(is_hex_digit(c) && digit_value(c) == digit_value(line[i])),
    ensures
        decode_line(line.update(i, c)) == Err::<RecordView, Error>(Error::NonHexData)
            || decode_line(line.update(i, c)) == Err::<RecordView, Error>(Error::InvalidChecksum),
{
    let changed = line.update(i, c);
    let body = line.drop_first();
    let body2 = changed.drop_first();
    assert(body2 =~= body.update(i - 1, c));
    assert(changed[0] == START_CODE);
    if !is_hex_digit(c) {
        assert(!is_hex_digit(body2[i - 1]));
    } else {
        let raw = pairs_value(body);
        let raw2 = pairs_value(body2);
        let k = (i - 1) / 2;
        assert(is_hex_digit(body[i - 1]));
        assert forall|j: int| 0 <= j < body2.len() implies #[trigger] is_hex_digit(body2[j]) by {
            if j != i - 1 {
                assert(is_hex_digit(body[j]));
            }
        }
        assert(0 <= k < raw.len());
        assert(raw2 =~= raw.update(k, raw2[k]));
        lemma_byte_sum_update(raw, k, raw2[k]);
        assert(is_hex_digit(body[2 * k]) && is_hex_digit(body[2 * k + 1]));
        let d = digit_value(c) - digit_value(line[i]);
        assert(digit_value(c) < 16 && digit_value(line[i]) < 16);
        assert(digit_value(body[2 * k]) < 16 && digit_value(body[2 * k + 1]) < 16);
        if (i - 1) % 2 == 0 {
            assert(raw2[k] - raw[k] == 16 * d);
        } else {
            assert(raw2[k] - raw[k] == d);
        }
        assert(byte_sum(raw) % 256 == 0);
        assert(byte_sum(raw2) % 256 != 0) by (nonlinear_arith)
            requires
                byte_sum(raw2) == byte_sum(raw) - raw[k] + raw2[k],
                byte_sum(raw) % 256 == 0,
                raw2[k] - raw[k] == 16 * d || raw2[k] - raw[k] == d,
                -16 < d < 16,
                d != 0,
        ;
    }
}

/// The start marker is checked first: a line that lacks it fails with
/// `IncorrectInitialCharacter` whatever its length, odd or even.
pub proof fn lemma_start_marker_first(line: Seq<u8>)
    requires
        line.len() == 0 || line[0] != START_CODE,
    ensures
        decode_line(line) == Err::<RecordView, Error>(Error::IncorrectInitialCharacter),
{
}

/// A line that writes fewer than five bytes fails with `IncompleteLine`, even where
/// those bytes sum to zero.
pub proof fn lemma_short_line_incomplete(line: Seq<u8>, raw: Seq<u8>)
    requires
        writes_bytes(line, raw),
        raw.len() < FRAME_LEN,
        checksum_ok(raw),
    ensures
        decode_line(line) == Err::<RecordView, Error>(Error::IncompleteLine),
{
}

/// A line whose checksum passes but whose length byte differs from the number of
/// payload bytes fails with `MismatchedDataLength`.
pub proof fn lemma_length_mismatch(line: Seq<u8>, raw: Seq<u8>)
    requires
        writes_bytes(line, raw),
        raw.len() >= FRAME_LEN,
        checksum_ok(raw),
        raw[0] as int != raw.len() - FRAME_LEN,
    ensures
        decode_line(line) == Err::<RecordView, Error>(Error::MismatchedDataLength),
{
}

} // verus!
