use intel_hex::hex::{decode_pairs, hex_digit};
use intel_hex::record::{checksum, Error, Record};

#[test]
fn sample_data_line() {
    let r = Record::from_str(":10010000214601360121470136007EFE09D2190140");
    assert_eq!(
        r,
        Ok(Record::Data {
            address: 0x0100,
            data: vec![
                0x21, 0x46, 0x01, 0x36, 0x01, 0x21, 0x47, 0x01, 0x36, 0x00, 0x7E, 0xFE, 0x09, 0xD2,
                0x19, 0x01
            ],
        })
    );
}

#[test]
fn end_of_file_line() {
    assert_eq!(Record::from_str(":00000001FF"), Ok(Record::EndOfFile));
}

#[test]
fn empty_data_payload() {
    assert_eq!(
        Record::from_str(":00AAAA00AC"),
        Ok(Record::Data { address: 0xAAAA, data: vec![] })
    );
}

#[test]
fn lower_case_digits_accepted() {
    assert_eq!(
        Record::from_str(":00aaaa00ac"),
        Ok(Record::Data { address: 0xAAAA, data: vec![] })
    );
}

#[test]
fn built_lines_round_trip() {
    let cases: Vec<(u16, Vec<u8>)> = vec![
        (0x0000, vec![]),
        (0x1234, vec![0xDE, 0xAD]),
        (0xFFFF, vec![0xFF; 255]),
        (0x8001, (0u8..=31).collect()),
    ];
    for (address, payload) in cases {
        let mut raw = vec![payload.len() as u8, (address >> 8) as u8, address as u8, 0x00];
        raw.extend_from_slice(&payload);
        let sum = raw.iter().fold(0u8, |a, &v| a.wrapping_add(v));
        raw.push(sum.wrapping_neg());
        let mut line = String::from(":");
        for b in &raw {
            line.push_str(&format!("{:02X}", b));
        }
        assert_eq!(
            Record::from_str(&line),
            Ok(Record::Data { address, data: payload.clone() })
        );
    }
}

#[test]
fn known_checksum_line() {
    assert_eq!(
        Record::from_str(":02123400DEAD2D"),
        Ok(Record::Data { address: 0x1234, data: vec![0xDE, 0xAD] })
    );
}

#[test]
fn missing_start_marker_with_odd_length() {
    assert_eq!(Record::from_str("0000001FF"), Err(Error::IncorrectInitialCharacter));
}

#[test]
fn empty_line() {
    assert_eq!(Record::from_str(""), Err(Error::IncorrectInitialCharacter));
}

#[test]
fn wrong_start_marker() {
    assert_eq!(Record::from_str(";00000001FF"), Err(Error::IncorrectInitialCharacter));
}

#[test]
fn odd_number_of_digits() {
    assert_eq!(Record::from_str(":0"), Err(Error::OddNumberOfBytes));
    assert_eq!(Record::from_str(":00000001F"), Err(Error::OddNumberOfBytes));
}

#[test]
fn non_hex_digit() {
    assert_eq!(Record::from_str(":0G"), Err(Error::NonHexData));
    assert_eq!(Record::from_str(":00000001 F"), Err(Error::NonHexData));
}

#[test]
fn non_ascii_text() {
    assert_eq!(Record::from_str(":\u{e9}"), Err(Error::NonHexData));
}

#[test]
fn bad_checksum() {
    assert_eq!(Record::from_str(":00000001FE"), Err(Error::InvalidChecksum));
}

#[test]
fn changed_digit_detected() {
    assert_eq!(
        Record::from_str(":10010000214601360121470136007EFE09D2190141"),
        Err(Error::InvalidChecksum)
    );
    assert_eq!(
        Record::from_str(":10010000214601360121470136007EFE09D2191140"),
        Err(Error::InvalidChecksum)
    );
    assert_eq!(
        Record::from_str(":1001000021460136012147013600ZEFE09D2190140"),
        Err(Error::NonHexData)
    );
}

#[test]
fn every_single_change_detected() {
    let line = ":10010000214601360121470136007EFE09D2190140";
    let digits = "0123456789ABCDEFabcdefGz:";
    for i in 1..line.len() {
        for c in digits.chars() {
            let old = line.as_bytes()[i] as char;
            if c.to_ascii_uppercase() == old {
                continue;
            }
            let mut changed = String::from(&line[..i]);
            changed.push(c);
            changed.push_str(&line[i + 1..]);
            let r = Record::from_str(&changed);
            assert!(
                r == Err(Error::InvalidChecksum) || r == Err(Error::NonHexData),
                "{} gave {:?}",
                changed,
                r
            );
        }
    }
}

#[test]
fn short_line_with_zero_sum() {
    assert_eq!(Record::from_str(":"), Err(Error::IncompleteLine));
    assert_eq!(Record::from_str(":00"), Err(Error::IncompleteLine));
    assert_eq!(Record::from_str(":01FF"), Err(Error::IncompleteLine));
    assert_eq!(Record::from_str(":00000000"), Err(Error::IncompleteLine));
}

#[test]
fn short_line_with_bad_sum() {
    assert_eq!(Record::from_str(":01"), Err(Error::InvalidChecksum));
}

#[test]
fn length_byte_disagrees() {
    assert_eq!(Record::from_str(":02000000AABBCCCD"), Err(Error::MismatchedDataLength));
}

#[test]
fn unsupported_record_type() {
    assert_eq!(
        Record::from_str(":020000040800F2"),
        Err(Error::UnsupportedRecordType(0x04))
    );
    assert_eq!(
        Record::from_str(":00000002FE"),
        Err(Error::UnsupportedRecordType(0x02))
    );
}

#[test]
fn parse_through_from_str_trait() {
    let r: Result<Record, Error> = ":00000001FF".parse();
    assert_eq!(r, Ok(Record::EndOfFile));
}

#[test]
fn decode_from_bytes() {
    assert_eq!(Record::from_bytes(b":00000001FF"), Ok(Record::EndOfFile));
    assert_eq!(Record::from_bytes(b"00"), Err(Error::IncorrectInitialCharacter));
}

#[test]
fn checksum_of_bytes() {
    assert_eq!(checksum(&[]), 0);
    assert_eq!(checksum(&[0x01, 0x02]), 0x03);
    assert_eq!(checksum(&[0x80, 0x80, 0x05]), 0x05);
    assert_eq!(checksum(&[0x00, 0x00, 0x00, 0x01, 0xFF]), 0x00);
}

#[test]
fn hex_digit_values() {
    assert_eq!(hex_digit(b'0'), Some(0));
    assert_eq!(hex_digit(b'9'), Some(9));
    assert_eq!(hex_digit(b'A'), Some(10));
    assert_eq!(hex_digit(b'f'), Some(15));
    assert_eq!(hex_digit(b'g'), None);
    assert_eq!(hex_digit(b'+'), None);
}

#[test]
fn digit_pairs_decoded() {
    assert_eq!(decode_pairs(b":7EfE01", 1), Some(vec![0x7E, 0xFE, 0x01]));
    assert_eq!(decode_pairs(b"x", 1), Some(vec![]));
    assert_eq!(decode_pairs(b":7+", 1), None);
}
