use nfc_reader::driver::protocol::Error as FrameError;
use nfc_reader::driver::requests::{CardType, Command, NTAGCommand, SAMMode};
use nfc_reader::driver::protocol::is_ready;
use nfc_reader::driver::spi::{as_lsb, write_buffer};
use nfc_reader::driver::{
    decode_response, page_data, CardUid, DataReadResult, Decode, Error, FirmwareVersion,
    ReadError, Reader, Request,
};

#[test]
fn firmware_version_decodes() {
    let v = FirmwareVersion::decode(&[0x32, 0x01, 0x06, 0x07]).unwrap();
    assert_eq!(v.ic, 0x32);
    assert_eq!(v.version, 1);
    assert_eq!(v.revision, 6);
    assert!(v.supports_iso14443_a);
    assert!(v.supports_iso14443_b);
    assert!(v.supports_iso18092);
}

#[test]
fn firmware_version_flags_are_bitwise() {
    let v = FirmwareVersion::decode(&[0x00, 0x00, 0x00, 0x04]).unwrap();
    assert!(v.supports_iso18092);
    assert!(!v.supports_iso14443_a);
    assert!(!v.supports_iso14443_b);
}

fn target_list(count: u8, uid_len: u8, uid: &[u8]) -> [u8; 19] {
    let mut d = [0u8; 19];
    d[0] = count;
    d[5] = uid_len;
    d[6..6 + uid.len()].copy_from_slice(uid);
    d
}

#[test]
fn card_uid_decodes_padded() {
    let d = target_list(1, 4, &[0xAA, 0xBB, 0xCC, 0xDD]);
    let uid = Option::<CardUid>::decode(&d).unwrap();
    assert_eq!(uid, Some(CardUid([0xAA, 0xBB, 0xCC, 0xDD, 0, 0, 0])));
}

#[test]
fn card_uid_without_single_target_is_none() {
    let d = target_list(0, 4, &[0xAA, 0xBB, 0xCC, 0xDD]);
    assert_eq!(Option::<CardUid>::decode(&d), Ok(None));
    let d = target_list(2, 4, &[0xAA, 0xBB, 0xCC, 0xDD]);
    assert_eq!(Option::<CardUid>::decode(&d), Ok(None));
}

#[test]
fn card_uid_too_long_is_none() {
    let d = target_list(1, 8, &[1, 2, 3, 4, 5, 6, 7, 8]);
    assert_eq!(Option::<CardUid>::decode(&d), Ok(None));
}

#[test]
fn card_uid_of_seven_bytes() {
    let d = target_list(1, 7, &[1, 2, 3, 4, 5, 6, 7]);
    assert_eq!(Option::<CardUid>::decode(&d), Ok(Some(CardUid([1, 2, 3, 4, 5, 6, 7]))));
}

#[test]
fn wrong_lengths_are_rejected() {
    for len in [0usize, 3, 5, 18, 20] {
        let d = vec![1u8; len];
        if len != 4 {
            assert!(FirmwareVersion::decode(&d).is_err());
        }
        if len != 19 {
            assert!(Option::<CardUid>::decode(&d).is_err());
        }
        if len != 17 {
            assert!(DataReadResult::<16>::decode(&d).is_err());
        }
        if len != 16 {
            assert!(<[u8; 16]>::decode(&d).is_err());
        }
    }
}

#[test]
fn unit_decodes_anything() {
    assert_eq!(<()>::decode(&[]), Ok(()));
    assert_eq!(<()>::decode(&[1, 2, 3]), Ok(()));
    assert_eq!(<()>::payload_len(), 0);
}

#[test]
fn declared_lengths() {
    assert_eq!(FirmwareVersion::payload_len(), 4);
    assert_eq!(Option::<CardUid>::payload_len(), 19);
    assert_eq!(DataReadResult::<16>::payload_len(), 17);
    assert_eq!(<[u8; 5]>::payload_len(), 5);
}

#[test]
fn byte_block_copies() {
    assert_eq!(<[u8; 3]>::decode(&[7, 8, 9]), Ok([7, 8, 9]));
}

#[test]
fn data_read_result_success_and_failure() {
    let mut d = [0u8; 17];
    for (i, b) in d.iter_mut().enumerate().skip(1) {
        *b = i as u8;
    }
    let expected: [u8; 16] = core::array::from_fn(|i| (i + 1) as u8);
    assert_eq!(DataReadResult::<16>::decode(&d), Ok(DataReadResult::Data(expected)));
    d[0] = 0x01;
    assert_eq!(DataReadResult::<16>::decode(&d), Ok(DataReadResult::Failed));
}

#[test]
fn response_opcode_must_follow_command() {
    let r: Result<FirmwareVersion, Error<()>> =
        decode_response(Command::GetFirmwareVersion, 0x02, &[0x32, 0x01, 0x06, 0x07]);
    assert_eq!(r, Err(Error::InvalidResponse));
    let r: Result<FirmwareVersion, Error<()>> =
        decode_response(Command::GetFirmwareVersion, 0x03, &[0x32, 0x01, 0x06, 0x07]);
    assert_eq!(r.unwrap().ic, 0x32);
}

#[test]
fn response_of_wrong_shape_is_decoder_error() {
    let r: Result<FirmwareVersion, Error<()>> =
        decode_response(Command::GetFirmwareVersion, 0x03, &[0x32, 0x01]);
    assert_eq!(r, Err(Error::Decoder));
}

#[test]
fn page_data_keeps_read_failure_apart() {
    let ok: Result<DataReadResult<16>, Error<()>> = Ok(DataReadResult::Data([5; 16]));
    assert_eq!(page_data(ok), Ok([5; 16]));
    let failed: Result<DataReadResult<16>, Error<()>> = Ok(DataReadResult::Failed);
    assert_eq!(page_data(failed), Err(ReadError::ReadError));
    let err: Result<DataReadResult<16>, Error<()>> =
        Err(Error::Protocol(FrameError::BadChecksum));
    assert_eq!(
        page_data(err),
        Err(ReadError::Reader(Error::Protocol(FrameError::BadChecksum)))
    );
}

#[test]
fn read_error_from_request_error() {
    let e: ReadError<()> = ReadError::from(Error::Decoder);
    assert_eq!(e, ReadError::Reader(Error::Decoder));
}

#[test]
fn request_builders() {
    let r = Request::<0>::get_firmware_version();
    assert_eq!(r.command, Command::GetFirmwareVersion);
    assert_eq!(r.command.opcode(), 0x02);

    let r = Request::<0>::sam_configuration(SAMMode::Normal, false);
    assert_eq!(r.command.opcode(), 0x14);
    assert_eq!(r.data, [1, 0, 0]);
    let r = Request::<0>::sam_configuration(SAMMode::VirtualCard { timeout: 0x14 }, true);
    assert_eq!(r.data, [2, 0x14, 1]);
    assert_eq!(Request::<0>::sam_configuration(SAMMode::WiredCard, false).data, [3, 0, 0]);
    assert_eq!(Request::<0>::sam_configuration(SAMMode::DualCard, true).data, [4, 0, 1]);

    let r = Request::<0>::ntag_read(4);
    assert_eq!(r.command.opcode(), 0x40);
    assert_eq!(r.data, [0x01, 0x30, 4]);
    assert_eq!(NTAGCommand::Read.opcode(), 0x30);

    let r = Request::<0>::in_list_passive_target(CardType::IsoTypeA);
    assert_eq!(r.command.opcode(), 0x4A);
    assert_eq!(r.data, [0x01, 0x00]);
    assert_eq!(CardType::IsoTypeB.opcode(), 0x03);

    let b = r.borrow();
    assert_eq!(b.command, Command::InListPassiveTarget);
    assert_eq!(b.data, &[0x01, 0x00]);

    let r = Request::new(Command::InDataExchange, [9u8, 8]);
    assert_eq!(r.data, [9, 8]);
}

#[test]
fn reader_owns_a_scratch_buffer() {
    let mut reader = Reader::new(());
    let n = reader.protocol.send_request::<()>(0x02, &[]).unwrap();
    assert_eq!(reader.protocol.frame(n)[6], 0x02);
}

#[test]
fn spi_write_buffer_prefixes_frame() {
    assert_eq!(write_buffer(&[0x00, 0x00, 0xFF]), vec![0x01, 0x00, 0x00, 0xFF]);
    assert_eq!(write_buffer(&[]), vec![0x01]);
    assert!(is_ready(0x01));
    assert!(!is_ready(0x00));
    assert_eq!(as_lsb(0x5A), 0x5A);
}
