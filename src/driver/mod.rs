//! Typed commands on top of the frame codec: request builders and the
//! decoding of response payloads.
use vstd::prelude::*;
use vstd::slice::slice_subrange;

pub mod protocol;
pub mod requests;
pub mod spi;

use crate::driver::protocol::Protocol;
use crate::driver::requests::{CardType, Command, NTAGCommand, SAMMode};

verus! {

/// Errors of a typed request.
#[derive(Debug, PartialEq, Eq)]
pub enum Error<E> {
    Protocol(protocol::Error<E>),
    InvalidResponse,
    Decoder,
}

/// Errors of a tag read: the request failed, or the device reported that
/// the read itself failed.
#[derive(Debug, PartialEq, Eq)]
pub enum ReadError<E> {
    Reader(Error<E>),
    ReadError,
}

impl<E> From<Error<E>> for ReadError<E> {
    fn from(value: Error<E>) -> (r: Self)
        ensures
            r == ReadError::Reader(value),
    {
        Self::Reader(value)
    }
}

impl<E> vstd::std_specs::convert::FromSpecImpl<Error<E>> for ReadError<E> {
    open spec fn obeys_from_spec() -> bool {
        true
    }

    open spec fn from_spec(v: Error<E>) -> Self {
        ReadError::Reader(v)
    }
}

/// A reader controller behind the transport `I`.
pub struct Reader<I> {
    pub protocol: Protocol<I, 200>,
}

impl<I> Reader<I> {
    pub fn new(interface: I) -> (r: Self)
        ensures
            r.protocol.transport() == interface,
            r.protocol.scratch() == Seq::new(200, |i: int| 0u8),
    {
        Self { protocol: Protocol::new(interface) }
    }
}

/// Checks the command byte echoed by the device against the request's
/// command, then decodes the payload as a `D`.
pub fn decode_response<D: Decode, E>(command: Command, response: u8, data: &[u8]) -> (r: Result<
    D,
    Error<E>,
>)
    ensures
        response != command.code() + 1 ==> r == Err::<D, Error<E>>(Error::InvalidResponse),
        response == command.code() + 1 && !D::decodable(data@) ==> r == Err::<D, Error<E>>(
            Error::Decoder,
        ),
        response == command.code() + 1 && D::decodable(data@) ==> (r matches Ok(v)
            && D::decodes_to(data@, v)),
{
    if response as u16 != command.opcode() as u16 + 1 {
        return Err(Error::InvalidResponse);
    }
    match D::decode(data) {
        Ok(v) => Ok(v),
        Err(_) => Err(Error::Decoder),
    }
}

/// Turns the outcome of a page read into the page's bytes, keeping the
/// device's report of a failed read apart from request errors.
pub fn page_data<E>(r: Result<DataReadResult<16>, Error<E>>) -> (out: Result<[u8; 16], ReadError<E>>)
    ensures
        match r {
            Err(e) => out == Err::<[u8; 16], ReadError<E>>(ReadError::Reader(e)),
            Ok(DataReadResult::Failed) => out == Err::<[u8; 16], ReadError<E>>(ReadError::ReadError),
            Ok(DataReadResult::Data(d)) => out == Ok::<[u8; 16], ReadError<E>>(d),
        },
{
    match r {
        Err(e) => Err(ReadError::Reader(e)),
        Ok(DataReadResult::Failed) => Err(ReadError::ReadError),
        Ok(DataReadResult::Data(d)) => Ok(d),
    }
}

/// Firmware identification reported by the controller.
#[derive(Clone, Copy, Debug, PartialEq, Eq, Structural)]
pub struct FirmwareVersion {
    pub ic: u8,
    pub version: u8,
    pub revision: u8,
    pub supports_iso18092: bool,
    pub supports_iso14443_a: bool,
    pub supports_iso14443_b: bool,
}

/// Result of a data read: the bytes, or the device's report that the read
/// failed.
#[derive(Debug, PartialEq, Eq)]
pub enum DataReadResult<const N: usize> {
    Data([u8; N]),
    Failed,
}

/// The decoding of a response payload into a typed value.
pub trait Decode: Sized {
    /// Payload length the type is decoded from.
    spec fn declared_len() -> nat;

    /// Whether `data` can be decoded.
    spec fn decodable(data: Seq<u8>) -> bool;

    /// Whether `value` is the decoding of `data`.
    spec fn decodes_to(data: Seq<u8>, value: Self) -> bool;

    fn payload_len() -> (n: usize)
        requires
            Self::declared_len() <= usize::MAX,
        ensures
            n == Self::declared_len(),
    ;

    fn decode(data: &[u8]) -> (r: Result<Self, ()>)
        ensures
            r is Ok <==> Self::decodable(data@),
            r matches Ok(v) ==> Self::decodes_to(data@, v),
    ;
}

impl Decode for () {
    open spec fn declared_len() -> nat {
        0
    }

    open spec fn decodable(data: Seq<u8>) -> bool {
        true
    }

    open spec fn decodes_to(data: Seq<u8>, value: Self) -> bool {
        true
    }

    fn payload_len() -> (n: usize) {
        0
    }

    fn decode(_data: &[u8]) -> (r: Result<Self, ()>) {
        Ok(())
    }
}

/// Copies `data` into a fresh array of the same length.
fn to_array<const N: usize>(data: &[u8]) -> (r: [u8; N])
    requires
        data@.len() == N,
    ensures
        r@ == data@,
{
    let mut result: [u8; N] = vstd::array::array_fill_for_copy_types(0u8);
    let mut i: usize = 0;
    while i < N
        invariant
            i <= N == data@.len() == result@.len(),
            forall|k: int| 0 <= k < i ==> result@[k] == data@[k],
        decreases N - i,
    {
        result[i] = data[i];
        i += 1;
    }
    assert(result@ =~= data@);
    result
}

impl<const N: usize> Decode for [u8; N] {
    open spec fn declared_len() -> nat {
        N as nat
    }

    open spec fn decodable(data: Seq<u8>) -> bool {
        data.len() == N
    }

    open spec fn decodes_to(data: Seq<u8>, value: Self) -> bool {
        value@ == data
    }

    fn payload_len() -> (n: usize) {
        N
    }

    fn decode(data: &[u8]) -> (r: Result<Self, ()>) {
        if data.len() != N {
            return Err(());
        }
        Ok(to_array(data))
    }
}

impl Decode for FirmwareVersion {
    open spec fn declared_len() -> nat {
        4
    }

    open spec fn decodable(data: Seq<u8>) -> bool {
        data.len() == 4
    }

    open spec fn decodes_to(data: Seq<u8>, value: Self) -> bool {
        value == FirmwareVersion {
            ic: data[0],
            version: data[1],
            revision: data[2],
            supports_iso18092: data[3] & 0x04 > 0,
            supports_iso14443_a: data[3] & 0x01 > 0,
            supports_iso14443_b: data[3] & 0x02 > 0,
        }
    }

    fn payload_len() -> (n: usize) {
        4
    }

    fn decode(data: &[u8]) -> (r: Result<Self, ()>) {
        if data.len() != 4 {
            return Err(());
        }
        Ok(
            Self {
                ic: data[0],
                version: data[1],
                revision: data[2],
                supports_iso18092: data[3] & 0x04 > 0,
                supports_iso14443_b: data[3] & 0x02 > 0,
                supports_iso14443_a: data[3] & 0x01 > 0,
            },
        )
    }
}

impl<const N: usize> Decode for DataReadResult<N> {
    open spec fn declared_len() -> nat {
        (N + 1) as nat
    }

    open spec fn decodable(data: Seq<u8>) -> bool {
        data.len() == N + 1
    }

    open spec fn decodes_to(data: Seq<u8>, value: Self) -> bool {
        if data[0] == 0x00 {
            value matches DataReadResult::Data(d) && d@ == data.subrange(1, N + 1)
        } else {
            value is Failed
        }
    }

    fn payload_len() -> (n: usize) {
        N + 1
    }

    fn decode(data: &[u8]) -> (r: Result<Self, ()>) {
        if N == usize::MAX || data.len() != N + 1 {
            return Err(());
        }
        if data[0] != 0x00 {
            return Ok(Self::Failed);
        }
        Ok(Self::Data(to_array(slice_subrange(data, 1, N + 1))))
    }
}

/// Identifier of a detected card, zero-padded to seven bytes.
#[derive(Clone, Copy, Debug, PartialEq, Eq)]
pub struct CardUid(pub [u8; 7]);

/// The identifier bytes a target list reports, zero-padded to seven: none
/// unless exactly one target was found and its identifier fits.
pub open spec fn uid_of(data: Seq<u8>) -> Option<Seq<u8>> {
    if data[0] != 1 || data[5] > 7 {
        None
    } else {
        Some(data.subrange(6, 6 + data[5]) + Seq::new((7 - data[5]) as nat, |i: int| 0u8))
    }
}

impl Decode for Option<CardUid> {
    open spec fn declared_len() -> nat {
        19
    }

    open spec fn decodable(data: Seq<u8>) -> bool {
        data.len() == 19
    }

    open spec fn decodes_to(data: Seq<u8>, value: Self) -> bool {
        match (value, uid_of(data)) {
            (None, None) => true,
            (Some(uid), Some(bytes)) => uid.0@ == bytes,
            _ => false,
        }
    }

    fn payload_len() -> (n: usize) {
        19
    }

    fn decode(data: &[u8]) -> (r: Result<Self, ()>) {
        if data.len() != 19 {
            return Err(());
        }
        if data[0] != 1 {
            // only a single card can be handled
            return Ok(None);
        }
        let len = data[5] as usize;
        if len > 7 {
            return Ok(None);
        }
        let mut uid = [0u8; 7];
        let mut i: usize = 0;
        while i < len
            invariant
                i <= len <= 7,
                len == data@[5],
                data@.len() == 19,
                uid@.len() == 7,
                forall|k: int| 0 <= k < i ==> uid@[k] == data@[6 + k],
                forall|k: int| i <= k < 7 ==> uid@[k] == 0,
            decreases len - i,
        {
            uid[i] = data[6 + i];
            i += 1;
        }
        assert(uid@ =~= data@.subrange(6, 6 + len) + Seq::new((7 - len) as nat, |i: int| 0u8));
        Ok(Some(CardUid(uid)))
    }
}

/// A decoded payload of the wrong length is always rejected, for every
/// type whose payload has a fixed length.
pub proof fn lemma_wrong_length_rejected<const N: usize>(data: Seq<u8>)
    ensures
        data.len() != <FirmwareVersion as Decode>::declared_len()
            ==> !<FirmwareVersion as Decode>::decodable(data),
        data.len() != <[u8; N] as Decode>::declared_len() ==> !<[u8; N] as Decode>::decodable(
            data,
        ),
        data.len() != <DataReadResult<N> as Decode>::declared_len()
            ==> !<DataReadResult<N> as Decode>::decodable(data),
        data.len() != <Option<CardUid> as Decode>::declared_len()
            ==> !<Option<CardUid> as Decode>::decodable(data),
{
}

/// A command with its fixed-size parameters.
pub struct Request<const N: usize> {
    pub command: Command,
    pub data: [u8; N],
}

/// Mode byte and timeout byte of a SAM configuration.
pub open spec fn sam_bytes(mode: SAMMode) -> (u8, u8) {
    match mode {
        SAMMode::Normal => (1, 0),
        SAMMode::VirtualCard { timeout } => (2, timeout),
        SAMMode::WiredCard => (3, 0),
        SAMMode::DualCard => (4, 0),
    }
}

impl<const N: usize> Request<N> {
    pub fn new(command: Command, data: [u8; N]) -> (r: Request<N>)
        ensures
            r.command == command,
            r.data == data,
    {
        Self { command, data }
    }

    pub fn get_firmware_version() -> (r: Request<0>)
        ensures
            r.command == Command::GetFirmwareVersion,
    {
        Request::<0>::new(Command::GetFirmwareVersion, [])
    }

    pub fn sam_configuration(mode: SAMMode, use_irq: bool) -> (r: Request<3>)
        ensures
            r.command == Command::SAMConfiguration,
            r.data@ == seq![sam_bytes(mode).0, sam_bytes(mode).1, if use_irq { 1u8 } else { 0u8 }],
    {
        let (mode, timeout): (u8, u8) = match mode {
            SAMMode::Normal => (1, 0),
            SAMMode::VirtualCard { timeout } => (2, timeout),
            SAMMode::WiredCard => (3, 0),
            SAMMode::DualCard => (4, 0),
        };
        let irq: u8 = if use_irq {
            1
        } else {
            0
        };
        let r = Request::<3>::new(Command::SAMConfiguration, [mode, timeout, irq]);
        assert(r.data@ =~= seq![mode, timeout, irq]);
        r
    }

    /// Reads four pages starting at `page` from the first target.
    pub fn ntag_read(page: u8) -> (r: Request<3>)
        ensures
            r.command == Command::InDataExchange,
            r.data@ == seq![0x01u8, NTAGCommand::Read.code(), page],
    {
        let r = Request::<3>::new(
            Command::InDataExchange,
            [0x01 /* target */ , NTAGCommand::Read.opcode(), page],
        );
        assert(r.data@ =~= seq![0x01u8, NTAGCommand::Read.code(), page]);
        r
    }

    /// Lists at most one passive target of the given card type.
    pub fn in_list_passive_target(card_type: CardType) -> (r: Request<2>)
        ensures
            r.command == Command::InListPassiveTarget,
            r.data@ == seq![0x01u8, card_type.code()],
    {
        let r = Request::<2>::new(Command::InListPassiveTarget, [MAX_CARDS, card_type.opcode()]);
        assert(r.data@ =~= seq![0x01u8, card_type.code()]);
        r
    }

    pub fn borrow(&self) -> (r: BorrowedRequest<'_>)
        ensures
            r.command == self.command,
            r.data@ == self.data@,
    {
        BorrowedRequest { command: self.command, data: self.data.as_slice() }
    }
}

/// Largest number of targets a passive-target listing asks for.
pub const MAX_CARDS: u8 = 0x01;

/// A request whose parameters are borrowed.
pub struct BorrowedRequest<'a> {
    pub command: Command,
    pub data: &'a [u8],
}

} // verus!
