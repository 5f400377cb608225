//! Byte framing of the SPI transport.
use vstd::prelude::*;

verus! {

/// Bit order adaptation of a byte sent over the bus: the bus is configured
/// least-significant-bit first, so bytes go out as they are.
pub fn as_lsb(byte: u8) -> (r: u8)
    ensures
        r == byte,
{
    byte
}

/// Prefix byte of a status read.
pub const PN532_SPI_STATREAD: u8 = 0x02;

/// Prefix byte of a data write.
pub const PN532_SPI_DATAWRITE: u8 = 0x01;

/// Prefix byte of a data read.
pub const PN532_SPI_DATAREAD: u8 = 0x03;

/// Status byte of a ready device.
pub const PN532_SPI_READY: u8 = 0x01;

/// The bytes to write for a frame: the data-write prefix, then the frame.
pub fn write_buffer(request: &[u8]) -> (r: Vec<u8>)
    ensures
        r@ == seq![PN532_SPI_DATAWRITE] + request@,
{
    let mut buf: Vec<u8> = Vec::new();
    buf.push(as_lsb(PN532_SPI_DATAWRITE));
    let mut i: usize = 0;
    while i < request.len()
        invariant
            i <= request@.len(),
            buf@ == seq![PN532_SPI_DATAWRITE] + request@.subrange(0, i as int),
        decreases request@.len() - i,
    {
        buf.push(request[i]);
        i += 1;
        assert(buf@ =~= seq![PN532_SPI_DATAWRITE] + request@.subrange(0, i as int));
    }
    assert(request@.subrange(0, request@.len() as int) =~= request@);
    buf
}

} // verus!
