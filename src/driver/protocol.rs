//! Frame codec: builds host-to-device frames in a scratch buffer and
//! validates frames received from the device.
use vstd::prelude::*;
use vstd::slice::slice_subrange;

verus! {

/// The acknowledge frame the device sends after accepting a command frame.
pub const ACK: [u8; 6] = [0x00, 0x00, 0xFF, 0x00, 0xFF, 0x00];

/// Direction byte of a frame sent by the host.
pub const HOST_TO_DEVICE: u8 = 0xD4;

/// Direction byte of a frame sent by the device.
pub const DEVICE_TO_HOST: u8 = 0xD5;

/// Status byte by which the device reports that it is ready.
pub const READY: u8 = 0x01;

/// Whether a status byte polled from the device reports it ready.
pub fn is_ready(status: u8) -> (r: bool)
    ensures
        r == (status == READY),
{
    status == READY
}

/// Errors of the frame layer. `Transport` carries the transport's own error.
#[derive(Clone, Copy, Debug, PartialEq, Eq)]
pub enum Error<E> {
    TooMuchData,
    Transport(E),
    NotAcknowledged,
    BadResponse,
    BadChecksum,
    BufferUnderflow,
    Syntax,
}

/// Sum of the bytes of `s`, as an unbounded integer.
pub open spec fn byte_sum(s: Seq<u8>) -> nat
    decreases s.len(),
{
    if s.len() == 0 {
        0
    } else {
        byte_sum(s.drop_last()) + s.last() as nat
    }
}

/// The byte that, added to `x`, gives zero modulo 256.
pub open spec fn negation(x: int) -> u8 {
    ((256 - x % 256) % 256) as u8
}

/// The wire image of a frame: preamble, start code, length and its checksum,
/// direction byte, command byte, payload, data checksum and postamble.
pub open spec fn frame_bytes(direction: u8, cmd: u8, data: Seq<u8>) -> Seq<u8> {
    let len = (data.len() + 2) as u8;
    seq![0x00u8, 0x00u8, 0xFFu8, len, negation(len as int), direction, cmd] + data + seq![
        negation(direction + cmd + byte_sum(data)),
        0x00u8,
    ]
}

/// The outcome of validating the received bytes `buf` as a response frame:
/// the echoed command byte and the payload, or the first fault found.
pub open spec fn parse_response<E>(buf: Seq<u8>) -> Result<(u8, Seq<u8>), Error<E>>
    recommends
        buf.len() >= 9,
{
    let len = buf[3] as int;
    if !(buf[0] == 0x00 && buf[1] == 0x00 && buf[2] == 0xFF) {
        Err(Error::BadResponse)
    } else if (buf[3] + buf[4]) % 256 != 0 {
        Err(Error::BadChecksum)
    } else if len == 0 {
        Err(Error::BadResponse)
    } else if len == 1 {
        Err(Error::Syntax)
    } else if buf.len() <= 6 + len {
        Err(Error::BufferUnderflow)
    } else if buf[6 + len] != 0x00 {
        Err(Error::BadResponse)
    } else if buf[5] != DEVICE_TO_HOST {
        Err(Error::BadResponse)
    } else if byte_sum(buf.subrange(5, 6 + len)) % 256 != 0 {
        Err(Error::BadChecksum)
    } else {
        Ok((buf[6], buf.subrange(7, 5 + len)))
    }
}

/// Whether the six received bytes are the acknowledge frame.
pub open spec fn is_ack(buf: Seq<u8>) -> bool {
    buf == seq![0x00u8, 0x00u8, 0xFFu8, 0x00u8, 0xFFu8, 0x00u8]
}

/// Two's complement of a byte: the checksum that brings `sum` to zero.
fn to_checksum(sum: u8) -> (r: u8)
    ensures
        r == negation(sum as int),
{
    assert(!sum == 255u8 - sum) by (bit_vector);
    (!sum).wrapping_add(1)
}

/// Frame engine over a transport `I`, owning a scratch buffer of `B` bytes
/// in which outbound frames are assembled.
pub struct Protocol<I, const B: usize> {
    buffer: [u8; B],
    pub interface: I,
}

impl<I, const B: usize> Protocol<I, B> {
    /// Contents of the scratch buffer.
    pub closed spec fn scratch(&self) -> Seq<u8> {
        self.buffer@
    }

    /// The transport the engine talks through.
    pub closed spec fn transport(&self) -> I {
        self.interface
    }

    pub fn new(interface: I) -> (r: Self)
        ensures
            r.transport() == interface,
            r.scratch() == Seq::new(B as nat, |i: int| 0u8),
    {
        let buffer: [u8; B] = vstd::array::array_fill_for_copy_types(0u8);
        assert(buffer@ =~= Seq::new(B as nat, |i: int| 0u8));
        Self { buffer, interface }
    }

    /// Assembles the frame carrying command `cmd` with payload `data` at the
    /// start of the scratch buffer and returns its length.
    /// Fails with `TooMuchData` when the payload leaves less than ten bytes of
    /// the buffer for the framing.
    pub fn send_request<E>(&mut self, cmd: u8, data: &[u8]) -> (r: Result<usize, Error<E>>)
        requires
            B <= 263,
        ensures
            final(self).transport() == old(self).transport(),
            final(self).scratch().len() == B,
            data.len() + 10 > B ==> r == Err::<usize, Error<E>>(Error::TooMuchData),
            data.len() + 10 <= B ==> r == Ok::<usize, Error<E>>((data.len() + 9) as usize)
                && final(self).scratch().subrange(0, data.len() + 9) == frame_bytes(
                HOST_TO_DEVICE,
                cmd,
                data@,
            ),
    {
        let data_len = data.len();
        if data_len > B || B - data_len < 10 {
            return Err(Error::TooMuchData);
        }
        let frame_len: u8 = 2 + data_len as u8;

        let mut data_sum: u8 = HOST_TO_DEVICE.wrapping_add(cmd);
        let mut i: usize = 0;
        while i < data_len
            invariant
                i <= data_len == data@.len(),
                data_sum as int == (HOST_TO_DEVICE + cmd + byte_sum(data@.subrange(0, i as int)))
                    % 256,
            decreases data_len - i,
        {
            assert(data@.subrange(0, i + 1).drop_last() =~= data@.subrange(0, i as int));
            data_sum = data_sum.wrapping_add(data[i]);
            i += 1;
        }
        assert(data@.subrange(0, data_len as int) =~= data@);

        self.buffer[0] = 0x00;
        self.buffer[1] = 0x00;
        self.buffer[2] = 0xFF;
        self.buffer[3] = frame_len;
        self.buffer[4] = to_checksum(frame_len);
        self.buffer[5] = HOST_TO_DEVICE;
        self.buffer[6] = cmd;
        let mut j: usize = 0;
        while j < data_len
            invariant
                j <= data_len == data@.len(),
                data_len + 10 <= B,
                self.buffer@.len() == B,
                self.interface == old(self).interface,
                self.buffer@.subrange(0, 7) == seq![
                    0x00u8,
                    0x00u8,
                    0xFFu8,
                    frame_len,
                    negation(frame_len as int),
                    HOST_TO_DEVICE,
                    cmd,
                ],
                self.buffer@.subrange(7, 7 + j) == data@.subrange(0, j as int),
            decreases data_len - j,
        {
            let ghost prev = self.buffer@;
            self.buffer[7 + j] = data[j];
            assert(self.buffer@.subrange(0, 7) =~= prev.subrange(0, 7));
            assert(self.buffer@.subrange(7, 7 + j + 1) =~= data@.subrange(0, j + 1));
            j += 1;
        }
        self.buffer[7 + data_len] = to_checksum(data_sum);
        self.buffer[8 + data_len] = 0x00;
        assert(self.buffer@.subrange(0, data_len + 9) =~= frame_bytes(
            HOST_TO_DEVICE,
            cmd,
            data@,
        ));
        Ok(data_len + 9)
    }

    /// The first `n` bytes of the scratch buffer: the frame to hand to the
    /// transport after `send_request` returned `n`.
    pub fn frame(&self, n: usize) -> (r: &[u8])
        requires
            n <= self.scratch().len(),
        ensures
            r@ == self.scratch().subrange(0, n as int),
    {
        slice_subrange(self.buffer.as_slice(), 0, n)
    }

    /// Checks the six bytes received after a command frame.
    pub fn read_ack<E>(buf: &[u8]) -> (r: Result<(), Error<E>>)
        ensures
            r is Ok <==> is_ack(buf@),
            r is Err ==> r == Err::<(), Error<E>>(Error::NotAcknowledged),
    {
        if buf.len() == 6 && buf[0] == ACK[0] && buf[1] == ACK[1] && buf[2] == ACK[2]
            && buf[3] == ACK[3] && buf[4] == ACK[4] && buf[5] == ACK[5] {
            assert(buf@ =~= seq![0x00u8, 0x00u8, 0xFFu8, 0x00u8, 0xFFu8, 0x00u8]);
            Ok(())
        } else {
            Err(Error::NotAcknowledged)
        }
    }

    /// Number of bytes to receive for a response whose payload has
    /// `expected_len` bytes: the payload plus nine bytes of framing.
    pub fn response_frame_len(expected_len: u8) -> (r: usize)
        ensures
            r == expected_len + 9,
    {
        expected_len as usize + 9
    }

    /// Validates a received response frame and returns the echoed command
    /// byte and the payload, which borrows from `buf`.
    pub fn process_response<E>(buf: &[u8]) -> (r: Result<(u8, &[u8]), Error<E>>)
        requires
            buf.len() >= 9,
        ensures
            match (r, parse_response::<E>(buf@)) {
                (Ok((c, d)), Ok((c2, d2))) => c == c2 && d@ == d2,
                (Err(e), Err(e2)) => e == e2,
                _ => false,
            },
    {
        if !(buf[0] == 0x00 && buf[1] == 0x00 && buf[2] == 0xFF) {
            return Err(Error::BadResponse);
        }
        let frame_len: u8 = buf[3];
        if frame_len.wrapping_add(buf[4]) != 0 {
            return Err(Error::BadChecksum);
        }
        if frame_len == 0 {
            return Err(Error::BadResponse);
        }
        if frame_len == 1 {
            return Err(Error::Syntax);
        }
        let end: usize = 6 + frame_len as usize;
        if buf.len() <= end {
            return Err(Error::BufferUnderflow);
        }
        if buf[end] != 0x00 {
            return Err(Error::BadResponse);
        }
        if buf[5] != DEVICE_TO_HOST {
            return Err(Error::BadResponse);
        }
        let mut checksum: u8 = 0;
        let mut i: usize = 5;
        while i < end
            invariant
                5 <= i <= end < buf@.len(),
                checksum as int == byte_sum(buf@.subrange(5, i as int)) % 256,
            decreases end - i,
        {
            assert(buf@.subrange(5, i + 1).drop_last() =~= buf@.subrange(5, i as int));
            checksum = checksum.wrapping_add(buf[i]);
            i += 1;
        }
        if checksum != 0 {
            return Err(Error::BadChecksum);
        }
        Ok((buf[6], slice_subrange(buf, 7, end - 1)))
    }
}

/// The sum of a concatenation is the sum of its parts.
pub proof fn lemma_byte_sum_concat(a: Seq<u8>, b: Seq<u8>)
    ensures
        byte_sum(a + b) == byte_sum(a) + byte_sum(b),
    decreases b.len(),
{
    if b.len() == 0 {
        assert(a + b =~= a);
    } else {
        assert((a + b).drop_last() =~= a + b.drop_last());
        lemma_byte_sum_concat(a, b.drop_last());
    }
}

/// Replacing one byte changes the sum by the difference of the two bytes.
pub proof fn lemma_byte_sum_update(s: Seq<u8>, i: int, v: u8)
    requires
        0 <= i < s.len(),
    ensures
        byte_sum(s.update(i, v)) == byte_sum(s) - s[i] + v,
    decreases s.len(),
{
    if i == s.len() - 1 {
        assert(s.update(i, v).drop_last() =~= s.drop_last());
    } else {
        assert(s.update(i, v).drop_last() =~= s.drop_last().update(i, v));
        lemma_byte_sum_update(s.drop_last(), i, v);
    }
}

/// A frame built for a payload that fits the buffer checks out: its length
/// byte plus the length checksum, and the direction byte, command byte,
/// payload and data checksum together, are both zero modulo 256.
pub proof fn lemma_frame_checksums(capacity: nat, direction: u8, cmd: u8, data: Seq<u8>)
    requires
        capacity <= 263,
        data.len() + 10 <= capacity,
    ensures
        ({
            let f = frame_bytes(direction, cmd, data);
            &&& f.len() == data.len() + 9
            &&& f[3] == data.len() + 2
            &&& (f[3] + f[4]) % 256 == 0
            &&& (f[5] + f[6] + byte_sum(data) + f[7 + data.len() as int]) % 256 == 0
        }),
{
    let f = frame_bytes(direction, cmd, data);
    assert(f[7 + data.len() as int] == negation(direction + cmd + byte_sum(data)));
}

/// A response frame parses back to exactly the command byte and payload it
/// carries, whatever bytes follow it in the receive buffer.
pub proof fn lemma_response_round_trip<E>(cmd: u8, data: Seq<u8>, trailing: Seq<u8>)
    requires
        data.len() <= 253,
    ensures
        parse_response::<E>(frame_bytes(DEVICE_TO_HOST, cmd, data) + trailing) == Ok::<
            (u8, Seq<u8>),
            Error<E>,
        >((cmd, data)),
{
    let f = frame_bytes(DEVICE_TO_HOST, cmd, data);
    let buf = f + trailing;
    let n = data.len() as int;
    assert(buf[3] == n + 2);
    let body = buf.subrange(5, 8 + n);
    assert(body =~= seq![DEVICE_TO_HOST, cmd] + data + seq![
        negation(DEVICE_TO_HOST + cmd + byte_sum(data)),
    ]);
    let head = seq![DEVICE_TO_HOST, cmd];
    let dcs = seq![negation(DEVICE_TO_HOST + cmd + byte_sum(data))];
    lemma_byte_sum_concat(head + data, dcs);
    lemma_byte_sum_concat(head, data);
    assert(head.drop_last() =~= seq![DEVICE_TO_HOST]);
    assert(head.drop_last().drop_last() =~= Seq::<u8>::empty());
    assert(byte_sum(Seq::<u8>::empty()) == 0);
    assert(byte_sum(head.drop_last()) == DEVICE_TO_HOST);
    assert(byte_sum(head) == DEVICE_TO_HOST + cmd);
    assert(dcs.drop_last() =~= Seq::<u8>::empty());
    assert(byte_sum(dcs) == negation(DEVICE_TO_HOST + cmd + byte_sum(data)));
    assert(byte_sum(body) % 256 == 0);
    assert(buf[0] == 0 && buf[1] == 0 && buf[2] == 0xFF && buf[5] == DEVICE_TO_HOST);
    assert(buf[6] == cmd && buf[6 + buf[3]] == 0);
    assert((buf[3] + buf[4]) % 256 == 0);
    assert(buf.subrange(7, 5 + n + 2) =~= data);
}

/// Corrupting one byte of a response frame's start code, length, length
/// checksum, direction byte, data checksum or postamble is reported with the
/// error kind of the check that byte belongs to, never as a valid frame.
pub proof fn lemma_corrupted_frame_rejected<E>(cmd: u8, data: Seq<u8>, i: int, v: u8)
    requires
        data.len() <= 253,
        0 <= i <= 5 || i == 7 + data.len() || i == 8 + data.len(),
        frame_bytes(DEVICE_TO_HOST, cmd, data)[i] != v,
    ensures
        parse_response::<E>(frame_bytes(DEVICE_TO_HOST, cmd, data).update(i, v)) == if i < 3 || i
            == 5 || i == 8 + data.len() {
            Err::<(u8, Seq<u8>), Error<E>>(Error::BadResponse)
        } else {
            Err::<(u8, Seq<u8>), Error<E>>(Error::BadChecksum)
        },
{
    let f = frame_bytes(DEVICE_TO_HOST, cmd, data);
    let g = f.update(i, v);
    let n = data.len() as int;
    lemma_response_round_trip::<E>(cmd, data, Seq::<u8>::empty());
    assert(f + Seq::<u8>::empty() =~= f);
    let len = f[3];
    assert(len == n + 2);
    assert(byte_sum(f.subrange(5, 8 + n)) % 256 == 0);
    if i < 3 {
        assert(!(g[0] == 0x00 && g[1] == 0x00 && g[2] == 0xFF));
    } else if i == 3 || i == 4 {
        assert(g[0] == 0x00 && g[1] == 0x00 && g[2] == 0xFF);
        assert((g[3] + g[4]) % 256 != 0);
    } else if i == 5 {
        assert(g.subrange(0, 5) =~= f.subrange(0, 5));
        assert(g[6 + len] == 0x00);
        assert(g[5] != DEVICE_TO_HOST);
    } else if i == 7 + n {
        assert(g.subrange(0, 7) =~= f.subrange(0, 7));
        assert(g[6 + len] == 0x00);
        assert(g.subrange(5, 8 + n) =~= f.subrange(5, 8 + n).update(2 + n, v));
        lemma_byte_sum_update(f.subrange(5, 8 + n), 2 + n, v);
        assert(byte_sum(g.subrange(5, 6 + len)) % 256 != 0);
    } else {
        assert(g.subrange(0, 7) =~= f.subrange(0, 7));
        assert(g[6 + len] != 0x00);
    }
}

} // verus!
