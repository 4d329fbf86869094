//! Packets of the game protocol and the codec that reads and writes them.
//!
//! The structure of a packet is:
//!
//! - 2 bytes: the length of the packet,
//! - 4 bytes: the header, which carries the session id,
//! - 2 bytes: the command,
//! - the data of the command (strings, longs, shorts, ...).
//!
//! Every number is stored most significant byte first.
pub mod auth;
pub mod laws;
pub mod commands;
pub mod heartbeat;
pub mod init;
pub mod packets;
pub mod parser;

use crate::byte_order::{be_read_u16, be_read_u32, be_read_u64, be_write_u16, le_write_u16, le_write_u32, le_write_u64};
use crate::bytes_buf::{
    buf_as_slice, buf_clone, buf_from_slice, buf_len, buf_put_u8, buf_split_off, buf_truncate,
    buf_unsplit, buf_with_capacity, bytes_of,
};
use crate::clock::{instant_elapsed, instant_now};
use crate::network::rpc::MAX_SESS_ID_VALUE;
use crate::text::string_from_utf8;
use crate::wire::{
    be_bytes, be_value, le_bytes, lemma_be_bytes_2, lemma_be_bytes_4, lemma_be_bytes_len, lemma_be_read_back, lemma_be_value_bound,
    lemma_le_bytes_len, lemma_pow256_values, lemma_reversed_le_is_be, reversed,
};
use bytes::BytesMut;
use commands::Command;
use core::time::Duration;
use tokio::time::Instant;
use vstd::prelude::*;
use vstd::slice::{slice_subrange, slice_to_vec};
use vstd::utf8::{decode_utf8, encode_utf8, valid_utf8};

verus! {

/// The header of a packet that has no session id of its own.
pub const DEFAULT_HEADER: u32 = 0x80000000;

/// Why a buffer does not hold a complete packet.
#[derive(Debug, PartialEq, Eq, Structural)]
pub enum FrameError {
    Incomplete,
    Invalid,
}

/// Why a packet could not be turned into a typed packet.
#[derive(Debug, PartialEq, Eq, Structural)]
pub enum PacketError {
    /// A heartbeat packet must have a length of 2.
    InvalidHeartbeatLength,
}

/// What a packet holds: its bytes and the state of its readers and writers.
pub struct PacketView {
    pub data: Seq<u8>,
    pub cmd: Command,
    pub raw_cmd: u16,
    pub size: u16,
    pub offset: u8,
    pub header: u32,
    pub reverse_offset: u8,
    pub is_for_rpc: bool,
    pub session_id: Option<u32>,
    pub is_built: bool,
}

/// The bytes of a complete packet: its length, header and command, then its data.
pub open spec fn frame_bytes(size: nat, header: u32, cmd: u16, payload: Seq<u8>) -> Seq<u8> {
    be_bytes(size, 2) + be_bytes(header as nat, 4) + be_bytes(cmd as nat, 2) + payload
}

/// The bytes that `write_sequence` adds for `seq` and the length `len`: the
/// length plus one as a short, the first `len` bytes of `seq` (fewer when it is
/// shorter) and a terminating zero.
pub open spec fn encode_sequence(seq: Seq<u8>, len: u16) -> Seq<u8> {
    be_bytes((len + 1) as nat, 2) + seq.take(min_len(len as int, seq.len() as int)) + seq![0u8]
}

pub open spec fn min_len(a: int, b: int) -> int {
    if a <= b {
        a
    } else {
        b
    }
}

/// The length that `write_string` gives a string: that of its UTF-8 bytes,
/// taken modulo 2^16.
pub open spec fn string_wire_len(s: Seq<char>) -> u16 {
    (encode_utf8(s).len() % 65536) as u16
}

/// The bytes that `write_string` adds for `s`.
pub open spec fn encode_string(s: Seq<char>) -> Seq<u8> {
    encode_sequence(encode_utf8(s), string_wire_len(s))
}

/// A written string takes three bytes more than its (possibly cut) UTF-8 bytes.
pub proof fn lemma_encode_string_len(s: Seq<char>)
    ensures
        encode_string(s).len() == 3 + min_len(
            string_wire_len(s) as int,
            encode_utf8(s).len() as int,
        ),
        encode_string(s).len() <= 3 + string_wire_len(s),
{
    lemma_be_bytes_len((string_wire_len(s) + 1) as nat, 2);
}

/// The view of a packet fresh from `BasePacket::new`.
pub open spec fn new_packet_view() -> PacketView {
    PacketView {
        data: Seq::empty(),
        cmd: Command::NoCommand,
        raw_cmd: 0,
        size: 0,
        offset: 4,
        header: DEFAULT_HEADER,
        reverse_offset: 0,
        is_for_rpc: false,
        session_id: None,
        is_built: false,
    }
}

/// The view of a packet made by `BasePacket::new`, given the command `cmd`,
/// written the bytes `payload` and built.
pub open spec fn built_new_packet(cmd: Command, payload: Seq<u8>) -> PacketView {
    PacketView {
        data: frame_bytes(
            ((payload.len() + 8) % 65536) as nat,
            DEFAULT_HEADER,
            cmd.spec_to_u16(),
            payload,
        ),
        cmd: cmd,
        raw_cmd: cmd.spec_to_u16(),
        size: payload.len() as u16,
        offset: 4,
        header: DEFAULT_HEADER,
        reverse_offset: 0,
        is_for_rpc: false,
        session_id: None,
        is_built: true,
    }
}

/// The view of a packet read from the bytes `d` before any field is read.
pub open spec fn raw_packet_view(d: Seq<u8>) -> PacketView {
    PacketView {
        data: d,
        cmd: Command::NoCommand,
        raw_cmd: 0,
        size: 0,
        offset: 0,
        header: 0,
        reverse_offset: 0,
        is_for_rpc: false,
        session_id: None,
        is_built: true,
    }
}

/// The view of the packet that `BasePacket::from_bytes` makes of `d`: the
/// length, header (also taken as the session id) and command are read in turn,
/// each when enough bytes are left.
pub open spec fn spec_from_bytes(d: Seq<u8>) -> PacketView {
    let v0 = raw_packet_view(d);
    let v1 = match v0.spec_read_uint(2).0 {
        Some(x) => PacketView { size: x as u16, ..v0.spec_read_uint(2).1 },
        None => v0.spec_read_uint(2).1,
    };
    let v2 = match v1.spec_read_uint(4).0 {
        Some(x) => PacketView {
            header: x as u32,
            session_id: Some(x as u32),
            ..v1.spec_read_uint(4).1
        },
        None => v1.spec_read_uint(4).1,
    };
    v2.spec_read_cmd().1
}

impl PacketView {
    /// Bytes left after the read position.
    pub open spec fn remaining(self) -> int {
        self.data.len() - self.offset
    }

    /// The `n` bytes at the read position.
    pub open spec fn bytes_at(self, n: int) -> Seq<u8> {
        self.data.subrange(self.offset as int, self.offset + n)
    }

    /// A read of `n` bytes neither finds the read position beyond the end nor
    /// moves it past 255.
    pub open spec fn readable(self, n: int) -> bool {
        &&& self.offset <= self.data.len()
        &&& self.remaining() >= n ==> self.offset + n <= 255
    }

    pub open spec fn with_offset(self, o: int) -> PacketView {
        PacketView { offset: o as u8, ..self }
    }

    pub open spec fn with_data(self, d: Seq<u8>) -> PacketView {
        PacketView { data: d, ..self }
    }

    /// Reading an `n`-byte number: its value and the packet after the read.
    pub open spec fn spec_read_uint(self, n: int) -> (Option<nat>, PacketView) {
        if self.remaining() >= n {
            (Some(be_value(self.bytes_at(n))), self.with_offset(self.offset + n))
        } else {
            (None, self)
        }
    }

    /// Reading the command: a command already read (or a read position past
    /// the command) gives that command; otherwise the next two bytes are the
    /// command number, and a number that names no command gives `NoCommand`.
    pub open spec fn spec_read_cmd(self) -> (Option<Command>, PacketView) {
        if self.cmd != Command::NoCommand || self.offset > 6 {
            (Some(self.cmd), self)
        } else if self.remaining() < 2 {
            (None, self)
        } else {
            let v = be_value(self.bytes_at(2)) as u16;
            let c = match Command::spec_from_u16(v) {
                Some(c) => c,
                None => Command::NoCommand,
            };
            (Some(c), PacketView { raw_cmd: v, cmd: c, offset: (self.offset + 2) as u8, ..self })
        }
    }

    /// The length stored in front of a sequence at the read position.
    pub open spec fn sequence_len(self) -> int {
        be_value(self.bytes_at(2)) as int
    }

    /// A sequence can be read: its length and all but the last of its bytes
    /// are there, and the length is at least one.
    pub open spec fn sequence_ok(self) -> bool {
        &&& self.remaining() >= 2
        &&& 1 <= self.sequence_len()
        &&& self.sequence_len() + 1 <= self.remaining()
    }

    /// How far a successful sequence read moves the read position (the
    /// distance is taken modulo 256).
    pub open spec fn sequence_step(self) -> int {
        (2 + self.sequence_len()) % 256
    }

    /// Reading a sequence: the bytes after its length, without the last one
    /// (a terminating zero, which is not checked), and the packet after the read.
    pub open spec fn spec_read_sequence(self) -> (Option<Seq<u8>>, PacketView) {
        if self.sequence_ok() {
            (
                Some(
                    self.data.subrange(
                        self.offset + 2,
                        self.offset + 2 + self.sequence_len() - 1,
                    ),
                ),
                self.with_offset(self.offset + self.sequence_step()),
            )
        } else {
            (None, self)
        }
    }

    /// A sequence read neither finds the read position beyond the end nor
    /// moves it past 255.
    pub open spec fn sequence_readable(self) -> bool {
        &&& self.offset <= self.data.len()
        &&& self.sequence_ok() ==> self.offset + self.sequence_step() <= 255
    }

    /// Reading a string: a sequence, decoded as UTF-8; invalid UTF-8 gives no
    /// string, though the sequence is consumed.
    pub open spec fn spec_read_string(self) -> (Option<Seq<char>>, PacketView) {
        match self.spec_read_sequence().0 {
            Some(b) => if valid_utf8(b) {
                (Some(decode_utf8(b)), self.spec_read_sequence().1)
            } else {
                (None, self.spec_read_sequence().1)
            },
            None => (None, self),
        }
    }

    /// Reading `n` bytes back from the end: the `n` bytes before those read
    /// back so far, and the packet after the read.
    pub open spec fn spec_reverse_read(self, n: int) -> (Option<Seq<u8>>, PacketView) {
        if self.reverse_offset + n <= self.data.len() {
            (
                Some(
                    self.data.subrange(
                        self.data.len() - self.reverse_offset - n,
                        self.data.len() - self.reverse_offset,
                    ),
                ),
                PacketView { reverse_offset: (self.reverse_offset + n) as u8, ..self },
            )
        } else {
            (None, self)
        }
    }

    /// A read from the end does not move the reverse read position past 255.
    pub open spec fn reverse_readable(self, n: int) -> bool {
        self.reverse_offset + n <= self.data.len() ==> self.reverse_offset + n <= 255
    }

    /// The session id in the header bytes, with `MAX_SESS_ID_VALUE` taken off
    /// values above it.
    pub open spec fn spec_session_id(self) -> Option<u32> {
        if self.data.len() >= 6 {
            let v = be_value(self.data.subrange(2, 6));
            if v > MAX_SESS_ID_VALUE {
                Some((v - MAX_SESS_ID_VALUE) as u32)
            } else {
                Some(v as u32)
            }
        } else {
            None
        }
    }

    /// Dropping the last `len` bytes: the size becomes the new length (modulo
    /// 2^16) and the reverse read position moves back by `len`, to no less than 0.
    pub open spec fn spec_discard_last(self, len: int) -> PacketView {
        PacketView {
            data: self.data.take(self.data.len() - len),
            size: ((self.data.len() - len) % 65536) as u16,
            reverse_offset: if len > self.reverse_offset {
                0u8
            } else {
                (self.reverse_offset - len) as u8
            },
            ..self
        }
    }

    /// Removing the bytes from `start` up to `end`: the read position goes
    /// back to 0 and the size becomes the new length (modulo 2^16).
    pub open spec fn spec_remove_range(self, start: int, end: int) -> PacketView {
        PacketView {
            data: self.data.take(start) + self.data.skip(end),
            offset: 0,
            size: ((self.data.len() - (end - start)) % 65536) as u16,
            ..self
        }
    }

    /// Appending `b` to the data, which also counts its bytes in the size.
    pub open spec fn appended(self, b: Seq<u8>) -> PacketView {
        PacketView { data: self.data + b, size: (self.size + b.len()) as u16, ..self }
    }

    /// Building: the length, header (the session id when there is one) and
    /// command are put in front of the data; a packet that was built already
    /// loses its first eight bytes first. The size field is left as it is.
    pub open spec fn spec_build(self) -> PacketView {
        let payload = if self.is_built {
            self.data.skip(8)
        } else {
            self.data
        };
        let hdr = match self.session_id {
            Some(s) => s,
            None => self.header,
        };
        PacketView {
            data: frame_bytes(((payload.len() + 8) % 65536) as nat, hdr, self.raw_cmd, payload),
            is_built: true,
            ..self
        }
    }
}

/// A packet: its bytes and the positions of a reader that moves forward from
/// the start and one that moves backward from the end.
#[derive(Debug)]
pub struct BasePacket {
    data: BytesMut,
    cmd: Command,
    raw_cmd: u16,
    size: u16,
    offset: u8,
    header: u32,
    reverse_offset: u8,
    tick_count: Instant,
    is_for_rpc: bool,
    session_id: Option<u32>,
    is_built: bool,
}

impl View for BasePacket {
    type V = PacketView;

    closed spec fn view(&self) -> PacketView {
        PacketView {
            data: bytes_of(self.data),
            cmd: self.cmd,
            raw_cmd: self.raw_cmd,
            size: self.size,
            offset: self.offset,
            header: self.header,
            reverse_offset: self.reverse_offset,
            is_for_rpc: self.is_for_rpc,
            session_id: self.session_id,
            is_built: self.is_built,
        }
    }
}

impl BasePacket {
    /// An empty packet, to be written. The read position starts at 4, since
    /// four bytes of the header are consumed to identify the whole frame.
    pub fn new() -> (r: Self)
        ensures
            r@ == new_packet_view(),
    {
        BasePacket {
            data: buf_with_capacity(64),
            cmd: Command::NoCommand,
            raw_cmd: 0,
            size: 0,
            offset: 4,
            header: DEFAULT_HEADER,
            reverse_offset: 0,
            tick_count: instant_now(),
            is_for_rpc: false,
            session_id: None,
            is_built: false,
        }
    }

    /// A packet read from `data`: its length, header and command are read.
    pub fn from_bytes(data: BytesMut) -> (r: Self)
        ensures
            r@ == spec_from_bytes(bytes_of(data)),
    {
        let mut packet = BasePacket {
            data,
            cmd: Command::NoCommand,
            raw_cmd: 0,
            size: 0,
            offset: 0,
            header: 0,
            reverse_offset: 0,
            tick_count: instant_now(),
            is_for_rpc: false,
            session_id: None,
            is_built: true,
        };
        assert(packet@ == raw_packet_view(bytes_of(data)));
        if let Some(size) = packet.read_short() {
            packet.size = size;
        }
        if let Some(header) = packet.read_long() {
            packet.header = header;
            packet.session_id = Some(header);
        }
        if let Some(cmd) = packet.read_cmd() {
            packet.cmd = cmd;
        }
        packet
    }

    /// The bytes of the packet.
    pub fn as_bytes(self) -> (r: BytesMut)
        ensures
            bytes_of(r) == self@.data,
    {
        self.data
    }

    /// The time since the packet was made.
    pub fn get_time_since_creation(&self) -> Duration {
        instant_elapsed(&self.tick_count)
    }

    pub fn is_for_rpc(&self) -> (r: bool)
        ensures
            r == self@.is_for_rpc,
    {
        self.is_for_rpc
    }

    pub fn get_len(&self) -> (r: u16)
        ensures
            r == self@.size,
    {
        self.size
    }

    pub fn set_len(&mut self, len: u16)
        ensures
            final(self)@ == (PacketView { size: len, ..old(self)@ }),
    {
        self.size = len
    }

    pub fn get_session_id(&self) -> (r: Option<u32>)
        ensures
            r == self@.session_id,
    {
        self.session_id
    }

    /// The number of bytes after the read position. It panics when the read
    /// position is past the end, which is ruled out here.
    pub fn get_remaining_packet_len(&self) -> (r: usize)
        requires
            self@.offset <= self@.data.len(),
        ensures
            r == self@.remaining(),
    {
        let offset = self.offset as usize;
        buf_len(&self.data) - offset
    }

    /// The packet holds more than its length, header and command.
    pub fn has_data(&self) -> (r: bool)
        ensures
            r == (self@.data.len() > 8),
    {
        buf_len(&self.data) > (2 + 4 + 2)
    }

    fn get_total_packet_len(&self) -> (r: usize)
        ensures
            r == self@.data.len(),
    {
        buf_len(&self.data)
    }

    fn increment_offset(&mut self, n: u8)
        requires
            old(self)@.offset + n <= 255,
        ensures
            final(self)@ == old(self)@.with_offset(old(self)@.offset + n),
    {
        self.offset = self.offset + n;
    }

    fn increment_reverse_offset(&mut self, n: u8)
        requires
            old(self)@.reverse_offset + n <= 255,
        ensures
            final(self)@ == (PacketView {
                reverse_offset: (old(self)@.reverse_offset + n) as u8,
                ..old(self)@
            }),
    {
        self.reverse_offset = self.reverse_offset + n;
    }

    fn has_enough_bytes_for_data(&self, n: usize) -> (r: bool)
        requires
            self@.offset <= self@.data.len(),
        ensures
            r == (self@.remaining() >= n),
    {
        let packet_len = self.get_remaining_packet_len();
        if packet_len < n {
            return false;
        }
        true
    }

    /// The bytes of the packet.
    pub fn get_as_bytes(self) -> (r: BytesMut)
        ensures
            bytes_of(r) == self@.data,
    {
        self.data
    }

    /// A copy of the packet whose reader starts after the length, header and
    /// command, and whose reverse reader starts at the end.
    pub fn duplicate(&self) -> (r: Self)
        ensures
            r@ == (PacketView { offset: 8, reverse_offset: 0, ..self@ }),
    {
        BasePacket {
            data: buf_clone(&self.data),
            cmd: self.cmd,
            raw_cmd: self.raw_cmd,
            size: self.size,
            offset: 8,
            header: self.header,
            reverse_offset: 0,
            tick_count: self.tick_count,
            is_for_rpc: self.is_for_rpc,
            session_id: self.session_id,
            is_built: self.is_built,
        }
    }

    /// Whether `buffer` starts with a complete frame. The first two bytes are
    /// the frame's length, which counts those two bytes too: `Incomplete`
    /// when they are missing or when fewer bytes than the length are there,
    /// `Invalid` for a length below 2, otherwise the length, so that
    /// `parse_frame` can take the whole frame.
    pub fn check_frame(buffer: &BytesMut, could_be_rpc: bool) -> (r: Result<usize, FrameError>)
        ensures
            bytes_of(*buffer).len() < 2 ==> r == Err::<usize, FrameError>(FrameError::Incomplete),
            bytes_of(*buffer).len() >= 2 ==> {
                let n = be_value(bytes_of(*buffer).take(2));
                if n < 2 {
                    r == Err::<usize, FrameError>(FrameError::Invalid)
                } else if bytes_of(*buffer).len() < n {
                    r == Err::<usize, FrameError>(FrameError::Incomplete)
                } else {
                    r == Ok::<usize, FrameError>(n as usize)
                }
            },
    {
        let s = buf_as_slice(buffer);
        if s.len() < 2 {
            return Err(FrameError::Incomplete);
        }
        let head = slice_subrange(s, 0, 2);
        assert(head@.take(2) =~= bytes_of(*buffer).take(2));
        let packet_length = be_read_u16(head) as usize;
        if packet_length < 2 {
            return Err(FrameError::Invalid);
        }
        if buf_len(buffer) < packet_length {
            return Err(FrameError::Incomplete);
        }
        Ok(packet_length)
    }

    /// Drops the last `len` bytes. The size becomes the new length (modulo
    /// 2^16) and the reverse reader moves back by `len`, to no less than 0.
    pub fn discard_last(&mut self, len: usize)
        requires
            len <= old(self)@.data.len(),
        ensures
            final(self)@ == old(self)@.spec_discard_last(len as int),
            final(self)@.data.len() + len <= usize::MAX,
    {
        let total = buf_len(&self.data);
        buf_truncate(&mut self.data, total - len);
        let new_len = buf_len(&self.data);
        self.set_len((new_len % 65536) as u16);
        if len > self.reverse_offset as usize {
            self.reverse_offset = 0;
        } else {
            self.reverse_offset = self.reverse_offset - len as u8;
        }
    }

    /// Removes the bytes from `start` up to `end`. The read position goes back
    /// to 0 and the size becomes the new length (modulo 2^16).
    pub fn remove_range(&mut self, range: core::ops::Range<usize>)
        requires
            range.start <= range.end <= old(self)@.data.len(),
        ensures
            final(self)@ == old(self)@.spec_remove_range(range.start as int, range.end as int),
    {
        let mut remaining_bytes = buf_split_off(&mut self.data, range.start);
        let end_bytes = buf_split_off(&mut remaining_bytes, range.end - range.start);
        buf_unsplit(&mut self.data, end_bytes);
        self.offset = 0;
        let new_len = buf_len(&self.data);
        proof {
            assert(old(self)@.data.skip(range.start as int).skip((range.end - range.start) as int)
                =~= old(self)@.data.skip(range.end as int));
        }
        self.set_len((new_len % 65536) as u16);
    }

    /// The packet made of the first `len` bytes of `buffer`, which
    /// `check_frame` has found to hold a frame of that length.
    pub fn parse_frame(buffer: &mut BytesMut, len: usize) -> (r: Result<Self, FrameError>)
        requires
            len <= bytes_of(*old(buffer)).len(),
        ensures
            *final(buffer) == *old(buffer),
            r matches Ok(p) && p@ == spec_from_bytes(bytes_of(*old(buffer)).take(len as int)),
    {
        let s = buf_as_slice(buffer);
        let head = slice_subrange(s, 0, len);
        let final_buffer = buf_from_slice(head);
        Ok(BasePacket::from_bytes(final_buffer))
    }

    /// Puts the default header back, which is also taken as the session id.
    pub fn reset_header(&mut self)
        ensures
            final(self)@ == (PacketView {
                header: DEFAULT_HEADER,
                session_id: Some(DEFAULT_HEADER),
                ..old(self)@
            }),
    {
        self.header = DEFAULT_HEADER;
        self.session_id = Some(DEFAULT_HEADER);
    }

    pub fn get_raw_cmd(&self) -> (r: u16)
        ensures
            r == self@.raw_cmd,
    {
        self.raw_cmd
    }

    /// The read position.
    pub fn get_offset(&self) -> (r: u8)
        ensures
            r == self@.offset,
    {
        self.offset
    }

    /// How many bytes have been read back from the end.
    pub fn get_reverse_offset(&self) -> (r: u8)
        ensures
            r == self@.reverse_offset,
    {
        self.reverse_offset
    }

    /// The number of bytes held.
    pub fn data_len(&self) -> (r: usize)
        ensures
            r == self@.data.len(),
    {
        self.get_total_packet_len()
    }

    /// Whether the length, header and command have been put in front.
    pub fn is_built(&self) -> (r: bool)
        ensures
            r == self@.is_built,
    {
        self.is_built
    }

    /// Whether reading an `n`-byte number is allowed here (see
    /// `PacketView::readable`).
    pub fn can_read(&self, n: usize) -> (r: bool)
        ensures
            r == self@.readable(n as int),
    {
        let len = self.get_total_packet_len();
        let offset = self.offset as usize;
        if offset > len {
            return false;
        }
        len - offset < n || offset + n <= 255
    }

    /// Whether reading the command is allowed here: a command still to be
    /// read needs a read position within the data.
    pub fn can_read_cmd(&self) -> (r: bool)
        ensures
            r == (self@.cmd == Command::NoCommand && self@.offset <= 6 ==> self@.offset
                <= self@.data.len()),
    {
        !(self.cmd == Command::NoCommand && self.offset <= 6) || (self.offset as usize)
            <= self.get_total_packet_len()
    }

    /// Whether reading `n` bytes back from the end is allowed here (see
    /// `PacketView::reverse_readable`).
    pub fn can_reverse_read(&self, n: usize) -> (r: bool)
        requires
            n <= 255,
        ensures
            r == self@.reverse_readable(n as int),
    {
        let len = self.get_total_packet_len();
        let end = self.reverse_offset as usize + n;
        end > len || end <= 255
    }

    /// Whether reading a sequence is allowed here (see
    /// `PacketView::sequence_readable`).
    pub fn can_read_sequence(&self) -> (r: bool)
        ensures
            r == self@.sequence_readable(),
    {
        let len = self.get_total_packet_len();
        let offset = self.offset as usize;
        if offset > len {
            return false;
        }
        if len - offset < 2 {
            return true;
        }
        let s = buf_as_slice(&self.data);
        let field = slice_subrange(s, offset, offset + 2);
        assert(field@.take(2) =~= self@.bytes_at(2));
        let seq_len = be_read_u16(field) as usize;
        if seq_len < 1 || seq_len + 1 > len - offset {
            return true;
        }
        offset + (2 + seq_len) % 256 <= 255
    }
}

/// The length that `write_string` gives `s` (see `string_wire_len`).
pub fn string_wire_length(s: &str) -> (r: u16)
    ensures
        r == string_wire_len(s@),
{
    let n = s.as_bytes().len();
    (n % 65536) as u16
}


/// Reading: the forward reader starts at the read position; the reverse reader
/// reads the bytes before those it has read back from the end.
impl BasePacket {
    /// The command: the one read before (or when the read position is past
    /// the command), otherwise read from the next two bytes (see
    /// `PacketView::spec_read_cmd`).
    pub fn read_cmd(&mut self) -> (r: Option<Command>)
        requires
            old(self)@.cmd == Command::NoCommand && old(self)@.offset <= 6 ==> old(self)@.offset <= old(self)@.data.len(),
        ensures
            (r, final(self)@) == old(self)@.spec_read_cmd(),
    {
        if self.cmd != Command::NoCommand || self.offset > 6 {
            return Some(self.cmd);
        }
        let offset = self.offset as usize;
        if !self.has_enough_bytes_for_data(2) {
            return None;
        }
        let s = buf_as_slice(&self.data);
        let field = slice_subrange(s, offset, offset + 2);
        assert(field@.take(2) =~= self@.bytes_at(2));
        let primitive_command = be_read_u16(field);
        self.raw_cmd = primitive_command;
        match Command::try_from_u16(primitive_command) {
            Some(command) => {
                self.increment_offset(2);
                self.cmd = command;
                Some(command)
            },
            None => {
                self.increment_offset(2);
                self.cmd = Command::NoCommand;
                Some(Command::NoCommand)
            },
        }
    }

    /// Reads `n` bytes at the read position as a number.
    fn read_uint(&mut self, n: usize) -> (r: Option<u64>)
        requires
            n == 1 || n == 2 || n == 4 || n == 8,
            old(self)@.readable(n as int),
        ensures
            final(self)@ == old(self)@.spec_read_uint(n as int).1,
            r is Some <==> old(self)@.spec_read_uint(n as int).0 is Some,
            r matches Some(v) ==> v == old(self)@.spec_read_uint(n as int).0.unwrap(),
    {
        let offset = self.offset as usize;
        if !self.has_enough_bytes_for_data(n) {
            return None;
        }
        let s = buf_as_slice(&self.data);
        let field = slice_subrange(s, offset, offset + n);
        assert(field@.take(n as int) =~= self@.bytes_at(n as int));
        let v: u64 = if n == 1 {
            proof {
                reveal_with_fuel(be_value, 2);
                assert(field@.take(1).drop_last() =~= Seq::<u8>::empty());
            }
            field[0] as u64
        } else if n == 2 {
            be_read_u16(field) as u64
        } else if n == 4 {
            be_read_u32(field) as u64
        } else {
            be_read_u64(field)
        };
        self.increment_offset(n as u8);
        Some(v)
    }

    /// One byte at the read position.
    pub fn read_char(&mut self) -> (r: Option<u8>)
        requires
            old(self)@.readable(1),
        ensures
            final(self)@ == old(self)@.spec_read_uint(1).1,
            r is Some <==> old(self)@.remaining() >= 1,
            r matches Some(v) ==> v == old(self)@.data[old(self)@.offset as int],
    {
        let r = self.read_uint(1);
        proof {
            if r is Some {
                reveal_with_fuel(be_value, 2);
                assert(old(self)@.bytes_at(1).drop_last() =~= Seq::<u8>::empty());
            }
        }
        match r {
            Some(v) => Some(v as u8),
            None => None,
        }
    }

    /// Two bytes at the read position, most significant first.
    pub fn read_short(&mut self) -> (r: Option<u16>)
        requires
            old(self)@.readable(2),
        ensures
            final(self)@ == old(self)@.spec_read_uint(2).1,
            r is Some <==> old(self)@.remaining() >= 2,
            r matches Some(v) ==> v == be_value(old(self)@.bytes_at(2)),
    {
        proof {
            lemma_be_value_bound(old(self)@.bytes_at(2));
            lemma_pow256_values();
        }
        match self.read_uint(2) {
            Some(v) => Some(v as u16),
            None => None,
        }
    }

    /// Four bytes at the read position, most significant first.
    pub fn read_long(&mut self) -> (r: Option<u32>)
        requires
            old(self)@.readable(4),
        ensures
            final(self)@ == old(self)@.spec_read_uint(4).1,
            r is Some <==> old(self)@.remaining() >= 4,
            r matches Some(v) ==> v == be_value(old(self)@.bytes_at(4)),
    {
        proof {
            lemma_be_value_bound(old(self)@.bytes_at(4));
            lemma_pow256_values();
        }
        match self.read_uint(4) {
            Some(v) => Some(v as u32),
            None => None,
        }
    }

    /// Eight bytes at the read position, most significant first.
    pub fn read_long_long(&mut self) -> (r: Option<u64>)
        requires
            old(self)@.readable(8),
        ensures
            final(self)@ == old(self)@.spec_read_uint(8).1,
            r is Some <==> old(self)@.remaining() >= 8,
            r matches Some(v) ==> v == be_value(old(self)@.bytes_at(8)),
    {
        self.read_uint(8)
    }

    /// A sequence at the read position (see `PacketView::spec_read_sequence`).
    pub fn read_sequence(&mut self) -> (r: Option<&[u8]>)
        requires
            old(self)@.sequence_readable(),
        ensures
            final(self)@ == old(self)@.spec_read_sequence().1,
            r is Some <==> old(self)@.spec_read_sequence().0 is Some,
            r matches Some(b) ==> b@ == old(self)@.spec_read_sequence().0.unwrap(),
    {
        let offset = self.offset as usize;
        if !self.has_enough_bytes_for_data(2) {
            return None;
        }
        let s = buf_as_slice(&self.data);
        let field = slice_subrange(s, offset, offset + 2);
        assert(field@.take(2) =~= self@.bytes_at(2));
        let sequence_length = be_read_u16(field) as usize;
        if self.get_remaining_packet_len() < sequence_length {
            return None;
        }
        let sequence_start_offset = offset + 2;
        if sequence_length == 0 || sequence_start_offset + sequence_length - 1 > s.len() {
            return None;
        }
        let sequence = slice_subrange(
            s,
            sequence_start_offset,
            sequence_start_offset + sequence_length - 1,
        );
        let step = ((2 + sequence_length) % 256) as u8;
        self.offset = self.offset + step;
        Some(sequence)
    }

    /// A string at the read position (see `PacketView::spec_read_string`).
    pub fn read_string(&mut self) -> (r: Option<String>)
        requires
            old(self)@.sequence_readable(),
        ensures
            final(self)@ == old(self)@.spec_read_string().1,
            r is Some <==> old(self)@.spec_read_string().0 is Some,
            r matches Some(s) ==> s@ == old(self)@.spec_read_string().0.unwrap(),
    {
        let sequence = self.read_sequence();
        match sequence {
            Some(b) => {
                let buf = slice_to_vec(b);
                string_from_utf8(buf)
            },
            None => None,
        }
    }

    /// One byte read back from the end.
    pub fn reverse_read_char(&mut self) -> (r: Option<u8>)
        requires
            old(self)@.reverse_readable(1),
        ensures
            final(self)@ == old(self)@.spec_reverse_read(1).1,
            r is Some <==> old(self)@.spec_reverse_read(1).0 is Some,
            r matches Some(v) ==> v == old(self)@.spec_reverse_read(1).0.unwrap()[0],
    {
        if self.get_total_packet_len() < self.reverse_offset as usize + 1 {
            return None;
        }
        self.increment_reverse_offset(1);
        let start_index = self.get_total_packet_len() - self.reverse_offset as usize;
        let s = buf_as_slice(&self.data);
        Some(s[start_index])
    }

    /// Two bytes read back from the end, most significant first.
    pub fn reverse_read_short(&mut self) -> (r: Option<u16>)
        requires
            old(self)@.reverse_readable(2),
        ensures
            final(self)@ == old(self)@.spec_reverse_read(2).1,
            r is Some <==> old(self)@.spec_reverse_read(2).0 is Some,
            r matches Some(v) ==> v == be_value(old(self)@.spec_reverse_read(2).0.unwrap()),
    {
        if self.get_total_packet_len() < self.reverse_offset as usize + 2 {
            return None;
        }
        self.increment_reverse_offset(2);
        let start_index = self.get_total_packet_len() - self.reverse_offset as usize;
        let s = buf_as_slice(&self.data);
        let field = slice_subrange(s, start_index, start_index + 2);
        assert(field@.take(2) =~= old(self)@.spec_reverse_read(2).0.unwrap());
        Some(be_read_u16(field))
    }

    /// Four bytes read back from the end, most significant first.
    pub fn reverse_read_long(&mut self) -> (r: Option<u32>)
        requires
            old(self)@.reverse_readable(4),
        ensures
            final(self)@ == old(self)@.spec_reverse_read(4).1,
            r is Some <==> old(self)@.spec_reverse_read(4).0 is Some,
            r matches Some(v) ==> v == be_value(old(self)@.spec_reverse_read(4).0.unwrap()),
    {
        if self.get_total_packet_len() < self.reverse_offset as usize + 4 {
            return None;
        }
        self.increment_reverse_offset(4);
        let start_index = self.get_total_packet_len() - self.reverse_offset as usize;
        let s = buf_as_slice(&self.data);
        let field = slice_subrange(s, start_index, start_index + 4);
        assert(field@.take(4) =~= old(self)@.spec_reverse_read(4).0.unwrap());
        Some(be_read_u32(field))
    }

    /// Reads `num_bytes` bytes from the trailing end of the packet: the
    /// `num_bytes` bytes in front of those read back so far (see
    /// `PacketView::spec_reverse_read`), after which the reverse reader has
    /// moved back over them. Nothing is read when the packet is too short.
    pub fn reverse_read_bytes(&mut self, num_bytes: usize) -> (r: Option<&[u8]>)
        requires
            old(self)@.reverse_offset + num_bytes <= usize::MAX,
            old(self)@.reverse_offset + num_bytes <= old(self)@.data.len() ==> old(self)@.reverse_offset
                + num_bytes <= 255,
        ensures
            final(self)@ == old(self)@.spec_reverse_read(num_bytes as int).1,
            r is Some <==> old(self)@.spec_reverse_read(num_bytes as int).0 is Some,
            r matches Some(b) ==> b@ == old(self)@.spec_reverse_read(num_bytes as int).0.unwrap(),
    {
        let len = self.get_total_packet_len();
        if len < self.reverse_offset as usize + num_bytes {
            return None;
        }
        let end_index = len - self.reverse_offset as usize;
        let start_index = end_index - num_bytes;
        let mut i: usize = 0;
        while i < num_bytes
            invariant
                i <= num_bytes,
                old(self)@.reverse_offset + num_bytes <= 255,
                self@ == (PacketView {
                    reverse_offset: (old(self)@.reverse_offset + i) as u8,
                    ..old(self)@
                }),
            decreases num_bytes - i,
        {
            self.increment_reverse_offset(1);
            i = i + 1;
        }
        let s = buf_as_slice(&self.data);
        Some(slice_subrange(s, start_index, end_index))
    }

    /// The session id in the header (see `PacketView::spec_session_id`).
    pub fn read_session_id(&self) -> (r: Option<u32>)
        ensures
            r == self@.spec_session_id(),
    {
        let s = buf_as_slice(&self.data);
        if s.len() < 6 {
            return None;
        }
        let field = slice_subrange(s, 2, 6);
        assert(field@.take(4) =~= self@.data.subrange(2, 6));
        let mut session_id = be_read_u32(field);
        if session_id > MAX_SESS_ID_VALUE {
            session_id = session_id - MAX_SESS_ID_VALUE;
        }
        Some(session_id)
    }
}

/// Writing: every write appends bytes to the data and counts them in the size.
impl BasePacket {
    /// Appends the bytes of `buffer` in the opposite order.
    pub fn write_buffer(&mut self, buffer: Vec<u8>) -> (r: Result<(), PacketError>)
        requires
            old(self)@.size + buffer@.len() <= u16::MAX,
        ensures
            r is Ok,
            final(self)@ == old(self)@.appended(reversed(buffer@)),
    {
        let mut buffer = buffer;
        let ghost orig = buffer@;
        let n = buffer.len();
        let mut i: usize = 0;
        while i < n
            invariant
                n == orig.len(),
                i <= n,
                buffer@ == orig.take(n - i),
                old(self)@.size + n <= u16::MAX,
                self@ == old(self)@.appended(reversed(orig).take(i as int)),
            decreases n - i,
        {
            let el = buffer.pop();
            match el {
                Some(el) => {
                    proof {
                        assert(el == reversed(orig)[i as int]);
                        assert(reversed(orig).take(i + 1) =~= reversed(orig).take(i as int).push(
                            el,
                        ));
                    }
                    buf_put_u8(&mut self.data, el);
                    self.size = self.size + 1;
                    proof {
                        assert(orig.take(n - i).drop_last() =~= orig.take(n - (i + 1)));
                    }
                },
                None => {},
            }
            i = i + 1;
        }
        assert(reversed(orig).take(n as int) =~= reversed(orig));
        Ok(())
    }

    /// Sets the command; its number is written when the packet is built.
    pub fn write_cmd(&mut self, cmd: Command) -> (r: Result<(), PacketError>)
        ensures
            r is Ok,
            final(self)@ == (PacketView { cmd: cmd, raw_cmd: cmd.spec_to_u16(), ..old(self)@ }),
    {
        let command = cmd.to_u16();
        match Command::try_from_u16(command) {
            Some(c) => {
                self.cmd = c;
            },
            None => {},
        }
        self.raw_cmd = command;
        Ok(())
    }

    /// Appends one byte.
    pub fn write_char(&mut self, char: u8) -> (r: Result<(), PacketError>)
        requires
            old(self)@.size + 1 <= u16::MAX,
        ensures
            r is Ok,
            final(self)@ == old(self)@.appended(seq![char]),
    {
        let v = vec![char];
        assert(reversed(v@) =~= seq![char]);
        self.write_buffer(v)
    }

    /// Appends a short, most significant byte first.
    pub fn write_short(&mut self, data: u16) -> (r: Result<(), PacketError>)
        requires
            old(self)@.size + 2 <= u16::MAX,
        ensures
            r is Ok,
            final(self)@ == old(self)@.appended(be_bytes(data as nat, 2)),
    {
        let mut buf = vec![0u8, 0u8];
        le_write_u16(&mut buf, data);
        proof {
            lemma_le_bytes_len(data as nat, 2);
            assert(buf@ =~= le_bytes(data as nat, 2));
            lemma_reversed_le_is_be(data as nat, 2);
        }
        self.write_buffer(buf)
    }

    /// Appends a long, most significant byte first.
    pub fn write_long(&mut self, data: u32) -> (r: Result<(), PacketError>)
        requires
            old(self)@.size + 4 <= u16::MAX,
        ensures
            r is Ok,
            final(self)@ == old(self)@.appended(be_bytes(data as nat, 4)),
    {
        let mut buf = vec![0u8, 0u8, 0u8, 0u8];
        le_write_u32(&mut buf, data);
        proof {
            lemma_le_bytes_len(data as nat, 4);
            assert(buf@ =~= le_bytes(data as nat, 4));
            lemma_reversed_le_is_be(data as nat, 4);
        }
        self.write_buffer(buf)
    }

    /// Appends a long long, most significant byte first.
    pub fn write_long_long(&mut self, data: u64) -> (r: Result<(), PacketError>)
        requires
            old(self)@.size + 8 <= u16::MAX,
        ensures
            r is Ok,
            final(self)@ == old(self)@.appended(be_bytes(data as nat, 8)),
    {
        let mut buf = vec![0u8, 0u8, 0u8, 0u8, 0u8, 0u8, 0u8, 0u8];
        le_write_u64(&mut buf, data);
        proof {
            lemma_le_bytes_len(data as nat, 8);
            assert(buf@ =~= le_bytes(data as nat, 8));
            lemma_reversed_le_is_be(data as nat, 8);
        }
        self.write_buffer(buf)
    }

    /// Appends a sequence: `len + 1` as a short, the first `len` bytes of
    /// `sequence` (fewer when it is shorter) and a zero (see `encode_sequence`).
    pub fn write_sequence(&mut self, sequence: &[u8], len: u16) -> (r: Result<(), PacketError>)
        requires
            len < u16::MAX,
            old(self)@.size + 3 + min_len(len as int, sequence@.len() as int) <= u16::MAX,
        ensures
            r is Ok,
            final(self)@ == old(self)@.appended(encode_sequence(sequence@, len)),
    {
        let mut buf: Vec<u8> = Vec::with_capacity(len as usize);
        proof {
            lemma_be_bytes_len((len + 1) as nat, 2);
        }
        let r = self.write_short(len + 1);
        let ghost after_short = self@;
        buf.push(0u8);
        let m: usize = if (len as usize) <= sequence.len() {
            len as usize
        } else {
            sequence.len()
        };
        let ghost taken = sequence@.take(m as int);
        let mut j: usize = m;
        while j > 0
            invariant
                j <= m,
                m <= sequence@.len(),
                taken == sequence@.take(m as int),
                buf@ =~= seq![0u8] + reversed(taken.subrange(j as int, m as int)),
            decreases j,
        {
            j = j - 1;
            buf.push(sequence[j]);
            proof {
                let sub = taken.subrange(j as int, m as int);
                let old_sub = taken.subrange(j + 1, m as int);
                assert(reversed(sub) =~= reversed(old_sub).push(sequence@[j as int]));
            }
        }
        proof {
            assert(taken.subrange(0, m as int) =~= taken);
            assert(reversed(buf@) =~= taken + seq![0u8]);
        }
        let r2 = self.write_buffer(buf);
        proof {
            let enc = encode_sequence(sequence@, len);
            assert(enc =~= be_bytes((len + 1) as nat, 2) + (taken + seq![0u8]));
            assert(self@.data =~= old(self)@.data + enc);
        }
        r2
    }

    /// Appends the UTF-8 bytes of `string` as a sequence whose length is
    /// taken modulo 2^16 (see `encode_string`).
    pub fn write_string(&mut self, string: &str) -> (r: Result<(), PacketError>)
        requires
            string_wire_len(string@) < u16::MAX,
            old(self)@.size + 3 + string_wire_len(string@) <= u16::MAX,
        ensures
            r is Ok,
            final(self)@ == old(self)@.appended(encode_string(string@)),
    {
        let bytes = string.as_bytes();
        let n = bytes.len();
        assert(bytes@ == encode_utf8(string@));
        assert(n == encode_utf8(string@).len());
        let len = (n % 65536) as u16;
        assert(len == string_wire_len(string@));
        self.write_sequence(bytes, len)
    }

    /// Sets the session id, which is written into the header when the packet
    /// is built.
    pub fn write_session_id(&mut self, session_id: u32) -> (r: Result<(), PacketError>)
        ensures
            r is Ok,
            final(self)@ == (PacketView { session_id: Some(session_id), ..old(self)@ }),
    {
        self.session_id = Some(session_id);
        Ok(())
    }

    /// Puts the length, header and command in front of the data (see
    /// `PacketView::spec_build`).
    pub fn build_packet(&mut self) -> (r: Result<(), PacketError>)
        requires
            old(self)@.is_built ==> old(self)@.data.len() >= 8,
            old(self)@.data.len() + 8 <= usize::MAX,
        ensures
            r is Ok,
            final(self)@ == old(self)@.spec_build(),
    {
        if self.is_built {
            // size, header and command were written already
            self.data = buf_split_off(&mut self.data, 8);
        }
        let ghost payload = bytes_of(self.data);
        let len = buf_len(&self.data);
        let size = ((len + 4 + 2 + 2) % 65536) as u16;
        let hdr: u32 = match self.session_id {
            Some(session_id) => session_id,
            None => self.header,
        };
        let mut full_buf: Vec<u8> = Vec::new();
        full_buf.push((size / 256) as u8);
        full_buf.push((size % 256) as u8);
        full_buf.push((hdr / 0x100_0000) as u8);
        full_buf.push(((hdr / 0x1_0000) % 256) as u8);
        full_buf.push(((hdr / 0x100) % 256) as u8);
        full_buf.push((hdr % 256) as u8);
        full_buf.push(0u8);
        full_buf.push(0u8);
        let mut cmd_buf: Vec<u8> = vec![0u8, 0u8];
        be_write_u16(&mut cmd_buf, self.raw_cmd);
        proof {
            lemma_be_bytes_len(self.raw_cmd as nat, 2);
            assert(cmd_buf@ =~= be_bytes(self.raw_cmd as nat, 2));
        }
        full_buf.set(6, cmd_buf[0]);
        full_buf.set(7, cmd_buf[1]);
        proof {
            lemma_be_bytes_2(size as nat);
            lemma_be_bytes_4(hdr as nat);
            assert(full_buf@ =~= be_bytes(size as nat, 2) + be_bytes(hdr as nat, 4) + be_bytes(
                self.raw_cmd as nat,
                2,
            ));
        }
        let mut byte_buffer = buf_from_slice(full_buf.as_slice());
        core::mem::swap(&mut self.data, &mut byte_buffer);
        buf_unsplit(&mut self.data, byte_buffer);
        self.is_built = true;
        Ok(())
    }
}

} // verus!
