//! The mailbox for inbound frames, and what a reply holds.
//!
//! The MIDI input hands over every message it receives. The mailbox keeps the
//! latest SysEx frame among them, with the time stamp it came with, and the
//! stamp of the frame that was last taken out. A frame is fresh while its
//! stamp is above that mark, so that a reply is taken once and a reply to an
//! earlier command is never taken for the answer to the next.
use vstd::prelude::*;
use vstd::slice::slice_to_vec;
use crate::port::decode_port;
use crate::port::decoded;
use crate::port::format_port;
use crate::port::port_line;
use crate::text::hex_dump;
use crate::text::hex_dump_text;
use crate::text::stamped;
use crate::text::stamped_text;

verus! {

/// First byte of every SysEx frame.
pub const SYSEX_START: u8 = 0xf0;

/// Last byte of every SysEx frame.
pub const SYSEX_END: u8 = 0xf7;

/// The four bytes that every frame to and from the router starts with.
pub open spec fn prefix() -> Seq<u8> {
    seq![0xf0u8, 0x7du8, 0x2au8, 0x4du8]
}

/// Whether `payload` is a SysEx frame, which alone the mailbox keeps.
pub open spec fn is_sysex(payload: Seq<u8>) -> bool {
    payload.len() > 0 && payload[0] == 0xf0
}

/// Whether `reply` answers a command that expects the opcode `response` and
/// `length` bytes: it has that length, more than four bytes, that opcode at
/// offset 4, and the router's prefix in front.
pub open spec fn reply_ok(reply: Seq<u8>, response: u8, length: usize) -> bool {
    &&& reply.len() == length
    &&& reply.len() > 4
    &&& reply[4] == response
    &&& reply.subrange(0, 4) == prefix()
}

/// What a mailbox holds.
pub struct MessageView {
    /// Time stamp of the latest frame.
    pub tstamp: u64,
    /// Time stamp of the frame that was last taken.
    pub laststamp: u64,
    /// The latest frame; empty before the first.
    pub message: Seq<u8>,
}

impl MessageView {
    /// Whether the frame has not been taken yet.
    pub open spec fn fresh(self) -> bool {
        self.tstamp > self.laststamp
    }

    /// The mailbox after `payload` came in with the stamp `tstamp`: a SysEx
    /// frame replaces what was there, anything else changes nothing.
    pub open spec fn deposit(self, tstamp: u64, payload: Seq<u8>) -> MessageView {
        if is_sysex(payload) {
            MessageView { tstamp, laststamp: self.laststamp, message: payload }
        } else {
            self
        }
    }

    /// The mailbox after an attempt to take the frame: a fresh frame is
    /// marked as taken.
    pub open spec fn taken(self) -> MessageView {
        if self.fresh() {
            MessageView { tstamp: self.tstamp, laststamp: self.tstamp, message: self.message }
        } else {
            self
        }
    }

    /// What an attempt to take the frame hands out: the frame if it is
    /// fresh.
    pub open spec fn take(self) -> Option<Seq<u8>> {
        if self.fresh() {
            Some(self.message)
        } else {
            None
        }
    }
}

/// The device data in the reply to an info command.
#[derive(Clone, Copy, Debug, PartialEq, Eq, Structural)]
pub struct DeviceInfo {
    /// Version of the router's firmware.
    pub version: u8,
    /// Number of MIDI inputs.
    pub inputs: u8,
    /// Number of MIDI outputs.
    pub outputs: u8,
}

/// The block of the port with index `index` (counted from 0) in the reply
/// to a print command.
pub open spec fn port_block(reply: Seq<u8>, index: int) -> Seq<u8>
    recommends
        0 <= index,
        index * 32 + 37 <= reply.len(),
{
    reply.subrange(index * 32 + 5, index * 32 + 37)
}

/// The line that shows the port with index `index` of a print reply.
pub open spec fn print_line(reply: Seq<u8>, index: int) -> Seq<char>
    recommends
        0 <= index < 256,
        index * 32 + 37 <= reply.len(),
{
    port_line(decoded(port_block(reply, index)), index as u8)
}

/// The latest inbound frame, and how far it has been consumed.
#[derive(Clone, Debug)]
pub struct Message {
    /// Time stamp of the latest frame, as the MIDI input gave it.
    pub tstamp: u64,
    /// Time stamp of the frame that was last taken.
    pub laststamp: u64,
    /// The latest frame; empty before the first.
    pub message: Vec<u8>,
}

impl View for Message {
    type V = MessageView;

    open spec fn view(&self) -> MessageView {
        MessageView { tstamp: self.tstamp, laststamp: self.laststamp, message: self.message@ }
    }
}

/// Takes a message from the MIDI input into the mailbox.
///
/// This is what the input's callback does with each message, under the
/// mailbox's lock.
pub fn handle_message(mailbox: &mut Message, tstamp: u64, message: &[u8])
    ensures
        final(mailbox)@ == old(mailbox)@.deposit(tstamp, message@),
{
    mailbox.deposit(tstamp, message);
}

impl Message {
    /// The mailbox before any frame has come in.
    pub fn new() -> (mailbox: Message)
        ensures
            mailbox@ == (MessageView { tstamp: 0, laststamp: 0, message: Seq::empty() }),
    {
        Message { tstamp: 0, laststamp: 0, message: Vec::new() }
    }

    /// Stores `payload` and its stamp if it is a SysEx frame, and drops it
    /// otherwise. Stamps are stored as they come, in whatever order.
    pub fn deposit(&mut self, tstamp: u64, payload: &[u8])
        ensures
            final(self)@ == old(self)@.deposit(tstamp, payload@),
    {
        if payload.len() > 0 && payload[0] == SYSEX_START {
            self.tstamp = tstamp;
            self.message = slice_to_vec(payload);
        }
    }

    /// Hands out a copy of the frame if it is fresh, and marks it as taken.
    pub fn try_take_fresh(&mut self) -> (payload: Option<Vec<u8>>)
        ensures
            final(self)@ == old(self)@.taken(),
            match payload {
                Some(bytes) => old(self)@.take() == Some(bytes@),
                None => old(self)@.take() is None,
            },
    {
        if self.tstamp > self.laststamp {
            self.laststamp = self.tstamp;
            Some(self.message.clone())
        } else {
            None
        }
    }

    /// Checks the frame against the opcode and the length that a command
    /// expects of its reply.
    pub fn verify(&self, response: u8, length: usize) -> (ok: bool)
        ensures
            ok == reply_ok(self@.message, response, length),
    {
        let ok = self.message.len() == length && self.message.len() > 4 && self.message[4]
            == response && self.message[0] == 0xf0 && self.message[1] == 0x7d && self.message[2]
            == 0x2a && self.message[3] == 0x4d;
        assert(ok ==> self@.message.subrange(0, 4) =~= prefix());
        ok
    }

    /// Reads the device data out of the reply to an info command.
    pub fn handleinfo(&self) -> (info: DeviceInfo)
        requires
            self@.message.len() >= 8,
        ensures
            info.version == self@.message[5],
            info.inputs == self@.message[6],
            info.outputs == self@.message[7],
    {
        DeviceInfo { version: self.message[5], inputs: self.message[6], outputs: self.message[7] }
    }

    /// Renders the reply to a print command: the line of port `port`, or,
    /// for `port == 0`, the lines of all sixteen ports in their order.
    pub fn handleprint(&self, port: u8) -> (lines: Vec<String>)
        requires
            port <= 16,
            port == 0 ==> self@.message.len() >= 5 + 16 * 32,
            port != 0 ==> self@.message.len() >= 5 + port * 32,
        ensures
            port != 0 ==> lines@.len() == 1 && lines@[0]@ == print_line(self@.message, port - 1),
            port == 0 ==> lines@.len() == 16 && forall|i: int|
                0 <= i < 16 ==> (#[trigger] lines@[i])@ == print_line(self@.message, i),
    {
        let mut lines: Vec<String> = Vec::new();
        if port != 0 {
            lines.push(self.handleprint_portn(port as usize - 1));
            return lines;
        }
        let mut n: usize = 0;
        while n < 16
            invariant
                n <= 16,
                self@.message.len() >= 5 + 16 * 32,
                lines@.len() == n,
                forall|i: int|
                    0 <= i < n ==> (#[trigger] lines@[i])@ == print_line(self@.message, i),
            decreases 16 - n,
        {
            lines.push(self.handleprint_portn(n));
            n += 1;
        }
        lines
    }

    /// Renders the port with index `port` (counted from 0) of the reply to a
    /// print command.
    pub fn handleprint_portn(&self, port: usize) -> (line: String)
        requires
            port < 16,
            self@.message.len() >= port * 32 + 37,
        ensures
            line@ == print_line(self@.message, port as int),
    {
        let block = &self.message.as_slice()[port * 32 + 5..port * 32 + 37];
        let state = decode_port(block);
        format_port(&state, port as u8)
    }

    /// The frame as text, for diagnostics: its time stamp and its hex dump.
    pub fn dump(&self) -> (text: String)
        ensures
            text@ == stamped_text(self@.tstamp, hex_dump_text(self@.message)),
    {
        let dump = hex_dump(self.message.as_slice());
        stamped(self.tstamp, dump.as_str())
    }
}

/// No frame passes for a reply that differs from the router's prefix in any
/// byte, that has another length than the command expects, that has four
/// bytes or fewer, or that carries another opcode.
pub proof fn lemma_reply_needs_prefix_length_opcode(reply: Seq<u8>, response: u8, length: usize)
    ensures
        (exists|i: int| 0 <= i < 4 && i < reply.len() && reply[i] != prefix()[i]) ==> !reply_ok(
            reply,
            response,
            length,
        ),
        reply.len() != length ==> !reply_ok(reply, response, length),
        reply.len() <= 4 ==> !reply_ok(reply, response, length),
        reply.len() > 4 && reply[4] != response ==> !reply_ok(reply, response, length),
{
    if reply_ok(reply, response, length) {
        assert(forall|i: int| 0 <= i < 4 ==> reply[i] == reply.subrange(0, 4)[i]);
    }
}

/// A frame deposited with a stamp above the last one taken is handed out by
/// the next attempt, and by that one only: a second attempt right after it
/// gets nothing and changes nothing.
pub proof fn lemma_fresh_frame_is_taken_once(mailbox: MessageView, tstamp: u64, payload: Seq<u8>)
    requires
        is_sysex(payload),
        tstamp > mailbox.laststamp,
    ensures
        mailbox.deposit(tstamp, payload).take() == Some(payload),
        mailbox.deposit(tstamp, payload).taken().take() == None::<Seq<u8>>,
        mailbox.deposit(tstamp, payload).taken().taken() == mailbox.deposit(
            tstamp,
            payload,
        ).taken(),
{
}

/// Once the frame is taken, the mailbox hands out nothing until a SysEx frame
/// with a strictly greater stamp comes in, and then that frame.
pub proof fn lemma_taken_until_greater_stamp(mailbox: MessageView, tstamp: u64, payload: Seq<u8>)
    requires
        !mailbox.fresh(),
    ensures
        mailbox.take() == None::<Seq<u8>>,
        mailbox.deposit(tstamp, payload).take() == if is_sysex(payload) && tstamp
            > mailbox.laststamp {
            Some(payload)
        } else {
            None
        },
{
}

} // verus!
