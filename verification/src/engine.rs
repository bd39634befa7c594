//! One exchange with the router: a command frame out, one reply back.
//!
//! Nothing here touches a MIDI port, a lock or a clock. `sysex` and the
//! command functions say what is to be sent and what reply is expected. The
//! caller sends the frame and tells the exchange how that went
//! (`Exchange::sent`), and from then on does what the exchange says: it
//! looks into the locked mailbox (`Exchange::poll`) or pauses for a
//! millisecond, until the exchange is done.
use vstd::prelude::*;
use vstd::slice::slice_to_vec;
use vstd::string::StringSliceAdditionalSpecFns;
use crate::error::AppError;
use crate::error::AppErrorView;
use crate::error::ParseError;
use crate::error::ParseErrorView;
use crate::error::result_view;
use crate::msg::prefix;
use crate::msg::reply_ok;
use crate::msg::Message;
use crate::msg::MessageView;
use crate::msg::SYSEX_END;
use crate::text::hex_dump_text;
use crate::text::stamped_text;

verus! {

/// How often an exchange looks into the mailbox before it gives up.
pub const POLL_LIMIT: u16 = 5000;

/// The pause between two looks into the mailbox, in milliseconds.
pub const POLL_DELAY_MS: u64 = 1;

/// Opcode of the info command.
pub const INFO: u8 = 0x00;

/// Opcode of the print command.
pub const PRINT: u8 = 0x01;

/// Opcode of the command that sets the forwarding of a port.
pub const FORWARD: u8 = 0x02;

/// Opcode of the command that writes the configuration to flash.
pub const WRITE: u8 = 0x03;

/// Opcode of the command that reloads the configuration from flash.
pub const RELOAD: u8 = 0x04;

/// Opcode of the command that resets the configuration to the defaults.
pub const DEFAULTS: u8 = 0x05;

/// Opcode of the command that names a port.
pub const RENAME: u8 = 0x06;

/// Opcode of the command that lights the LEDs of a port.
pub const IDENTIFY: u8 = 0x07;

/// Forwarding mode: forward to all other ports.
pub const MODE_ALL: u8 = 1;

/// Forwarding mode: forward to no port.
pub const MODE_NONE: u8 = 2;

/// Forwarding mode: forward to one more port.
pub const MODE_TO: u8 = 3;

/// Forwarding mode: stop forwarding to one port.
pub const MODE_REMOVE: u8 = 4;

/// What the opcode of a reply has above the opcode of its command.
pub const REPLY: u8 = 0x40;

/// Length of the reply that only confirms a command.
pub const ACK_LEN: usize = 6;

/// Length of the reply to an info command.
pub const INFO_LEN: usize = 9;

/// Length of the reply to a print command.
pub const PRINT_LEN: usize = 518;

/// Longest name of a port, in bytes.
pub const NAME_MAX: usize = 8;

/// An exchange in progress.
#[derive(Clone, Debug)]
pub struct Exchange {
    /// The command frame.
    pub command: Vec<u8>,
    /// The opcode that the reply must carry.
    pub response: u8,
    /// The length that the reply must have.
    pub length: usize,
    /// How often the mailbox was found without a fresh frame.
    pub polls: u16,
}

/// What an `Exchange` holds.
pub struct ExchangeView {
    pub command: Seq<u8>,
    pub response: u8,
    pub length: usize,
    pub polls: u16,
}

impl View for Exchange {
    type V = ExchangeView;

    open spec fn view(&self) -> ExchangeView {
        ExchangeView {
            command: self.command@,
            response: self.response,
            length: self.length,
            polls: self.polls,
        }
    }
}

/// What the caller of an exchange does next.
#[derive(Debug)]
pub enum Progress {
    /// The command frame is out: lock the mailbox and look into it.
    Look,
    /// No fresh frame yet: pause for `POLL_DELAY_MS`, then look again.
    Wait,
    /// The exchange is over, with the verified reply or with an error.
    Done(Result<Vec<u8>, AppError>),
}

/// What a `Progress` holds.
pub enum ProgressView {
    Look,
    Wait,
    Done(Result<Seq<u8>, AppErrorView>),
}

impl View for Progress {
    type V = ProgressView;

    open spec fn view(&self) -> ProgressView {
        match self {
            Progress::Look => ProgressView::Look,
            Progress::Wait => ProgressView::Wait,
            Progress::Done(result) => ProgressView::Done(result_view(*result)),
        }
    }
}

impl ExchangeView {
    /// What a look into `mailbox` answers. A fresh frame ends the exchange:
    /// with the frame if it is the expected reply, else with the frame as
    /// text in `InvalidMessage`. Without one the exchange waits, until the
    /// look that uses up the limit ends it with `ReceiveTimeout`.
    pub open spec fn answer(self, mailbox: MessageView) -> ProgressView {
        match mailbox.take() {
            Some(reply) => if reply_ok(reply, self.response, self.length) {
                ProgressView::Done(Ok(reply))
            } else {
                ProgressView::Done(
                    Err(
                        AppErrorView::InvalidMessage(
                            stamped_text(mailbox.tstamp, hex_dump_text(reply)),
                        ),
                    ),
                )
            },
            None => if self.polls + 1 >= POLL_LIMIT {
                ProgressView::Done(Err(AppErrorView::ReceiveTimeout))
            } else {
                ProgressView::Wait
            },
        }
    }

    /// The exchange after a look into `mailbox`: a look that finds nothing
    /// is counted, up to the limit.
    pub open spec fn polled(self, mailbox: MessageView) -> ExchangeView {
        if !mailbox.fresh() && self.polls < POLL_LIMIT {
            ExchangeView { polls: (self.polls + 1) as u16, ..self }
        } else {
            self
        }
    }

    /// The answer of the last of `looks` looks into a mailbox that no frame
    /// comes into meanwhile.
    pub open spec fn answer_after(self, mailbox: MessageView, looks: nat) -> ProgressView
        recommends
            looks >= 1,
        decreases looks,
    {
        if looks <= 1 {
            self.answer(mailbox)
        } else {
            self.polled(mailbox).answer_after(mailbox.taken(), (looks - 1) as nat)
        }
    }
}

/// Begins an exchange: `command` is the frame to send, `response` and
/// `length` are the opcode and the length of the reply that answers it.
pub fn sysex(command: &[u8], response: u8, length: usize) -> (exchange: Exchange)
    ensures
        exchange@ == (ExchangeView { command: command@, response, length, polls: 0 }),
{
    Exchange { command: slice_to_vec(command), response, length, polls: 0 }
}

impl Exchange {
    /// Says what follows the attempt to send the command frame: the first
    /// look into the mailbox if the output accepted the frame, and the end
    /// of the exchange with `SendError` if it did not. Nothing is sent
    /// twice.
    pub fn sent(&self, accepted: bool) -> (progress: Progress)
        ensures
            progress@ == if accepted {
                ProgressView::Look
            } else {
                ProgressView::Done(Err(AppErrorView::SendError))
            },
    {
        if accepted {
            Progress::Look
        } else {
            Progress::Done(Err(AppError::SendError))
        }
    }

    /// Says what follows a failed attempt to lock the mailbox: the end of
    /// the exchange with `PoisonError`. What the mailbox holds cannot be
    /// relied on after that.
    pub fn lock_failed(&self) -> (progress: Progress)
        ensures
            progress@ == ProgressView::Done(Err(AppErrorView::PoisonError)),
    {
        Progress::Done(Err(AppError::PoisonError))
    }

    /// Looks into the locked mailbox for the reply.
    ///
    /// A fresh frame is taken, whatever it is, and ends the exchange.
    /// Without one the exchange goes on with `Wait`, until the look that
    /// uses up the limit.
    pub fn poll(&mut self, mailbox: &mut Message) -> (progress: Progress)
        ensures
            progress@ == old(self)@.answer(old(mailbox)@),
            final(self)@ == old(self)@.polled(old(mailbox)@),
            final(mailbox)@ == old(mailbox)@.taken(),
    {
        match mailbox.try_take_fresh() {
            Some(reply) => {
                if mailbox.verify(self.response, self.length) {
                    Progress::Done(Ok(reply))
                } else {
                    Progress::Done(Err(AppError::InvalidMessage(mailbox.dump())))
                }
            },
            None => {
                if self.polls < POLL_LIMIT {
                    self.polls += 1;
                }
                if self.polls >= POLL_LIMIT {
                    Progress::Done(Err(AppError::ReceiveTimeout))
                } else {
                    Progress::Wait
                }
            },
        }
    }
}

/// The frame of a command: the prefix, the opcode, the data bytes, and the
/// end of the SysEx message.
pub open spec fn frame(opcode: u8, data: Seq<u8>) -> Seq<u8> {
    prefix() + seq![opcode] + data + seq![0xf7u8]
}

/// The exchange of a command: its frame, and a reply of `length` bytes with
/// the command's opcode raised by `REPLY`.
pub open spec fn request(opcode: u8, data: Seq<u8>, length: usize) -> ExchangeView {
    ExchangeView {
        command: frame(opcode, data),
        response: (opcode + REPLY) as u8,
        length,
        polls: 0,
    }
}

/// Whether `port` is the number of one of the router's ports.
pub open spec fn port_in_range(port: u8) -> bool {
    1 <= port <= 16
}

/// Builds the exchange of a command.
fn command_exchange(opcode: u8, data: &[u8], length: usize) -> (exchange: Exchange)
    requires
        opcode < REPLY,
    ensures
        exchange@ == request(opcode, data@, length),
{
    let mut command: Vec<u8> = vec![0xf0, 0x7d, 0x2a, 0x4d, opcode];
    command.extend_from_slice(data);
    command.push(SYSEX_END);
    assert(command@ =~= frame(opcode, data@));
    sysex(command.as_slice(), opcode + REPLY, length)
}

/// The exchange that asks the router for its version and port counts.
pub fn info_command() -> (exchange: Exchange)
    ensures
        exchange@ == request(INFO, Seq::empty(), INFO_LEN),
{
    command_exchange(INFO, &[], INFO_LEN)
}

/// The exchange that asks the router for the state of its ports.
///
/// `srcport` is the one port that the caller means to show, or 0 for all.
/// The frame is the same for each: the number is only held to its range
/// here, before anything is sent.
pub fn print_command(srcport: u8) -> (exchange: Result<Exchange, AppError>)
    ensures
        result_view(exchange) == if srcport <= 16 {
            Ok(request(PRINT, Seq::empty(), PRINT_LEN))
        } else {
            Err(AppErrorView::PortNumber)
        },
{
    if srcport > 16 {
        return Err(AppError::PortNumber);
    }
    Ok(command_exchange(PRINT, &[], PRINT_LEN))
}

/// The exchange that changes where `srcport` forwards to.
///
/// `mode` is `MODE_ALL`, `MODE_NONE`, `MODE_TO` or `MODE_REMOVE`; it goes
/// into the frame as it is, whatever it is. Both ports count from 1 and go
/// into the frame counted from 0.
pub fn forward_command(srcport: u8, dstport: u8, mode: u8) -> (exchange: Result<Exchange, AppError>)
    ensures
        result_view(exchange) == if port_in_range(srcport) && port_in_range(dstport) {
            Ok(request(FORWARD, seq![(srcport - 1) as u8, mode, (dstport - 1) as u8], ACK_LEN))
        } else {
            Err(AppErrorView::PortNumber)
        },
{
    if (srcport == 0 || srcport > 16) || (dstport == 0 || dstport > 16) {
        return Err(AppError::PortNumber);
    }
    let data: [u8; 3] = [srcport - 1, mode, dstport - 1];
    Ok(command_exchange(FORWARD, data.as_slice(), ACK_LEN))
}

/// The exchange that writes the configuration to the router's flash.
pub fn write_command() -> (exchange: Exchange)
    ensures
        exchange@ == request(WRITE, Seq::empty(), ACK_LEN),
{
    command_exchange(WRITE, &[], ACK_LEN)
}

/// The exchange that reloads the configuration from the router's flash.
pub fn reload_command() -> (exchange: Exchange)
    ensures
        exchange@ == request(RELOAD, Seq::empty(), ACK_LEN),
{
    command_exchange(RELOAD, &[], ACK_LEN)
}

/// The exchange that resets the configuration in memory to the defaults.
pub fn defaults_command() -> (exchange: Exchange)
    ensures
        exchange@ == request(DEFAULTS, Seq::empty(), ACK_LEN),
{
    command_exchange(DEFAULTS, &[], ACK_LEN)
}

/// The exchange that gives `srcport` the name `name`.
///
/// The name goes into the frame byte for byte. A name of more than eight
/// bytes is refused first, then a port outside 1 to 16.
pub fn rename_command(srcport: u8, name: &str) -> (exchange: Result<Exchange, ParseError>)
    ensures
        result_view(exchange) == if name.spec_bytes().len() > 8 {
            Err(ParseErrorView::NameLength)
        } else if !port_in_range(srcport) {
            Err(ParseErrorView::ParseAppError { source: AppErrorView::PortNumber })
        } else {
            Ok(request(RENAME, seq![(srcport - 1) as u8] + name.spec_bytes(), ACK_LEN))
        },
{
    let bytes = name.as_bytes();
    if bytes.len() > NAME_MAX {
        return Err(ParseError::NameLength);
    }
    if srcport == 0 || srcport > 16 {
        return Err(ParseError::ParseAppError { source: AppError::PortNumber });
    }
    let mut data: Vec<u8> = vec![srcport - 1];
    data.extend_from_slice(bytes);
    assert(data@ =~= seq![(srcport - 1) as u8] + bytes@);
    Ok(command_exchange(RENAME, data.as_slice(), ACK_LEN))
}

/// The exchange that makes the router light the LEDs of `srcport` for a
/// while.
pub fn identify_command(srcport: u8) -> (exchange: Result<Exchange, AppError>)
    ensures
        result_view(exchange) == if port_in_range(srcport) {
            Ok(request(IDENTIFY, seq![(srcport - 1) as u8], ACK_LEN))
        } else {
            Err(AppErrorView::PortNumber)
        },
{
    if srcport == 0 || srcport > 16 {
        return Err(AppError::PortNumber);
    }
    let data: [u8; 1] = [srcport - 1];
    assert(data@ =~= seq![(srcport - 1) as u8]);
    Ok(command_exchange(IDENTIFY, data.as_slice(), ACK_LEN))
}

/// Time-out: an exchange that has just begun, on a mailbox without a fresh
/// frame that none comes into, is told to wait by each look before the
/// last that the limit allows, and ended with `ReceiveTimeout` by that one.
pub proof fn lemma_timeout_after_all_looks(begun: ExchangeView, mailbox: MessageView, looks: nat)
    requires
        begun.polls == 0,
        !mailbox.fresh(),
        1 <= looks <= POLL_LIMIT,
    ensures
        looks < POLL_LIMIT ==> begun.answer_after(mailbox, looks) == ProgressView::Wait,
        looks == POLL_LIMIT ==> begun.answer_after(mailbox, looks) == ProgressView::Done(
            Err(AppErrorView::ReceiveTimeout),
        ),
{
    lemma_idle_looks(begun, mailbox, looks);
}

/// The same from any count of looks made before.
proof fn lemma_idle_looks(exchange: ExchangeView, mailbox: MessageView, looks: nat)
    requires
        !mailbox.fresh(),
        1 <= looks,
        exchange.polls + looks <= POLL_LIMIT,
    ensures
        exchange.polls + looks < POLL_LIMIT ==> exchange.answer_after(mailbox, looks)
            == ProgressView::Wait,
        exchange.polls + looks == POLL_LIMIT ==> exchange.answer_after(mailbox, looks)
            == ProgressView::Done(Err(AppErrorView::ReceiveTimeout)),
    decreases looks,
{
    if looks > 1 {
        lemma_idle_looks(exchange.polled(mailbox), mailbox.taken(), (looks - 1) as nat);
    }
}

/// A fresh frame ends the exchange at once, whatever the count of looks:
/// as the reply if it has the expected length and opcode and the router's
/// prefix, and as `InvalidMessage` if any of them is wrong.
pub proof fn lemma_fresh_frame_ends_exchange(exchange: ExchangeView, mailbox: MessageView)
    requires
        mailbox.fresh(),
    ensures
        reply_ok(mailbox.message, exchange.response, exchange.length) ==> exchange.answer(mailbox)
            == ProgressView::Done(Ok(mailbox.message)),
        !reply_ok(mailbox.message, exchange.response, exchange.length) ==> exchange.answer(
            mailbox,
        ) == ProgressView::Done(
            Err(
                AppErrorView::InvalidMessage(
                    stamped_text(mailbox.tstamp, hex_dump_text(mailbox.message)),
                ),
            ),
        ),
        exchange.polled(mailbox) == exchange,
        !mailbox.taken().fresh(),
{
}

} // verus!
