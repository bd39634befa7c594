use midi_router::msg::handle_message;
use midi_router::msg::DeviceInfo;
use midi_router::msg::Message;

fn holding(payload: &[u8]) -> Message {
    let mut mailbox = Message::new();
    mailbox.deposit(1, payload);
    mailbox
}

/// A reply to the print command in which port `n` (from 1) forwards to
/// itself only and is called `P` and its number.
fn print_reply() -> Vec<u8> {
    let mut reply = vec![0xf0, 0x7d, 0x2a, 0x4d, 0x41];
    for n in 0..16u16 {
        let mask: u16 = 1 << n;
        let mut block = [0u8; 32];
        block[0] = (mask >> 15) as u8;
        block[1] = ((mask >> 8) & 0x7f) as u8;
        block[2] = ((mask >> 7) & 1) as u8;
        block[3] = (mask & 0x7f) as u8;
        let name = format!("P{}", n + 1);
        for (i, b) in name.bytes().enumerate() {
            block[17 + 2 * i] = b;
        }
        reply.extend_from_slice(&block);
    }
    reply.push(0xf7);
    reply
}

fn line_of(n: usize) -> String {
    let mut line = format!("Port {:0>2}: {:<8} Forward: ", n, format!("P{}", n));
    for i in 1..=16 {
        if i == n {
            line.push_str(&format!("{:0>2} ", i));
        } else {
            line.push_str("   ");
        }
    }
    line
}

#[test]
fn new_mailbox_is_empty() {
    let mailbox = Message::new();
    assert_eq!(mailbox.tstamp, 0);
    assert_eq!(mailbox.laststamp, 0);
    assert!(mailbox.message.is_empty());
}

#[test]
fn new_mailbox_has_nothing_to_take() {
    let mut mailbox = Message::new();
    assert_eq!(mailbox.try_take_fresh(), None);
    assert_eq!(mailbox.laststamp, 0);
}

#[test]
fn deposit_keeps_a_sysex_frame() {
    let mut mailbox = Message::new();
    mailbox.deposit(7, &[0xf0, 1, 2, 0xf7]);
    assert_eq!(mailbox.tstamp, 7);
    assert_eq!(mailbox.laststamp, 0);
    assert_eq!(mailbox.message, vec![0xf0, 1, 2, 0xf7]);
}

#[test]
fn deposit_drops_what_is_no_sysex_frame() {
    let mut mailbox = Message::new();
    mailbox.deposit(7, &[0xf0, 1, 0xf7]);
    mailbox.deposit(9, &[0x90, 60, 100]);
    mailbox.deposit(10, &[0xf8]);
    mailbox.deposit(11, &[]);
    assert_eq!(mailbox.tstamp, 7);
    assert_eq!(mailbox.message, vec![0xf0, 1, 0xf7]);
}

#[test]
fn deposit_overwrites_the_frame_before() {
    let mut mailbox = Message::new();
    mailbox.deposit(7, &[0xf0, 1, 0xf7]);
    mailbox.deposit(8, &[0xf0, 2, 0xf7]);
    assert_eq!(mailbox.try_take_fresh(), Some(vec![0xf0, 2, 0xf7]));
    assert_eq!(mailbox.try_take_fresh(), None);
}

#[test]
fn deposit_stores_stamps_in_any_order() {
    let mut mailbox = Message::new();
    mailbox.deposit(100, &[0xf0, 1, 0xf7]);
    mailbox.deposit(50, &[0xf0, 2, 0xf7]);
    assert_eq!(mailbox.tstamp, 50);
    assert_eq!(mailbox.message, vec![0xf0, 2, 0xf7]);
}

#[test]
fn handle_message_deposits() {
    let mut mailbox = Message::new();
    handle_message(&mut mailbox, 3, &[0xf0, 9, 0xf7]);
    assert_eq!(mailbox.tstamp, 3);
    assert_eq!(mailbox.message, vec![0xf0, 9, 0xf7]);
    handle_message(&mut mailbox, 4, &[0xb0, 1, 2]);
    assert_eq!(mailbox.tstamp, 3);
    assert_eq!(mailbox.message, vec![0xf0, 9, 0xf7]);
}

#[test]
fn fresh_frame_is_taken_exactly_once() {
    let mut mailbox = Message::new();
    mailbox.deposit(5, &[0xf0, 1, 0xf7]);
    assert_eq!(mailbox.try_take_fresh(), Some(vec![0xf0, 1, 0xf7]));
    assert_eq!(mailbox.laststamp, 5);
    assert_eq!(mailbox.try_take_fresh(), None);
    assert_eq!(mailbox.try_take_fresh(), None);
    assert_eq!(mailbox.laststamp, 5);
    assert_eq!(mailbox.message, vec![0xf0, 1, 0xf7]);
}

#[test]
fn taken_frame_stays_taken_until_a_greater_stamp() {
    let mut mailbox = Message::new();
    mailbox.deposit(5, &[0xf0, 1, 0xf7]);
    assert!(mailbox.try_take_fresh().is_some());
    // The same stamp again is not fresh.
    mailbox.deposit(5, &[0xf0, 2, 0xf7]);
    assert_eq!(mailbox.try_take_fresh(), None);
    // Nor is a smaller one.
    mailbox.deposit(4, &[0xf0, 3, 0xf7]);
    assert_eq!(mailbox.try_take_fresh(), None);
    // Nor a greater one on what is no SysEx frame.
    mailbox.deposit(6, &[0x90, 1, 2]);
    assert_eq!(mailbox.try_take_fresh(), None);
    mailbox.deposit(6, &[0xf0, 4, 0xf7]);
    assert_eq!(mailbox.try_take_fresh(), Some(vec![0xf0, 4, 0xf7]));
    assert_eq!(mailbox.try_take_fresh(), None);
}

#[test]
fn frame_with_stamp_zero_is_never_fresh() {
    let mut mailbox = Message::new();
    mailbox.deposit(0, &[0xf0, 1, 0xf7]);
    assert_eq!(mailbox.message, vec![0xf0, 1, 0xf7]);
    assert_eq!(mailbox.try_take_fresh(), None);
}

#[test]
fn verify_accepts_the_expected_reply() {
    let mailbox = holding(&[0xf0, 0x7d, 0x2a, 0x4d, 0x40, 3, 2, 4, 0xf7]);
    assert!(mailbox.verify(0x40, 9));
    let mailbox = holding(&[0xf0, 0x7d, 0x2a, 0x4d, 0x42, 0xf7]);
    assert!(mailbox.verify(0x42, 6));
    let mailbox = holding(&[0xf0, 0x7d, 0x2a, 0x4d, 0x42]);
    assert!(mailbox.verify(0x42, 5));
}

#[test]
fn verify_rejects_a_wrong_prefix() {
    for i in 1..4 {
        let mut reply = [0xf0, 0x7d, 0x2a, 0x4d, 0x40, 3, 2, 4, 0xf7];
        reply[i] ^= 1;
        assert!(!holding(&reply).verify(0x40, 9));
    }
    let mut mailbox = holding(&[0xf0, 0x7d, 0x2a, 0x4d, 0x40, 3, 2, 4, 0xf7]);
    mailbox.message[0] = 0xf1;
    assert!(!mailbox.verify(0x40, 9));
}

#[test]
fn verify_rejects_a_wrong_length() {
    let mailbox = holding(&[0xf0, 0x7d, 0x2a, 0x4d, 0x40, 3, 2, 4, 0xf7]);
    assert!(!mailbox.verify(0x40, 8));
    assert!(!mailbox.verify(0x40, 10));
    assert!(!mailbox.verify(0x40, 0));
    let mailbox = holding(&[0xf0, 0x7d, 0x2a, 0x4d, 0x40, 3, 2, 4]);
    assert!(!mailbox.verify(0x40, 9));
}

#[test]
fn verify_rejects_a_wrong_opcode() {
    let mailbox = holding(&[0xf0, 0x7d, 0x2a, 0x4d, 0x41, 3, 2, 4, 0xf7]);
    assert!(!mailbox.verify(0x40, 9));
    assert!(mailbox.verify(0x41, 9));
}

#[test]
fn verify_rejects_four_bytes_or_fewer() {
    assert!(!holding(&[0xf0, 0x7d, 0x2a, 0x4d]).verify(0x40, 4));
    assert!(!holding(&[0xf0]).verify(0x40, 1));
    assert!(!Message::new().verify(0, 0));
}

#[test]
fn handleinfo_reads_version_and_port_counts() {
    let mailbox = holding(&[0xf0, 0x7d, 0x2a, 0x4d, 0x40, 0x03, 0x02, 0x04, 0xf7]);
    assert!(mailbox.verify(0x40, 9));
    let info = mailbox.handleinfo();
    assert_eq!(info, DeviceInfo { version: 3, inputs: 2, outputs: 4 });
}

#[test]
fn handleprint_one_port() {
    let mailbox = holding(&print_reply());
    assert!(mailbox.verify(0x41, 518));
    assert_eq!(mailbox.handleprint(1), vec![line_of(1)]);
    assert_eq!(mailbox.handleprint(9), vec![line_of(9)]);
    assert_eq!(mailbox.handleprint(16), vec![line_of(16)]);
    assert_eq!(
        mailbox.handleprint(16),
        vec![format!("Port 16: P16      Forward: {}16 ", "   ".repeat(15))]
    );
}

#[test]
fn handleprint_all_ports() {
    let mailbox = holding(&print_reply());
    let lines = mailbox.handleprint(0);
    assert_eq!(lines.len(), 16);
    for (i, line) in lines.iter().enumerate() {
        assert_eq!(*line, line_of(i + 1));
    }
}

#[test]
fn handleprint_portn_first_block_starts_at_offset_five() {
    let mut reply = vec![0u8; 518];
    reply[5] = 1;
    let mailbox = Message { tstamp: 1, laststamp: 0, message: reply };
    assert_eq!(
        mailbox.handleprint_portn(0),
        format!("Port 01:          Forward: {}16 ", "   ".repeat(15))
    );
    assert_eq!(
        mailbox.handleprint_portn(1),
        format!("Port 02:          Forward: {}", "   ".repeat(16))
    );
}

#[test]
fn dump_shows_stamp_and_hex_dump() {
    let mut mailbox = Message::new();
    mailbox.deposit(1234, &[0xf0, 0x7d, 0x2a, 0x4d, 0x40]);
    let expected = format!(
        "1234: Length: 5 (0x5) bytes\n0000:   f0 7d 2a 4d  40{}.}}*M@\n",
        " ".repeat(38)
    );
    assert_eq!(mailbox.dump(), expected);
}

#[test]
fn dump_of_two_rows() {
    let frame: Vec<u8> = (0..18u8).map(|i| 0xf0u8.wrapping_add(i)).collect();
    let mut mailbox = Message::new();
    mailbox.deposit(u64::MAX, &frame);
    let expected = format!(
        "18446744073709551615: Length: 18 (0x12) bytes\n{}\n0010:   00 01{}..\n",
        "0000:   f0 f1 f2 f3  f4 f5 f6 f7  f8 f9 fa fb  fc fd fe ff   ................",
        " ".repeat(48)
    );
    assert_eq!(mailbox.dump(), expected);
}

#[test]
fn dump_is_the_dump_of_pretty_hex() {
    let frame = print_reply();
    let mailbox = holding(&frame);
    assert_eq!(mailbox.dump(), format!("1: {}\n", pretty_hex::pretty_hex(&frame)));
    let empty = Message::new();
    assert_eq!(empty.dump(), "0: Length: 0 (0x0) bytes\n\n");
}
