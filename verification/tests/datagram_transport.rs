use p2p_transfer::checksum::calculate_checksum;
use p2p_transfer::datagram::ack::{ack_message, is_ack_for};
use p2p_transfer::datagram::chunking::{
    content_packet_count, file_to_packets, is_path_control_byte, sanitize_filename, ChunkError,
    DEFAULT_CHUNK_SIZE,
};
use p2p_transfer::datagram::reassembly::{packets_to_file, ReceivedFile};
use p2p_transfer::datagram::receiver::{Phase, Receiver, ReceiverAction};
use p2p_transfer::datagram::sender::{
    Sender, SenderAction, SenderPhase, ACK_TIMEOUT_MS, PACING_DELAY_MS,
};
use p2p_transfer::packet::{FramingError, Packet, PROTOCOL_HEADER};

fn content(len: usize) -> Vec<u8> {
    (0..len).map(|i| (i * 7 + i / 256) as u8).collect()
}

#[test]
fn sanitize_strips_path_control_characters() {
    assert_eq!(sanitize_filename(b"a<b>c:d\"e/f\\g|h?i*j.txt"), b"abcdefghij.txt".to_vec());
    assert_eq!(sanitize_filename(b"plain name.tar.gz"), b"plain name.tar.gz".to_vec());
    assert_eq!(sanitize_filename(b"<>:\"/\\|?*"), Vec::<u8>::new());
    assert_eq!(sanitize_filename(b""), Vec::<u8>::new());
}

#[test]
fn sanitize_keeps_other_utf8_bytes() {
    let name = "dossier/été:日本.txt";
    let clean = sanitize_filename(name.as_bytes());
    assert_eq!(String::from_utf8(clean).unwrap(), "dossierété日本.txt");
}

#[test]
fn sanitize_twice_is_sanitize_once() {
    let once = sanitize_filename(b"..\\..//x?.bin");
    assert_eq!(once, b"....x.bin".to_vec());
    assert_eq!(sanitize_filename(&once), once);
}

#[test]
fn path_control_bytes_are_exactly_nine() {
    let all: Vec<u8> = (0..=255u8).filter(|b| is_path_control_byte(*b)).collect();
    let mut expected = b"<>:\"/\\|?*".to_vec();
    expected.sort();
    assert_eq!(all, expected);
}

#[test]
fn a_2500_byte_file_gives_four_packets() {
    let data = content(2500);
    let packets = file_to_packets("report.pdf", &data, 1024).unwrap();
    assert_eq!(packets.len(), 4);
    assert_eq!(packets[0].sno, 0);
    assert_eq!(packets[0].payload, b"report.pdf".to_vec());
    let sizes: Vec<usize> = packets[1..].iter().map(|p| p.payload.len()).collect();
    assert_eq!(sizes, vec![1024, 1024, 452]);
    assert_eq!(packets[3].payload_length, 452);
    let mut r = Receiver::new(1024);
    for (i, p) in packets.iter().enumerate() {
        assert_eq!(r.phase(), Phase::Receiving);
        assert_eq!(r.on_datagram(&p.encode()), ReceiverAction::Acknowledge(i as u32));
    }
    assert_eq!(r.phase(), Phase::Finished);
    assert_eq!(DEFAULT_CHUNK_SIZE, 1024);
}

#[test]
fn packets_carry_numbers_lengths_and_checksums() {
    let data = content(2500);
    let packets = file_to_packets("a.txt", &data, 1024).unwrap();
    for (i, p) in packets.iter().enumerate() {
        assert_eq!(p.header, PROTOCOL_HEADER);
        assert_eq!(p.sno as usize, i);
        assert_eq!(p.payload_length as usize, p.payload.len());
        assert_eq!(p.checksum, calculate_checksum(&p.payload));
    }
    assert_eq!(packets[0].checksum, 0xDDD6);
    assert_eq!(packets[1].payload, data[..1024].to_vec());
    assert_eq!(packets[2].payload, data[1024..2048].to_vec());
    assert_eq!(packets[3].payload, data[2048..].to_vec());
}

#[test]
fn a_whole_number_of_chunks_gets_an_empty_last_packet() {
    let data = content(2048);
    let packets = file_to_packets("x", &data, 1024).unwrap();
    assert_eq!(packets.len(), 4);
    assert_eq!(packets[1].payload.len(), 1024);
    assert_eq!(packets[2].payload.len(), 1024);
    assert_eq!(packets[3].payload.len(), 0);
    assert_eq!(packets[3].sno, 3);
    assert_eq!(packets[3].checksum, 0);
}

#[test]
fn an_empty_file_gets_the_name_and_an_empty_packet() {
    let packets = file_to_packets("empty", &[], 1024).unwrap();
    assert_eq!(packets.len(), 2);
    assert_eq!(packets[1].sno, 1);
    assert!(packets[1].payload.is_empty());
}

#[test]
fn the_name_packet_is_sanitized() {
    let packets = file_to_packets("dir/na:me?.txt", b"abcdefghijklm", 11).unwrap();
    assert_eq!(packets[0].payload, b"dirname.txt".to_vec());
    assert_eq!(packets.len(), 3);
    assert_eq!(packets[1].payload, b"abcdefghijk".to_vec());
    assert_eq!(packets[2].payload, b"lm".to_vec());
}

#[test]
fn no_payload_is_longer_than_a_chunk() {
    assert_eq!(file_to_packets("abcde", b"xyz", 4), Err(ChunkError::NameTooLong));
    assert_eq!(file_to_packets("dir/na:me?.txt", b"abc", 10), Err(ChunkError::NameTooLong));
    let packets = file_to_packets("a/b/cd", b"0123456789", 4).unwrap();
    assert_eq!(packets[0].payload, b"abcd".to_vec());
    for p in &packets {
        assert!(p.payload.len() <= 4);
        assert!(p.payload_length <= 4);
    }
    assert_eq!(packets.len(), 4);
}

#[test]
fn chunking_errors() {
    assert_eq!(file_to_packets("a", b"abc", 0), Err(ChunkError::ZeroChunkSize));
    let long = "n".repeat(65536);
    assert_eq!(file_to_packets(&long, b"abc", 65535), Err(ChunkError::NameTooLong));
    assert_eq!(file_to_packets(&long, b"abc", 0), Err(ChunkError::ZeroChunkSize));
    let fits = "n".repeat(65535);
    assert!(file_to_packets(&fits, b"abc", 65535).is_ok());
    assert_eq!(file_to_packets(&fits, b"abc", 65534), Err(ChunkError::NameTooLong));
    let stripped = "/".repeat(70000);
    assert!(file_to_packets(&stripped, b"abc", 16).is_ok());
    let seventeen = "n".repeat(17);
    assert_eq!(file_to_packets(&seventeen, b"abc", 16), Err(ChunkError::NameTooLong));
    assert!(file_to_packets(&seventeen[..16], b"abc", 16).is_ok());
}

#[test]
fn ack_is_the_tag_and_the_number_in_decimal() {
    assert_eq!(ack_message(0), b"ACK:0".to_vec());
    assert_eq!(ack_message(7), b"ACK:7".to_vec());
    assert_eq!(ack_message(10), b"ACK:10".to_vec());
    assert_eq!(ack_message(1024), b"ACK:1024".to_vec());
    assert_eq!(ack_message(u32::MAX), b"ACK:4294967295".to_vec());
}

#[test]
fn only_the_exact_ack_counts() {
    assert!(is_ack_for(b"ACK:12", 12));
    assert!(!is_ack_for(b"ACK:12", 1));
    assert!(!is_ack_for(b"ACK:12", 2));
    assert!(!is_ack_for(b"ACK:12", 120));
    assert!(!is_ack_for(b"ACK:012", 12));
    assert!(!is_ack_for(b"ack:12", 12));
    assert!(!is_ack_for(b"ACK:12\n", 12));
    assert!(!is_ack_for(b"ACK:", 0));
    assert!(!is_ack_for(b"", 0));
}

fn three_packets() -> Vec<Packet> {
    file_to_packets("f", &content(1500), 1024).unwrap()
}

#[test]
fn the_sender_walks_through_its_packets_on_acks() {
    let packets = three_packets();
    let (mut s, first) = Sender::new(packets.clone(), 3);
    assert_eq!(first, SenderAction::Transmit(packets[0].encode()));
    assert_eq!(s.current_sno(), Some(0));
    assert_eq!(s.on_datagram(b"ACK:0"), SenderAction::Transmit(packets[1].encode()));
    assert_eq!(s.current_sno(), Some(1));
    assert_eq!(s.on_datagram(b"ACK:1"), SenderAction::Transmit(packets[2].encode()));
    assert_eq!(s.phase(), SenderPhase::AwaitingAck);
    assert_eq!(s.on_datagram(b"ACK:2"), SenderAction::Complete);
    assert_eq!(s.phase(), SenderPhase::Done);
    assert_eq!(s.current_sno(), None);
    assert_eq!(s.on_datagram(b"ACK:2"), SenderAction::Complete);
    assert_eq!(s.on_timeout(), SenderAction::Complete);
}

#[test]
fn a_sender_without_packets_is_done_at_once() {
    let (s, first) = Sender::new(vec![], 3);
    assert_eq!(first, SenderAction::Complete);
    assert_eq!(s.phase(), SenderPhase::Done);
}

#[test]
fn other_datagrams_leave_the_sender_waiting() {
    let packets = three_packets();
    let (mut s, _) = Sender::new(packets.clone(), 3);
    assert_eq!(s.on_datagram(b"ACK:1"), SenderAction::KeepWaiting);
    assert_eq!(s.on_datagram(b"ACK:00"), SenderAction::KeepWaiting);
    assert_eq!(s.on_datagram(b"noise"), SenderAction::KeepWaiting);
    assert_eq!(s.current_sno(), Some(0));
    assert_eq!(s.retries(), 0);
    assert_eq!(s.on_datagram(b"ACK:0"), SenderAction::Transmit(packets[1].encode()));
    assert_eq!(s.on_datagram(b"ACK:0"), SenderAction::KeepWaiting);
    assert_eq!(s.current_sno(), Some(1));
}

#[test]
fn an_unacknowledged_packet_is_sent_again_on_each_timeout() {
    let packets = file_to_packets("f", &content(3000), 1024).unwrap();
    let (mut s, _) = Sender::new(packets.clone(), 5);
    s.on_datagram(b"ACK:0");
    assert_eq!(s.on_datagram(b"ACK:1"), SenderAction::Transmit(packets[2].encode()));
    let mut elapsed = 0;
    let mut resent = 0;
    while elapsed + ACK_TIMEOUT_MS <= 2000 {
        elapsed += ACK_TIMEOUT_MS;
        if elapsed < 2000 {
            assert_eq!(s.on_timeout(), SenderAction::Transmit(packets[2].encode()));
            resent += 1;
        }
    }
    assert!(resent >= 2);
    assert_eq!(resent, 3);
    assert_eq!(s.retries(), 3);
    assert_eq!(s.current_sno(), Some(2));
    assert_eq!(ACK_TIMEOUT_MS, 500);
    assert_eq!(PACING_DELAY_MS, 10);
}

#[test]
fn the_sender_gives_up_after_its_retries() {
    let packets = three_packets();
    let (mut s, _) = Sender::new(packets.clone(), 2);
    assert_eq!(s.on_timeout(), SenderAction::Transmit(packets[0].encode()));
    assert_eq!(s.on_timeout(), SenderAction::Transmit(packets[0].encode()));
    assert_eq!(s.on_timeout(), SenderAction::GiveUp);
    assert_eq!(s.phase(), SenderPhase::Failed);
    assert_eq!(s.on_datagram(b"ACK:0"), SenderAction::GiveUp);
    assert_eq!(s.on_timeout(), SenderAction::GiveUp);
    assert_eq!(s.phase(), SenderPhase::Failed);
}

#[test]
fn retries_start_anew_with_each_packet() {
    let packets = three_packets();
    let (mut s, _) = Sender::new(packets.clone(), 1);
    assert_eq!(s.on_timeout(), SenderAction::Transmit(packets[0].encode()));
    assert_eq!(s.retries(), 1);
    assert_eq!(s.on_datagram(b"ACK:0"), SenderAction::Transmit(packets[1].encode()));
    assert_eq!(s.retries(), 0);
    assert_eq!(s.on_timeout(), SenderAction::Transmit(packets[1].encode()));
    assert_eq!(s.on_timeout(), SenderAction::GiveUp);
}

#[test]
fn no_retries_means_giving_up_at_the_first_timeout() {
    let (mut s, _) = Sender::new(three_packets(), 0);
    assert_eq!(s.on_timeout(), SenderAction::GiveUp);
}

#[test]
fn the_receiver_accepts_in_order_and_counts() {
    let packets = file_to_packets("f.bin", &content(2500), 1024).unwrap();
    let mut r = Receiver::new(1024);
    assert_eq!(r.next_expected(), 0);
    assert_eq!(r.chunk_size(), 1024);
    for (i, p) in packets.iter().enumerate() {
        assert_eq!(r.next_expected(), i as u64);
        assert_eq!(r.on_datagram(&p.encode()), ReceiverAction::Acknowledge(i as u32));
        assert_eq!(r.next_expected(), i as u64 + 1);
        for (j, q) in r.accepted().iter().enumerate() {
            assert_eq!(q.sno as usize, j);
        }
    }
    assert_eq!(r.accepted(), &packets);
}

#[test]
fn a_replayed_packet_is_acknowledged_again_and_changes_nothing() {
    let packets = file_to_packets("f.bin", &content(2500), 1024).unwrap();
    let mut r = Receiver::new(1024);
    r.on_datagram(&packets[0].encode());
    r.on_datagram(&packets[1].encode());
    let before = r.accepted().clone();
    assert_eq!(r.on_datagram(&packets[1].encode()), ReceiverAction::Reacknowledge(1));
    assert_eq!(r.on_datagram(&packets[0].encode()), ReceiverAction::Reacknowledge(0));
    assert_eq!(r.next_expected(), 2);
    assert_eq!(r.accepted(), &before);
    r.on_datagram(&packets[2].encode());
    r.on_datagram(&packets[3].encode());
    let file = r.file().unwrap();
    assert_eq!(file.content, content(2500));
}

#[test]
fn a_packet_ahead_is_dropped_without_ack() {
    let packets = file_to_packets("f.bin", &content(2500), 1024).unwrap();
    let mut r = Receiver::new(1024);
    assert_eq!(r.on_datagram(&packets[1].encode()), ReceiverAction::DropOutOfOrder);
    r.on_datagram(&packets[0].encode());
    assert_eq!(r.on_datagram(&packets[3].encode()), ReceiverAction::DropOutOfOrder);
    assert_eq!(r.next_expected(), 1);
    assert_eq!(r.phase(), Phase::Receiving);
}

#[test]
fn a_corrupt_packet_is_dropped_without_ack() {
    let packets = file_to_packets("f.bin", &content(100), 1024).unwrap();
    let mut r = Receiver::new(1024);
    let mut damaged = packets[0].encode();
    let last = damaged.len() - 1;
    damaged[last] ^= 0x01;
    assert_eq!(r.on_datagram(&damaged), ReceiverAction::DropCorrupt);
    assert_eq!(r.next_expected(), 0);
    assert_eq!(r.on_datagram(&packets[0].encode()), ReceiverAction::Acknowledge(0));
    let mut wrong_sum = packets[1].clone();
    wrong_sum.checksum ^= 0x8000;
    assert_eq!(r.on_datagram(&wrong_sum.encode()), ReceiverAction::DropCorrupt);
    assert_eq!(r.phase(), Phase::Receiving);
}

#[test]
fn bytes_that_are_no_packet_abort_the_session() {
    let packets = file_to_packets("f.bin", &content(100), 1024).unwrap();
    let mut r = Receiver::new(1024);
    r.on_datagram(&packets[0].encode());
    assert_eq!(r.on_datagram(b"junk"), ReceiverAction::Abort(FramingError::Truncated));
    assert_eq!(r.phase(), Phase::Aborted);
    assert_eq!(r.on_datagram(&packets[1].encode()), ReceiverAction::Closed);
    assert_eq!(r.next_expected(), 1);
    assert!(r.file().is_none());
}

#[test]
fn an_undersized_content_packet_ends_the_transfer_once() {
    let packets = file_to_packets("f.bin", &content(1500), 1024).unwrap();
    let mut r = Receiver::new(1024);
    r.on_datagram(&packets[0].encode());
    assert_eq!(r.phase(), Phase::Receiving);
    r.on_datagram(&packets[1].encode());
    assert_eq!(r.phase(), Phase::Receiving);
    assert_eq!(r.on_datagram(&packets[2].encode()), ReceiverAction::Acknowledge(2));
    assert_eq!(r.phase(), Phase::Finished);
    let accepted = r.accepted().clone();
    assert_eq!(r.on_datagram(&packets[2].encode()), ReceiverAction::Closed);
    let extra = Packet::new(3, vec![1, 2, 3]).unwrap();
    assert_eq!(r.on_datagram(&extra.encode()), ReceiverAction::Closed);
    assert_eq!(r.on_packet(extra.clone(), extra.checksum), ReceiverAction::Closed);
    assert_eq!(r.phase(), Phase::Finished);
    assert_eq!(r.accepted(), &accepted);
    assert_eq!(r.next_expected(), 3);
}

#[test]
fn a_short_name_packet_does_not_end_the_transfer() {
    let mut r = Receiver::new(1024);
    let name = Packet::new(0, b"n".to_vec()).unwrap();
    assert_eq!(r.on_datagram(&name.encode()), ReceiverAction::Acknowledge(0));
    assert_eq!(r.phase(), Phase::Receiving);
    assert!(r.file().is_none());
}

#[test]
fn a_full_chunk_does_not_end_the_transfer() {
    let mut r = Receiver::new(4);
    r.on_datagram(&Packet::new(0, b"n".to_vec()).unwrap().encode());
    r.on_datagram(&Packet::new(1, b"abcd".to_vec()).unwrap().encode());
    assert_eq!(r.phase(), Phase::Receiving);
    r.on_datagram(&Packet::new(2, b"abcde".to_vec()).unwrap().encode());
    assert_eq!(r.phase(), Phase::Receiving);
    r.on_datagram(&Packet::new(3, b"abc".to_vec()).unwrap().encode());
    assert_eq!(r.phase(), Phase::Finished);
}

#[test]
fn on_packet_judges_by_the_checksum_it_is_given() {
    let mut r = Receiver::new(1024);
    let p = Packet::new(0, b"name".to_vec()).unwrap();
    assert_eq!(r.on_packet(p.clone(), p.checksum ^ 1), ReceiverAction::DropCorrupt);
    assert_eq!(r.on_packet(p.clone(), p.checksum), ReceiverAction::Acknowledge(0));
    assert_eq!(r.on_packet(p.clone(), p.checksum), ReceiverAction::Reacknowledge(0));
    assert_eq!(r.on_packet(p.clone(), p.checksum ^ 1), ReceiverAction::DropCorrupt);
}

#[test]
fn what_is_sent_is_what_arrives() {
    for len in [0usize, 1, 1023, 1024, 1025, 2048, 2500, 5000] {
        let data = content(len);
        let packets = file_to_packets("dir/out?.bin", &data, 1024).unwrap();
        let (mut s, mut action) = Sender::new(packets, 3);
        let mut r = Receiver::new(1024);
        let mut rounds = 0;
        while let SenderAction::Transmit(bytes) = action {
            rounds += 1;
            action = match r.on_datagram(&bytes) {
                ReceiverAction::Acknowledge(n) => s.on_datagram(&ack_message(n)),
                other => panic!("unexpected {:?}", other),
            };
        }
        assert_eq!(action, SenderAction::Complete);
        assert_eq!(rounds, len / 1024 + 2);
        assert_eq!(r.phase(), Phase::Finished);
        assert_eq!(
            r.file(),
            Some(ReceivedFile { name: b"dirout.bin".to_vec(), content: data })
        );
    }
}

#[test]
fn lost_acks_are_repaired_by_resending() {
    let data = content(3000);
    let packets = file_to_packets("f", &data, 1024).unwrap();
    let last = packets.len() as u32 - 1;
    let (mut s, mut action) = Sender::new(packets, 3);
    let mut r = Receiver::new(1024);
    let mut sent = 0;
    while let SenderAction::Transmit(bytes) = action {
        sent += 1;
        action = match r.on_datagram(&bytes) {
            ReceiverAction::Acknowledge(n) if n < last => s.on_timeout(),
            ReceiverAction::Acknowledge(n) => s.on_datagram(&ack_message(n)),
            ReceiverAction::Reacknowledge(n) => s.on_datagram(&ack_message(n)),
            other => panic!("unexpected {:?}", other),
        };
    }
    assert_eq!(action, SenderAction::Complete);
    assert_eq!(sent, 7);
    assert_eq!(r.next_expected(), 4);
    assert_eq!(r.file().unwrap().content, data);
}

#[test]
fn packets_to_file_orders_by_number() {
    let p = |sno: u32, payload: &[u8]| Packet::new(sno, payload.to_vec()).unwrap();
    let packets = vec![p(0, b"a/b.txt"), p(3, b"cc"), p(1, b"aa"), p(2, b"bb"), p(2, b"BB")];
    let file = packets_to_file(&packets).unwrap();
    assert_eq!(file.name, b"ab.txt".to_vec());
    assert_eq!(file.content, b"aabbBBcc".to_vec());
}

#[test]
fn packets_to_file_needs_a_first_packet() {
    assert_eq!(packets_to_file(&vec![]), None);
    let only_name = vec![Packet::new(9, b"n".to_vec()).unwrap()];
    assert_eq!(
        packets_to_file(&only_name),
        Some(ReceivedFile { name: b"n".to_vec(), content: vec![] })
    );
}

#[test]
fn a_file_beyond_the_sequence_numbers_is_refused() {
    assert_eq!(content_packet_count(0, 1024), Ok(1));
    assert_eq!(content_packet_count(2500, 1024), Ok(3));
    assert_eq!(content_packet_count(2048, 1024), Ok(3));
    assert_eq!(content_packet_count(2500, 0), Err(ChunkError::ZeroChunkSize));
    if usize::BITS >= 64 {
        assert_eq!(content_packet_count(u32::MAX as usize - 1, 1), Ok(u32::MAX));
        assert_eq!(content_packet_count(u32::MAX as usize, 1), Err(ChunkError::TooManyPackets));
        assert_eq!(content_packet_count(usize::MAX, 65535), Err(ChunkError::TooManyPackets));
    }
}
