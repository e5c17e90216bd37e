use lobby_lib::net::packet::{Packet, PacketFlag};
use lobby_lib::net::packet_decoder::{DecodeStep, PacketDecoder};
use lobby_lib::net::packet_encoder::PacketEncoder;
use lobby_lib::net::packets::{self, PacketType};
use lobby_lib::utils::byte_buffer::ByteBuffer;

#[test]
fn packet_encoder_single_packet() {
    let reg = packets::init();
    let mut encoder = PacketEncoder::new(256);
    encoder.add_packet(Packet::new(&reg, PacketType::PacketInit, vec![1; 25]));
    let buffer = encoder.next_buffer(&reg);
    assert!(buffer.is_some());
    assert_eq!(buffer.unwrap().len(), 3 + 25);
}

#[test]
fn size_flag() {
    let reg = packets::init();
    let mut encoder = PacketEncoder::new(1024);
    encoder.add_packet(Packet::new(&reg, PacketType::PacketInit, vec![1; 255]));
    let buffer = encoder.next_buffer(&reg);
    assert!(buffer.is_some());
    assert_eq!(buffer.unwrap().len(), 3 + 255);

    encoder.add_packet(Packet::new(&reg, PacketType::PacketInit, vec![1; 256]));
    let buffer = encoder.next_buffer(&reg);
    assert!(buffer.is_some());
    assert_eq!(buffer.unwrap().len(), 5 + 256);
}

#[test]
fn packet_encoder_multiple_packets() {
    let reg = packets::init();
    let mut encoder = PacketEncoder::new(256);
    encoder.add_packet(Packet::new(&reg, PacketType::PacketInit, vec![1; 25]));
    encoder.add_packet(Packet::new(&reg, PacketType::PacketInit, vec![1; 30]));
    let buffer = encoder.next_buffer(&reg);
    assert!(buffer.is_some());
    assert_eq!(buffer.unwrap().len(), 3 + 25 + 3 + 30);
}

#[test]
fn packet_decoder_single_packet() {
    let reg = packets::init();
    let mut encoder = PacketEncoder::new(256);
    encoder.add_packet(Packet::new(&reg, PacketType::PacketInit, vec![1; 25]));
    let buffer = encoder.next_buffer(&reg).unwrap();
    assert_eq!(buffer.len(), 3 + 25);

    let mut decoder = PacketDecoder::new();
    decoder.push_buffer(buffer);
    let packet = decoder.next_packet(&reg).unwrap();
    assert!(packet.short_type());
    assert!(packet.short_size());
    assert!(matches!(packet.packet_type, PacketType::PacketInit));
    assert_eq!(packet.data.to_vec(), vec![1; 25]);

    assert!(decoder.next_packet(&reg).is_none());
}

#[test]
fn packet_decoder_multiple_packets() {
    let reg = packets::init();
    let mut encoder = PacketEncoder::new(256);
    encoder.add_packet(Packet::new(&reg, PacketType::PacketInit, vec![1; 25]));
    encoder.add_packet(Packet::new(&reg, PacketType::PacketInit, vec![1; 75]));
    let buffer = encoder.next_buffer(&reg).unwrap();
    assert_eq!(buffer.len(), 3 + 25 + 3 + 75);

    let mut decoder = PacketDecoder::new();
    decoder.push_buffer(buffer);
    let packet = decoder.next_packet(&reg).unwrap();
    assert!(packet.short_type());
    assert!(packet.short_size());
    assert!(matches!(packet.packet_type, PacketType::PacketInit));
    assert_eq!(packet.data.to_vec(), vec![1; 25]);

    let packet = decoder.next_packet(&reg).unwrap();
    assert!(packet.short_type());
    assert!(packet.short_size());
    assert!(matches!(packet.packet_type, PacketType::PacketInit));
    assert_eq!(packet.data.to_vec(), vec![1; 75]);

    assert!(decoder.next_packet(&reg).is_none());
}

#[test]
fn skip() {
    let mut buffer = ByteBuffer::from_vec(vec![1, 2, 3, 4, 5, 6, 7, 8, 9, 10]);
    buffer.skip(4);

    assert_eq!(buffer.to_vec(), vec![5, 6, 7, 8, 9, 10])
}

#[test]
fn skip_past_end_keeps_buffer() {
    let mut buffer = ByteBuffer::from_vec(vec![1, 2, 3]);
    buffer.skip(7);
    assert_eq!(buffer.to_vec(), vec![1, 2, 3]);
    buffer.skip(3);
    assert_eq!(buffer.to_vec(), Vec::<u8>::new());
}

#[test]
fn long_payload_header_layout() {
    // A packet of type 1 with no fixed size and a 300-byte payload gets a
    // five-byte header: short type, long size.
    let reg = packets::init();
    let mut encoder = PacketEncoder::new(8192);
    encoder.add_packet(Packet::new(&reg, PacketType::PacketInit, vec![7; 300]));
    let buffer = encoder.next_buffer(&reg).unwrap();
    let bytes = buffer.to_vec();
    assert_eq!(bytes.len(), 5 + 300);
    // Flags: fixed-header and short-type set, short-size clear.
    assert_eq!(bytes[0], 0xC0);
    assert_eq!(bytes[1], 1);
    // 300 = 0x00012C big-endian over three bytes.
    assert_eq!(&bytes[2..5], &[0, 1, 44]);

    let mut decoder = PacketDecoder::new();
    decoder.push_buffer(buffer);
    let packet = decoder.next_packet(&reg).unwrap();
    assert!(packet.short_type());
    assert!(!packet.short_size());
    assert!(matches!(packet.packet_type, PacketType::PacketInit));
    assert_eq!(packet.data_size(), 300);
    assert_eq!(packet.data.to_vec(), vec![7; 300]);
}

#[test]
fn short_size_boundary() {
    let reg = packets::init();
    let p255 = Packet::new(&reg, PacketType::PacketInit, vec![0; 255]);
    assert!(p255.short_size());
    let p256 = Packet::new(&reg, PacketType::PacketInit, vec![0; 256]);
    assert!(!p256.short_size());
}

#[test]
fn flag_masks() {
    assert_eq!(PacketFlag::FixedHeader.mask(), 0x80);
    assert_eq!(PacketFlag::ShortType.mask(), 0x40);
    assert_eq!(PacketFlag::ShortSize.mask(), 0x20);
}

#[test]
fn partial_stream_holds_back() {
    let reg = packets::init();
    let mut encoder = PacketEncoder::new(256);
    encoder.add_packet(Packet::new(&reg, PacketType::PacketPing, vec![9; 40]));
    let buffer = encoder.next_buffer(&reg).unwrap();
    let bytes = buffer.to_vec();

    let mut decoder = PacketDecoder::new();
    // Fewer bytes than a full header: nothing comes out.
    decoder.push_buffer(ByteBuffer::from_vec(bytes[..2].to_vec()));
    assert!(decoder.next_packet(&reg).is_none());
    // A full header but a truncated payload: still nothing.
    decoder.push_buffer(ByteBuffer::from_vec(bytes[2..20].to_vec()));
    assert!(decoder.next_packet(&reg).is_none());
    // The remaining bytes complete exactly the original packet.
    decoder.push_buffer(ByteBuffer::from_vec(bytes[20..].to_vec()));
    let packet = decoder.next_packet(&reg).unwrap();
    assert!(matches!(packet.packet_type, PacketType::PacketPing));
    assert_eq!(packet.data.to_vec(), vec![9; 40]);
    // No duplication: the stream is drained.
    assert!(decoder.next_packet(&reg).is_none());
}

#[test]
fn corrupt_stream_without_fixed_header_bit() {
    let reg = packets::init();
    let mut decoder = PacketDecoder::new();
    decoder.push_buffer(ByteBuffer::from_vec(vec![0x00, 1, 2]));
    assert!(matches!(decoder.try_next_packet(&reg), DecodeStep::Corrupt));
}

#[test]
fn corrupt_stream_with_unknown_type() {
    let reg = packets::init();
    // Long type field naming id 500, which is not registered.
    let mut decoder = PacketDecoder::new();
    decoder.push_buffer(ByteBuffer::from_vec(vec![0xA0, 1, 244, 0]));
    assert!(matches!(decoder.try_next_packet(&reg), DecodeStep::Corrupt));
}

#[test]
fn oversized_packet_still_emitted() {
    let reg = packets::init();
    let mut encoder = PacketEncoder::new(64);
    encoder.add_packet(Packet::new(&reg, PacketType::PacketInit, vec![3; 300]));
    let buffer = encoder.next_buffer(&reg).unwrap();
    assert_eq!(buffer.len(), 5 + 300);
    assert!(encoder.next_buffer(&reg).is_none());
}

#[test]
fn overflowing_packet_deferred_to_next_buffer() {
    let reg = packets::init();
    let mut encoder = PacketEncoder::new(100);
    encoder.add_packet(Packet::new(&reg, PacketType::PacketInit, vec![1; 40]));
    encoder.add_packet(Packet::new(&reg, PacketType::PacketInit, vec![2; 60]));
    // 60 + 22 + 43 > 100: the second packet waits for the next buffer.
    let first = encoder.next_buffer(&reg).unwrap();
    assert_eq!(first.len(), 3 + 40);
    let second = encoder.next_buffer(&reg).unwrap();
    assert_eq!(second.len(), 3 + 60);
    assert!(encoder.next_buffer(&reg).is_none());
}

#[test]
fn batch_keeps_enqueue_order() {
    let reg = packets::init();
    let mut encoder = PacketEncoder::new(8192);
    encoder.add_packet(Packet::new(&reg, PacketType::PacketInit, vec![1; 4]));
    encoder.add_packet(Packet::new(&reg, PacketType::PacketPing, vec![2; 5]));
    encoder.add_packet(Packet::new(&reg, PacketType::PacketPong, vec![3; 6]));
    let buffer = encoder.next_buffer(&reg).unwrap();
    assert_eq!(buffer.len(), (3 + 4) + (3 + 5) + (3 + 6));

    let mut decoder = PacketDecoder::new();
    decoder.push_buffer(buffer);
    let (packets, corrupt) = decoder.drain_packets(&reg);
    assert!(!corrupt);
    assert_eq!(packets.len(), 3);
    assert!(matches!(packets[0].packet_type, PacketType::PacketInit));
    assert!(matches!(packets[1].packet_type, PacketType::PacketPing));
    assert!(matches!(packets[2].packet_type, PacketType::PacketPong));
    assert_eq!(packets[0].data.to_vec(), vec![1; 4]);
    assert_eq!(packets[1].data.to_vec(), vec![2; 5]);
    assert_eq!(packets[2].data.to_vec(), vec![3; 6]);
}

#[test]
fn registry_lookup() {
    let reg = packets::init();
    assert_eq!(packets::packet_count(), 27);
    assert!(packets::has(&reg, PacketType::FatalError));
    assert!(packets::has(&reg, PacketType::NewLobbyMessage));
    assert!(!packets::has(&reg, PacketType::Last));
    let info = packets::get(&reg, PacketType::PacketPing);
    assert!(matches!(info.packet_type, PacketType::PacketPing));
    assert!(info.fixed_size.is_none());
    assert_eq!(info.name, "PacketPing");
    let built = packets::init_packets();
    assert_eq!(built.infos.len(), 27);
}

#[test]
fn type_id_round_trip() {
    assert_eq!(PacketType::FatalError.to_u16(), 0);
    assert_eq!(PacketType::PacketInit.to_u16(), 1);
    assert_eq!(PacketType::NewLobbyMessage.to_u16(), 26);
    assert!(matches!(PacketType::from_u16(4), Some(PacketType::PacketPing)));
    assert!(PacketType::from_u16(27).is_none());
    assert!(PacketType::from_u16(500).is_none());
}

#[test]
fn packet_clone_preserves_bytes() {
    let reg = packets::init();
    let packet = Packet::new(&reg, PacketType::PacketPong, vec![8, 6, 7]);
    let copy = packet.clone();
    assert!(matches!(copy.packet_type, PacketType::PacketPong));
    assert_eq!(copy.flags, packet.flags);
    assert_eq!(copy.data.to_vec(), vec![8, 6, 7]);
    // The clone owns its view: skipping on one side leaves the other.
    let mut copy = copy;
    copy.data.skip(2);
    assert_eq!(copy.data.to_vec(), vec![7]);
    assert_eq!(packet.data.to_vec(), vec![8, 6, 7]);
}
