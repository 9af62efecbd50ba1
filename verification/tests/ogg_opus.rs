use xiaozhi_server::audio::ogg_opus::OggOpusPacketizer;

fn page(packet: &[u8]) -> Vec<u8> {
    let mut out = Vec::new();
    out.extend_from_slice(b"OggS");
    out.extend_from_slice(&[0; 22]);
    let mut remaining = packet.len();
    let mut laces = Vec::new();
    while remaining >= 255 {
        laces.push(255u8);
        remaining -= 255;
    }
    laces.push(remaining as u8);
    out.push(laces.len() as u8);
    out.extend_from_slice(&laces);
    out.extend_from_slice(packet);
    out
}

fn stream() -> Vec<u8> {
    let mut out = vec![1, 2, 3];
    out.extend(page(b"OpusHeadxxxx"));
    out.extend(page(b"OpusTagsxxxx"));
    out.extend_from_slice(b"Og");
    out.extend(page(b"audio"));
    out.extend(page(&[7u8; 600]));
    out.extend(page(b""));
    out.extend(page(&[9u8; 255]));
    out
}

#[test]
fn extracts_opus_packets_after_headers() {
    let mut demux = OggOpusPacketizer::new();
    assert!(demux.push(&page(b"OpusHeadxxxx")).unwrap().is_empty());
    assert!(demux.push(&page(b"OpusTagsxxxx")).unwrap().is_empty());
    let packets = demux.push(&page(b"audio")).unwrap();
    assert_eq!(packets.len(), 1);
    assert_eq!(&packets[0][..], b"audio");
}

#[test]
fn packets_before_both_headers_are_dropped() {
    let mut demux = OggOpusPacketizer::new();
    assert!(demux.push(&page(b"audio")).unwrap().is_empty());
    assert!(demux.push(&page(b"OpusTagsxxxx")).unwrap().is_empty());
    assert!(demux.push(&page(b"audio")).unwrap().is_empty());
    assert!(demux.push(&page(b"OpusHeadxxxx")).unwrap().is_empty());
    assert_eq!(demux.push(&page(b"audio")).unwrap().len(), 1);
}

#[test]
fn pieces_of_a_stream_give_the_packets_of_the_whole() {
    let whole = stream();
    let mut demux = OggOpusPacketizer::new();
    let expected = demux.push(&whole).unwrap();
    assert_eq!(expected.len(), 3);
    assert_eq!(&expected[0][..], b"audio");
    assert_eq!(&expected[1][..], &[7u8; 600][..]);
    assert_eq!(&expected[2][..], &[9u8; 255][..]);

    for cut in 0..=whole.len() {
        let mut demux = OggOpusPacketizer::default();
        let mut packets = demux.push(&whole[..cut]).unwrap();
        packets.extend(demux.push(&whole[cut..]).unwrap());
        assert_eq!(packets, expected, "cut at {cut}");
    }

    let mut demux = OggOpusPacketizer::new();
    let mut packets = Vec::new();
    for byte in &whole {
        packets.extend(demux.push(&[*byte]).unwrap());
    }
    assert_eq!(packets, expected);
}

#[test]
fn a_packet_may_go_on_in_the_next_page() {
    let mut demux = OggOpusPacketizer::new();
    demux.push(&page(b"OpusHead")).unwrap();
    demux.push(&page(b"OpusTags")).unwrap();
    let mut first = b"OggS".to_vec();
    first.extend_from_slice(&[0; 22]);
    first.extend_from_slice(&[1, 255]);
    first.extend_from_slice(&[5u8; 255]);
    assert!(demux.push(&first).unwrap().is_empty());
    let packets = demux.push(&page(b"end")).unwrap();
    assert_eq!(packets.len(), 1);
    assert_eq!(packets[0].len(), 258);
    assert_eq!(&packets[0][255..], b"end");
}

#[test]
fn headers_are_never_handed_on() {
    let mut demux = OggOpusPacketizer::new();
    let mut whole = page(b"early");
    whole.extend(page(b"OpusTags"));
    whole.extend(page(b"early"));
    whole.extend(page(b"OpusHead"));
    whole.extend(page(b"a"));
    whole.extend(page(b"OpusHead again"));
    whole.extend(page(b"OpusTags again"));
    whole.extend(page(b"OpusTag"));
    let packets = demux.push(&whole).unwrap();
    let packets: Vec<&[u8]> = packets.iter().map(|p| &p[..]).collect();
    assert_eq!(packets, vec![&b"a"[..], &b"OpusTag"[..]]);
}
