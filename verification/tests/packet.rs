use brewster::server::packet::{Packet, PACKET_SIZE, PACKET_VERSION, TEMP_NONE};

fn sample() -> Packet {
    Packet {
        version: PACKET_VERSION,
        hostname: *b"brewster\0\0\0\0\0\0\0\0\0\0\0\0",
        seq: 42,
        uptime_s: 3600,
        temps: [Some(2150), None, Some(1925)],
        target_centi: -200,
        output_pct: 55,
        relay_on: true,
        collecting: true,
        ntp_synced: false,
        history_clear: false,
        heat_on: false,
        window_step: 3,
        on_steps: 5,
        sensor_status: [0, 255, 0],
        device_ip: [192, 168, 1, 100],
        sensor_count: 2,
        deadband_centi: 50,
        pid_p_pct: 14,
        pid_i_pct: 3,
        pid_d_pct: -2,
    }
}

fn degrees(centi: Option<i16>) -> f32 {
    match centi {
        Some(c) => c as f32 / 100.0,
        None => f32::NAN,
    }
}

#[test]
fn roundtrip() {
    let pkt = sample();
    let buf = pkt.encode();
    assert_eq!(buf.len(), PACKET_SIZE);
    let decoded = Packet::decode(&buf).unwrap();
    assert_eq!(&decoded.hostname[..8], b"brewster");
    assert_eq!(decoded.hostname[8..], [0u8; 12]);
    assert_eq!(decoded.seq, 42);
    assert!((degrees(decoded.temps[0]) - 21.5).abs() < 0.01);
    assert!(degrees(decoded.temps[1]).is_nan());
    assert!(decoded.relay_on);
    assert!(decoded.collecting);
    assert!(!decoded.ntp_synced);
    assert_eq!(decoded.sensor_count, 2);
}

#[test]
fn every_field_survives_the_wire() {
    let pkt = sample();
    let decoded = Packet::decode(&pkt.encode()).unwrap();
    assert_eq!(format!("{pkt:?}"), format!("{decoded:?}"));
}

#[test]
fn fields_stand_where_the_format_says() {
    let mut pkt = sample();
    pkt.heat_on = true;
    pkt.history_clear = true;
    let buf = pkt.encode();
    assert_eq!(&buf[0..4], b"BREW");
    assert_eq!(buf[4], 5);
    assert_eq!(&buf[25..29], &[42, 0, 0, 0]);
    assert_eq!(&buf[29..33], &[0x10, 0x0e, 0, 0]);
    assert_eq!(&buf[33..35], &2150i16.to_le_bytes());
    assert_eq!(&buf[35..37], &i16::MAX.to_le_bytes());
    assert_eq!(&buf[39..41], &(-200i16).to_le_bytes());
    assert_eq!(buf[41], 55);
    assert_eq!(buf[42], 0b1_1011);
    assert_eq!(&buf[48..52], &[192, 168, 1, 100]);
    assert_eq!(buf[53], 50);
    assert_eq!(&buf[54..57], &[14, 3, 0xfe]);
}

#[test]
fn each_flag_has_its_own_bit() {
    for bit in 0..5 {
        let mut pkt = sample();
        pkt.relay_on = bit == 0;
        pkt.collecting = bit == 1;
        pkt.ntp_synced = bit == 2;
        pkt.history_clear = bit == 3;
        pkt.heat_on = bit == 4;
        let buf = pkt.encode();
        assert_eq!(buf[42], 1 << bit);
        let back = Packet::decode(&buf).unwrap();
        assert_eq!(
            [back.relay_on, back.collecting, back.ntp_synced, back.history_clear, back.heat_on],
            [bit == 0, bit == 1, bit == 2, bit == 3, bit == 4],
        );
    }
}

#[test]
fn foreign_packets_are_refused() {
    let buf = sample().encode();
    assert!(Packet::decode(&buf[..56]).is_none());
    assert!(Packet::decode(&[]).is_none());
    let mut magic = buf;
    magic[0] = b'X';
    assert!(Packet::decode(&magic).is_none());
    let mut version = buf;
    version[4] = 4;
    assert!(Packet::decode(&version).is_none());
    let mut longer = buf.to_vec();
    longer.extend_from_slice(&[1, 2, 3]);
    assert_eq!(Packet::decode(&longer).unwrap().seq, 42);
}

#[test]
fn sensor_count_is_brought_into_range() {
    let mut buf = sample().encode();
    buf[52] = 0;
    assert_eq!(Packet::decode(&buf).unwrap().sensor_count, 1);
    buf[52] = 9;
    assert_eq!(Packet::decode(&buf).unwrap().sensor_count, 3);
}

#[test]
fn a_reading_at_the_limit_is_not_taken_for_none() {
    let mut pkt = sample();
    pkt.temps[0] = Some(TEMP_NONE);
    let back = Packet::decode(&pkt.encode()).unwrap();
    assert_eq!(back.temps[0], Some(TEMP_NONE - 1));
}
