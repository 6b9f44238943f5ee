//! The telemetry packet that the device sends every second.
//!
//! A packet has 57 bytes, integers with their least significant byte first:
//!
//! ```text
//!  [0..4]   magic: BREW
//!  [4]      version
//!  [5..25]  hostname, padded with zeros
//!  [25..29] seq: u32
//!  [29..33] uptime_s: u32
//!  [33..39] temp_centi of three probes: i16 each, the greatest = no reading
//!  [39..41] target_centi: i16
//!  [41]     output_pct
//!  [42]     flags: bit 0 = cool relay on, 1 = collecting, 2 = NTP synced,
//!                  3 = history cleared (once), 4 = heat relay on
//!  [43]     window_step
//!  [44]     on_steps
//!  [45..48] sensor_status of three probes
//!  [48..52] device_ip
//!  [52]     sensor_count: 1 to 3
//!  [53]     deadband_centi
//!  [54..57] pid_p_pct, pid_i_pct, pid_d_pct: i8 each
//! ```

use vstd::prelude::*;
use crate::bytes::{
    bits_i16, bits_i8, bytes_start_with, get_u16_le, get_u32_le, i16_bits, i16_from_bits,
    i16_to_bits, i8_bits, i8_from_bits, i8_to_bits, push_bytes, push_u16_le, push_u32_le,
    read_u16_le, read_u32_le, u16_le, u16_le_within, u32_le, u32_le_within,
};
use crate::text::starts_with;

verus! {

/// `BREW` in ASCII.
pub const PACKET_MAGIC: [u8; 4] = [0x42, 0x52, 0x45, 0x57];

pub const PACKET_VERSION: u8 = 5;

pub const PACKET_SIZE: usize = 57;

pub const HOSTNAME_LEN: usize = 20;

/// Stands for a probe without a reading.
pub const TEMP_NONE: i16 = i16::MAX;

/// A telemetry packet. Temperatures are in hundredths of a degree.
#[derive(Clone, Copy, Debug)]
pub struct Packet {
    pub version: u8,
    /// Host name of the device, padded with zeros.
    pub hostname: [u8; 20],
    pub seq: u32,
    pub uptime_s: u32,
    /// One temperature for each probe that has a reading.
    pub temps: [Option<i16>; 3],
    pub target_centi: i16,
    pub output_pct: u8,
    /// Cooling relay.
    pub relay_on: bool,
    pub collecting: bool,
    pub ntp_synced: bool,
    /// The device has cleared its history since the last packet.
    pub history_clear: bool,
    /// Heating relay.
    pub heat_on: bool,
    pub window_step: u8,
    pub on_steps: u8,
    /// 0 for a probe that works.
    pub sensor_status: [u8; 3],
    pub device_ip: [u8; 4],
    pub sensor_count: u8,
    /// Width of the dead zone around the target.
    pub deadband_centi: u8,
    pub pid_p_pct: i8,
    pub pid_i_pct: i8,
    pub pid_d_pct: i8,
}

/// The temperature on the wire.
pub open spec fn wire_temp(temp: Option<i16>) -> i16 {
    match temp {
        Some(centi) => if centi == TEMP_NONE {
            (TEMP_NONE - 1) as i16
        } else {
            centi
        },
        None => TEMP_NONE,
    }
}

/// The temperature that a value on the wire stands for.
pub open spec fn temp_of(centi: i16) -> Option<i16> {
    if centi == TEMP_NONE {
        None
    } else {
        Some(centi)
    }
}

/// A flag's weight in the flags byte.
pub open spec fn weighed(flag: bool, weight: int) -> int {
    if flag {
        weight
    } else {
        0
    }
}

/// The flags byte.
pub open spec fn flags_of(relay: bool, collecting: bool, synced: bool, clear: bool, heat: bool) -> u8 {
    (weighed(relay, 1) + weighed(collecting, 2) + weighed(synced, 4) + weighed(clear, 8) + weighed(
        heat,
        16,
    )) as u8
}

/// The three temperatures and the target on the wire.
pub open spec fn temps_bytes(temps: Seq<Option<i16>>, target_centi: i16) -> Seq<u8> {
    u16_le(i16_bits(wire_temp(temps[0]))) + u16_le(i16_bits(wire_temp(temps[1]))) + u16_le(
        i16_bits(wire_temp(temps[2])),
    ) + u16_le(i16_bits(target_centi))
}

/// A packet on the wire.
pub open spec fn packet_bytes(p: Packet) -> Seq<u8> {
    PACKET_MAGIC@ + seq![PACKET_VERSION] + p.hostname@ + u32_le(p.seq) + u32_le(p.uptime_s)
        + temps_bytes(p.temps@, p.target_centi) + seq![
        p.output_pct,
        flags_of(p.relay_on, p.collecting, p.ntp_synced, p.history_clear, p.heat_on),
        p.window_step,
        p.on_steps,
        p.sensor_status@[0],
        p.sensor_status@[1],
        p.sensor_status@[2],
    ] + p.device_ip@ + seq![
        p.sensor_count,
        p.deadband_centi,
        i8_bits(p.pid_p_pct),
        i8_bits(p.pid_i_pct),
        i8_bits(p.pid_d_pct),
    ]
}

/// Whether bytes hold a packet of this version.
pub open spec fn is_packet(buf: Seq<u8>) -> bool {
    buf.len() >= PACKET_SIZE && starts_with(buf, PACKET_MAGIC@) && buf[4] == PACKET_VERSION
}

/// Whether flag number `i` is set.
pub open spec fn has_flag(flags: u8, i: nat) -> bool {
    flags as int / pow2(i) % 2 == 1
}

/// Two to the power of `i`.
pub open spec fn pow2(i: nat) -> int
    decreases i,
{
    if i == 0 {
        1
    } else {
        2 * pow2((i - 1) as nat)
    }
}

/// The number of probes that a byte stands for: at least one, at most three.
pub open spec fn probe_count(byte: u8) -> u8 {
    if byte < 1 {
        1
    } else if byte > 3 {
        3
    } else {
        byte
    }
}

/// Whether the fields of a packet are those that the bytes hold.
pub open spec fn fields_of(p: Packet, buf: Seq<u8>) -> bool {
    &&& p.version == buf[4]
    &&& p.hostname@ == buf.subrange(5, 25)
    &&& p.seq == get_u32_le(buf, 25)
    &&& p.uptime_s == get_u32_le(buf, 29)
    &&& p.temps@ == seq![
        temp_of(bits_i16(get_u16_le(buf, 33))),
        temp_of(bits_i16(get_u16_le(buf, 35))),
        temp_of(bits_i16(get_u16_le(buf, 37))),
    ]
    &&& p.target_centi == bits_i16(get_u16_le(buf, 39))
    &&& p.output_pct == buf[41]
    &&& p.relay_on == has_flag(buf[42], 0)
    &&& p.collecting == has_flag(buf[42], 1)
    &&& p.ntp_synced == has_flag(buf[42], 2)
    &&& p.history_clear == has_flag(buf[42], 3)
    &&& p.heat_on == has_flag(buf[42], 4)
    &&& p.window_step == buf[43]
    &&& p.on_steps == buf[44]
    &&& p.sensor_status@ == buf.subrange(45, 48)
    &&& p.device_ip@ == buf.subrange(48, 52)
    &&& p.sensor_count == probe_count(buf[52])
    &&& p.deadband_centi == buf[53]
    &&& p.pid_p_pct == bits_i8(buf[54])
    &&& p.pid_i_pct == bits_i8(buf[55])
    &&& p.pid_d_pct == bits_i8(buf[56])
}

fn decode_temp(buf: &[u8], at: usize) -> (r: Option<i16>)
    requires
        at + 2 <= buf@.len(),
    ensures
        r == temp_of(bits_i16(get_u16_le(buf@, at as int))),
{
    let centi: i16 = i16_from_bits(read_u16_le(buf, at));
    if centi == TEMP_NONE {
        None
    } else {
        Some(centi)
    }
}

fn encode_temp(temp: Option<i16>) -> (r: u16)
    ensures
        r == i16_bits(wire_temp(temp)),
{
    match temp {
        Some(centi) => if centi == TEMP_NONE {
            i16_to_bits(TEMP_NONE - 1)
        } else {
            i16_to_bits(centi)
        },
        None => i16_to_bits(TEMP_NONE),
    }
}

fn decode_hostname(buf: &[u8]) -> (r: [u8; 20])
    requires
        buf@.len() >= PACKET_SIZE,
    ensures
        r@ == buf@.subrange(5, 25),
{
    let mut hostname: [u8; 20] = [0;20];
    let mut i: usize = 0;
    while i < 20
        invariant
            i <= 20,
            buf@.len() >= PACKET_SIZE,
            forall|j: int| 0 <= j < i ==> hostname@[j] == buf@[5 + j],
        decreases 20 - i,
    {
        hostname[i] = buf[5 + i];
        i = i + 1;
    }
    assert(hostname@ == buf@.subrange(5, 25));
    hostname
}

fn weigh(flag: bool, weight: u8) -> (r: u8)
    ensures
        r == weighed(flag, weight as int),
{
    if flag {
        weight
    } else {
        0
    }
}

impl Packet {
    /// Reads a packet. Fails where the bytes are too few, or where the magic
    /// or the version is another.
    #[verifier::rlimit(40)]
    pub fn decode(buf: &[u8]) -> (r: Option<Self>)
        ensures
            match r {
                Some(p) => is_packet(buf@) && fields_of(p, buf@),
                None => !is_packet(buf@),
            },
    {
        if buf.len() < PACKET_SIZE {
            return None;
        }
        let magic: [u8; 4] = PACKET_MAGIC;
        if !bytes_start_with(buf, &magic) || buf[4] != PACKET_VERSION {
            return None;
        }
        let flags: u8 = buf[42];
        proof {
            reveal_with_fuel(pow2, 5);
        }
        let sensor_status: [u8; 3] = [buf[45], buf[46], buf[47]];
        let device_ip: [u8; 4] = [buf[48], buf[49], buf[50], buf[51]];
        let temps: [Option<i16>; 3] = [
            decode_temp(buf, 33),
            decode_temp(buf, 35),
            decode_temp(buf, 37),
        ];
        assert(sensor_status@ == buf@.subrange(45, 48));
        assert(device_ip@ == buf@.subrange(48, 52));
        let count: u8 = buf[52];
        let sensor_count: u8 = if count < 1 {
            1
        } else if count > 3 {
            3
        } else {
            count
        };
        Some(
            Packet {
                version: buf[4],
                hostname: decode_hostname(buf),
                seq: read_u32_le(buf, 25),
                uptime_s: read_u32_le(buf, 29),
                temps,
                target_centi: i16_from_bits(read_u16_le(buf, 39)),
                output_pct: buf[41],
                relay_on: flags % 2 == 1,
                collecting: flags / 2 % 2 == 1,
                ntp_synced: flags / 4 % 2 == 1,
                history_clear: flags / 8 % 2 == 1,
                heat_on: flags / 16 % 2 == 1,
                window_step: buf[43],
                on_steps: buf[44],
                sensor_status,
                device_ip,
                sensor_count,
                deadband_centi: buf[53],
                pid_p_pct: i8_from_bits(buf[54]),
                pid_i_pct: i8_from_bits(buf[55]),
                pid_d_pct: i8_from_bits(buf[56]),
            },
        )
    }

    /// Writes a packet, in the version of this module.
    pub fn encode(&self) -> (r: [u8; PACKET_SIZE])
        ensures
            r@ == packet_bytes(*self),
    {
        let mut buf: Vec<u8> = Vec::new();
        let magic: [u8; 4] = PACKET_MAGIC;
        push_bytes(&mut buf, &magic);
        buf.push(PACKET_VERSION);
        push_bytes(&mut buf, &self.hostname);
        push_u32_le(&mut buf, self.seq);
        push_u32_le(&mut buf, self.uptime_s);
        let ghost head = buf@;
        assert(head == PACKET_MAGIC@ + seq![PACKET_VERSION] + self.hostname@ + u32_le(self.seq)
            + u32_le(self.uptime_s));
        push_u16_le(&mut buf, encode_temp(self.temps[0]));
        push_u16_le(&mut buf, encode_temp(self.temps[1]));
        push_u16_le(&mut buf, encode_temp(self.temps[2]));
        push_u16_le(&mut buf, i16_to_bits(self.target_centi));
        let ghost temps = head + temps_bytes(self.temps@, self.target_centi);
        assert(buf@ == temps);
        buf.push(self.output_pct);
        buf.push(
            weigh(self.relay_on, 1) + weigh(self.collecting, 2) + weigh(self.ntp_synced, 4) + weigh(
                self.history_clear,
                8,
            ) + weigh(self.heat_on, 16),
        );
        buf.push(self.window_step);
        buf.push(self.on_steps);
        buf.push(self.sensor_status[0]);
        buf.push(self.sensor_status[1]);
        buf.push(self.sensor_status[2]);
        let ghost state = seq![
            self.output_pct,
            flags_of(
                self.relay_on,
                self.collecting,
                self.ntp_synced,
                self.history_clear,
                self.heat_on,
            ),
            self.window_step,
            self.on_steps,
            self.sensor_status@[0],
            self.sensor_status@[1],
            self.sensor_status@[2],
        ];
        assert(buf@ == temps + state);
        push_bytes(&mut buf, &self.device_ip);
        let ghost device = temps + state + self.device_ip@;
        buf.push(self.sensor_count);
        buf.push(self.deadband_centi);
        buf.push(i8_to_bits(self.pid_p_pct));
        buf.push(i8_to_bits(self.pid_i_pct));
        buf.push(i8_to_bits(self.pid_d_pct));
        assert(buf@ == device + seq![
            self.sensor_count,
            self.deadband_centi,
            i8_bits(self.pid_p_pct),
            i8_bits(self.pid_i_pct),
            i8_bits(self.pid_d_pct),
        ]);
        let mut raw: [u8; PACKET_SIZE] = [0;PACKET_SIZE];
        let mut i: usize = 0;
        while i < PACKET_SIZE
            invariant
                i <= PACKET_SIZE,
                buf@.len() == PACKET_SIZE,
                forall|j: int| 0 <= j < i ==> raw@[j] == buf@[j],
            decreases PACKET_SIZE - i,
        {
            raw[i] = buf[i];
            i = i + 1;
        }
        assert(raw@ == buf@);
        raw
    }
}

/// A packet of this version reads back as it was written, but for a reading
/// that is the value for none.
pub proof fn packet_read_back(p: Packet)
    requires
        p.version == PACKET_VERSION,
        1 <= p.sensor_count <= 3,
        forall|i: int| 0 <= i < 3 ==> p.temps@[i] != Some(TEMP_NONE),
    ensures
        packet_bytes(p).len() == PACKET_SIZE,
        is_packet(packet_bytes(p)),
        fields_of(p, packet_bytes(p)),
{
    packet_layout(p);
    laid_out_read_back(p, packet_bytes(p));
}

/// Whether bytes hold the fields of a packet where they belong.
spec fn laid_out(p: Packet, b: Seq<u8>) -> bool {
    &&& b.len() == PACKET_SIZE
    &&& b.take(4) == PACKET_MAGIC@
    &&& b[4] == PACKET_VERSION
    &&& b.subrange(5, 25) == p.hostname@
    &&& b.subrange(25, 29) == u32_le(p.seq)
    &&& b.subrange(29, 33) == u32_le(p.uptime_s)
    &&& b.subrange(33, 35) == u16_le(i16_bits(wire_temp(p.temps@[0])))
    &&& b.subrange(35, 37) == u16_le(i16_bits(wire_temp(p.temps@[1])))
    &&& b.subrange(37, 39) == u16_le(i16_bits(wire_temp(p.temps@[2])))
    &&& b.subrange(39, 41) == u16_le(i16_bits(p.target_centi))
    &&& b[41] == p.output_pct
    &&& b[42] == flags_of(p.relay_on, p.collecting, p.ntp_synced, p.history_clear, p.heat_on)
    &&& b[43] == p.window_step
    &&& b[44] == p.on_steps
    &&& b.subrange(45, 48) == p.sensor_status@
    &&& b.subrange(48, 52) == p.device_ip@
    &&& b[52] == p.sensor_count
    &&& b[53] == p.deadband_centi
    &&& b[54] == i8_bits(p.pid_p_pct)
    &&& b[55] == i8_bits(p.pid_i_pct)
    &&& b[56] == i8_bits(p.pid_d_pct)
}

proof fn packet_layout(p: Packet)
    ensures
        laid_out(p, packet_bytes(p)),
{
    let b = packet_bytes(p);
    assert(b.take(4) == PACKET_MAGIC@);
    assert(b.subrange(5, 25) == p.hostname@);
    assert(b.subrange(25, 29) == u32_le(p.seq));
    assert(b.subrange(29, 33) == u32_le(p.uptime_s));
    assert(b.subrange(33, 35) == u16_le(i16_bits(wire_temp(p.temps@[0]))));
    assert(b.subrange(35, 37) == u16_le(i16_bits(wire_temp(p.temps@[1]))));
    assert(b.subrange(37, 39) == u16_le(i16_bits(wire_temp(p.temps@[2]))));
    assert(b.subrange(39, 41) == u16_le(i16_bits(p.target_centi)));
    assert(b.subrange(45, 48) == p.sensor_status@);
    assert(b.subrange(48, 52) == p.device_ip@);
}

proof fn laid_out_read_back(p: Packet, b: Seq<u8>)
    requires
        laid_out(p, b),
        p.version == PACKET_VERSION,
        1 <= p.sensor_count <= 3,
        forall|i: int| 0 <= i < 3 ==> p.temps@[i] != Some(TEMP_NONE),
    ensures
        fields_of(p, b),
{
    u32_le_within(b, 25, p.seq);
    u32_le_within(b, 29, p.uptime_s);
    u16_le_within(b, 33, i16_bits(wire_temp(p.temps@[0])));
    u16_le_within(b, 35, i16_bits(wire_temp(p.temps@[1])));
    u16_le_within(b, 37, i16_bits(wire_temp(p.temps@[2])));
    u16_le_within(b, 39, i16_bits(p.target_centi));
    flags_read_back(p.relay_on, p.collecting, p.ntp_synced, p.history_clear, p.heat_on);
    assert(p.temps@ == seq![p.temps@[0], p.temps@[1], p.temps@[2]]);
}

/// The flags are read back from the flags byte.
pub proof fn flags_read_back(relay: bool, collecting: bool, synced: bool, clear: bool, heat: bool)
    ensures
        ({
            let flags = flags_of(relay, collecting, synced, clear, heat);
            &&& has_flag(flags, 0) == relay
            &&& has_flag(flags, 1) == collecting
            &&& has_flag(flags, 2) == synced
            &&& has_flag(flags, 3) == clear
            &&& has_flag(flags, 4) == heat
        }),
{
    reveal_with_fuel(pow2, 5);
    let f = flags_of(relay, collecting, synced, clear, heat) as int;
    assert(f / pow2(0) == f && f / pow2(1) == f / 2 && f / pow2(2) == f / 4);
    assert(f / pow2(3) == f / 8 && f / pow2(4) == f / 16);
}

/// Each field of a packet stands where the format has it, integers with their
/// least significant byte first, and each flag has a bit of its own.
pub proof fn fields_stand_in_their_places(p: Packet, buf: Seq<u8>)
    requires
        buf.len() >= 57,
        fields_of(p, buf),
    ensures
        p.seq == buf[25] + 0x100 * buf[26] + 0x1_0000 * buf[27] + 0x100_0000 * buf[28],
        p.uptime_s == buf[29] + 0x100 * buf[30] + 0x1_0000 * buf[31] + 0x100_0000 * buf[32],
        forall|i: int| 0 <= i < 20 ==> #[trigger] p.hostname@[i] == buf[5 + i],
        p.target_centi == (if buf[40] < 128 {
            buf[39] + 256 * buf[40]
        } else {
            buf[39] + 256 * buf[40] - 0x1_0000
        }),
        p.output_pct == buf[41],
        p.relay_on <==> buf[42] % 2 == 1,
        p.collecting <==> buf[42] / 2 % 2 == 1,
        p.ntp_synced <==> buf[42] / 4 % 2 == 1,
        p.history_clear <==> buf[42] / 8 % 2 == 1,
        p.heat_on <==> buf[42] / 16 % 2 == 1,
        p.window_step == buf[43],
        p.on_steps == buf[44],
        p.sensor_status@[0] == buf[45] && p.sensor_status@[1] == buf[46] && p.sensor_status@[2]
            == buf[47],
        p.device_ip@[0] == buf[48] && p.device_ip@[1] == buf[49] && p.device_ip@[2] == buf[50]
            && p.device_ip@[3] == buf[51],
        1 <= buf[52] <= 3 ==> p.sensor_count == buf[52],
        1 <= p.sensor_count <= 3,
        p.deadband_centi == buf[53],
        p.pid_p_pct == (if buf[54] < 128 {
            buf[54] as int
        } else {
            buf[54] - 256
        }),
        p.pid_i_pct == (if buf[55] < 128 {
            buf[55] as int
        } else {
            buf[55] - 256
        }),
        p.pid_d_pct == (if buf[56] < 128 {
            buf[56] as int
        } else {
            buf[56] - 256
        }),
{
    reveal_with_fuel(pow2, 5);
    let f = buf[42] as int;
    assert(f / pow2(0) == f && f / pow2(1) == f / 2 && f / pow2(2) == f / 4);
    assert(f / pow2(3) == f / 8 && f / pow2(4) == f / 16);
    assert forall|i: int| 0 <= i < 20 implies #[trigger] p.hostname@[i] == buf[5 + i] by {
        assert(buf.subrange(5, 25)[i] == buf[5 + i]);
    }
    assert(buf.subrange(45, 48)[0] == buf[45] && buf.subrange(45, 48)[1] == buf[46]
        && buf.subrange(45, 48)[2] == buf[47]);
    assert(buf.subrange(48, 52)[0] == buf[48] && buf.subrange(48, 52)[1] == buf[49]
        && buf.subrange(48, 52)[2] == buf[50] && buf.subrange(48, 52)[3] == buf[51]);
}

/// A probe's temperature is in hundredths of a degree at its place, and there
/// is none where the greatest number stands for it.
pub proof fn temperatures_stand_in_their_places(p: Packet, buf: Seq<u8>, i: int)
    requires
        buf.len() >= 57,
        fields_of(p, buf),
        0 <= i < 3,
    ensures
        ({
            let low = buf[33 + 2 * i];
            let high = buf[34 + 2 * i];
            let value = if high < 128 {
                low + 256 * high
            } else {
                low + 256 * high - 0x1_0000
            };
            p.temps@[i] == (if value == 32767 {
                None
            } else {
                Some(value as i16)
            })
        }),
{
    if i == 0 {
    } else if i == 1 {
    } else {
    }
}

/// A packet is known by its size, its magic and its version.
pub proof fn packets_are_known_by_their_head(buf: Seq<u8>)
    ensures
        is_packet(buf) <==> buf.len() >= 57 && buf[0] == 0x42 && buf[1] == 0x52 && buf[2] == 0x45
            && buf[3] == 0x57 && buf[4] == 5,
{
    if buf.len() >= 57 {
        assert(buf.take(4)[0] == buf[0] && buf.take(4)[1] == buf[1] && buf.take(4)[2] == buf[2]
            && buf.take(4)[3] == buf[3]);
        if buf[0] == 0x42 && buf[1] == 0x52 && buf[2] == 0x45 && buf[3] == 0x57 {
            assert(buf.take(4) =~= PACKET_MAGIC@);
        }
    }
}

} // verus!
