use brewster::firmware::controller::{
    compute_on_steps, control_step, display_color, on_sensor_error, pixel_frame, plan_control,
    sensor_fault_color, status_color, ControlPlan, ControlState, HttpLedState, LoopOutput, Pulse,
    Rgb8,
};
use brewster::firmware::error::SensorError;
use brewster::firmware::sensor::{
    after_read, byte_bits, byte_from_bits, decode_scratchpad, ds18b20_command,
    ds18b20_configure_resolution, ds18b20_start_conversion, format_ds18b20_serial,
    parse_ds18b20_serial, write_slot, ReadStep, RomSearch, SearchPass, WriteSlot,
    ONEWIRE_READ_SCRATCHPAD,
};
use brewster::firmware::shared::crc8_maxim;
use brewster::firmware::status::RuntimeState;

#[test]
fn bits_make_the_same_byte_again() {
    assert_eq!(byte_bits(0x4d), [true, false, true, true, false, false, true, false]);
    for value in 0..=255u8 {
        assert_eq!(byte_from_bits(&byte_bits(value)), value);
    }
}

#[test]
fn bits_are_told_apart_by_their_slots() {
    assert_eq!(write_slot(true), WriteSlot { low_us: 6, high_us: 64 });
    assert_eq!(write_slot(false), WriteSlot { low_us: 60, high_us: 10 });
}

#[test]
fn commands_go_to_one_probe_or_to_all() {
    let rom = [0x28, 1, 2, 3, 4, 5, 6, 7];
    assert_eq!(ds18b20_command(None, ONEWIRE_READ_SCRATCHPAD), [0xcc, 0xbe]);
    assert_eq!(
        ds18b20_command(Some(rom), ONEWIRE_READ_SCRATCHPAD),
        [0x55, 0x28, 1, 2, 3, 4, 5, 6, 7, 0xbe],
    );
    assert_eq!(ds18b20_start_conversion(), [0xcc, 0x44]);
    assert_eq!(
        [9, 10, 11, 12].map(|bits| ds18b20_configure_resolution(bits)[4]),
        [0x1f, 0x3f, 0x5f, 0x7f],
    );
    assert_eq!(&ds18b20_configure_resolution(11)[..2], &[0xcc, 0x4e]);
}

fn scratchpad(raw: i16) -> [u8; 9] {
    let mut pad = [0, 0, 0x4b, 0x46, 0x7f, 0xff, 0x0c, 0x10, 0];
    pad[..2].copy_from_slice(&raw.to_le_bytes());
    pad[8] = crc8_maxim(&pad[..8]);
    pad
}

#[test]
fn a_checked_scratchpad_gives_its_reading() {
    assert_eq!(decode_scratchpad(&scratchpad(345)), Some(345));
    assert_eq!(decode_scratchpad(&scratchpad(-8)), Some(-8));
    let mut bad = scratchpad(345);
    bad[0] ^= 1;
    assert_eq!(decode_scratchpad(&bad), None);
    assert_eq!(after_read(0, &scratchpad(345)), ReadStep::Done(345));
    assert_eq!(after_read(0, &bad), ReadStep::Retry);
    assert_eq!(after_read(1, &bad), ReadStep::Retry);
    assert_eq!(after_read(2, &bad), ReadStep::Failed(SensorError::CrcMismatch));
}

#[test]
fn a_serial_is_read_back() {
    let mut rom = [0x28, 0xff, 0x64, 0x1e, 0x0f, 0x16, 0x03, 0];
    rom[7] = crc8_maxim(&rom[..7]);
    let text = format_ds18b20_serial(rom);
    assert_eq!(text.len(), 16);
    assert_eq!(&text.as_str()[..14], "28ff641e0f1603");
    assert_eq!(parse_ds18b20_serial(text.as_str()), Some(rom));
    assert_eq!(parse_ds18b20_serial(&text.as_str().to_uppercase()), Some(rom));
    assert_eq!(parse_ds18b20_serial("28FF"), None);
    assert_eq!(parse_ds18b20_serial(""), None);
    assert_eq!(parse_ds18b20_serial("28FF641E0F1603ZZ"), None);
}

/// Runs the search against devices with the given addresses on one bus.
fn search(devices: &[[u8; 8]], max: usize) -> Vec<[u8; 8]> {
    let mut search = RomSearch::new();
    for _ in 0..64 {
        let mut pass = SearchPass::new();
        let mut talking: Vec<[u8; 8]> = devices.to_vec();
        for at in 0..64usize {
            let bit = |d: &[u8; 8]| (d[at / 8] >> (at % 8)) & 1 == 1;
            let id = talking.iter().all(|d| bit(d));
            let complement = talking.iter().all(|d| !bit(d));
            match search.next_bit(&mut pass, id, complement) {
                Some(direction) => talking.retain(|d| bit(d) == direction),
                None => break,
            }
        }
        if !search.end_pass(&pass, max) {
            break;
        }
    }
    search.found
}

fn device(serial: u8) -> [u8; 8] {
    let mut rom = [0x28, serial, 0, 0x5a, serial ^ 0xff, 0, 1, 0];
    rom[7] = crc8_maxim(&rom[..7]);
    rom
}

#[test]
fn the_search_finds_every_device() {
    let devices = [device(3), device(200), device(7), device(8)];
    let mut found = search(&devices, 8);
    found.sort();
    let mut expected = devices.to_vec();
    expected.sort();
    assert_eq!(found, expected);
    assert_eq!(search(&devices[..1], 8), &devices[..1]);
    assert_eq!(search(&[], 8), Vec::<[u8; 8]>::new());
    assert_eq!(search(&devices, 2).len(), 2);
}

fn output(on_steps: u32, output_deci: u16) -> LoopOutput {
    LoopOutput { on_steps, output_deci, p_pct: 11, i_pct: 12, d_pct: -13 }
}

const SILENT: LoopOutput =
    LoopOutput { on_steps: 0, output_deci: 0, p_pct: 0, i_pct: 0, d_pct: 0 };

#[test]
fn steps_stay_within_the_window() {
    assert_eq!(compute_on_steps(-3), 0);
    assert_eq!(compute_on_steps(0), 0);
    assert_eq!(compute_on_steps(4), 4);
    assert_eq!(compute_on_steps(10), 10);
    assert_eq!(compute_on_steps(99), 10);
}

#[test]
fn the_side_of_the_dead_band_decides() {
    let mut state = ControlState::new(2000);
    let warm = plan_control(&mut state, true, 325, 2000, 50);
    assert_eq!((warm.run_cool, warm.run_heat), (true, false));
    assert!(!warm.relays_low && !warm.reset_cool && warm.reset_heat);
    let cold = plan_control(&mut state, true, 315, 2000, 50);
    assert_eq!((cold.run_cool, cold.run_heat), (false, true));
    let inside = plan_control(&mut state, true, 320, 2000, 50);
    assert_eq!(
        inside,
        ControlPlan {
            relays_low: false,
            reset_cool: true,
            run_cool: false,
            reset_heat: true,
            run_heat: false,
        },
    );
    let edge = plan_control(&mut state, true, 324, 2000, 50);
    assert_eq!((edge.run_cool, edge.run_heat), (false, false));
}

#[test]
fn a_new_target_starts_the_loops_anew() {
    let mut state = ControlState::new(2000);
    let near = plan_control(&mut state, true, 400, 2005, 50);
    assert!(!near.relays_low && near.run_cool);
    let far = plan_control(&mut state, true, 400, 2020, 50);
    assert!(far.relays_low && far.reset_cool && far.reset_heat);
    let idle = plan_control(&mut state, false, 400, 2020, 50);
    assert!(idle.relays_low && !idle.run_cool && !idle.run_heat);
}

#[test]
fn the_window_meters_the_command() {
    let mut state = ControlState::new(2000);
    let mut runtime = RuntimeState::new();
    let mut on = 0;
    for _ in 0..10 {
        let plan = plan_control(&mut state, true, 400, 2000, 50);
        let r = control_step(&mut state, &mut runtime, true, plan, 400, output(3, 300), SILENT);
        assert!(!(r.cooling_on && r.heat_on));
        if r.cooling_on {
            on += 1;
        }
        assert_eq!(runtime.relay_on, r.cooling_on);
        assert_eq!(runtime.pid_deci, 300);
        assert_eq!(runtime.temp_centi, 2500);
    }
    assert_eq!(on, 3);
}

#[test]
fn cooling_wins_over_heating() {
    let mut state = ControlState::new(2000);
    let mut runtime = RuntimeState::new();
    let plan = ControlPlan {
        relays_low: false,
        reset_cool: false,
        run_cool: true,
        reset_heat: false,
        run_heat: true,
    };
    let r = control_step(&mut state, &mut runtime, true, plan, 400, output(10, 1000), output(10, 1000));
    assert!(r.cooling_on && !r.heat_on);
}

#[test]
fn a_failed_reading_switches_everything_off() {
    let mut state = ControlState::new(2000);
    let mut runtime = RuntimeState::new();
    let (plan, outputs) = on_sensor_error(&mut state, &mut runtime, SensorError::NoDevice);
    assert!(plan.relays_low && plan.reset_cool && plan.reset_heat);
    assert!(!outputs.cooling_on && !outputs.heat_on);
    assert_eq!(outputs.color, sensor_fault_color(SensorError::NoDevice));
    assert!(!runtime.relay_on && !runtime.heat_on);
}

#[test]
fn colours_tell_the_state() {
    assert_eq!(status_color(true), Rgb8 { red: 10, green: 4, blue: 0 });
    assert_eq!(status_color(false), Rgb8 { red: 0, green: 4, blue: 0 });
    assert_eq!(sensor_fault_color(SensorError::BusStuckLow), Rgb8 { red: 10, green: 4, blue: 0 });
    assert_eq!(
        display_color(HttpLedState::ActiveOk, true, true),
        Rgb8 { red: 0, green: 0, blue: 10 },
    );
    assert_eq!(
        display_color(HttpLedState::ActiveError, false, false),
        Rgb8 { red: 10, green: 0, blue: 0 },
    );
    assert_eq!(
        display_color(HttpLedState::Idle, true, true),
        Rgb8 { red: 10, green: 0, blue: 0 },
    );
    assert_eq!(
        display_color(HttpLedState::Idle, false, true),
        Rgb8 { red: 6, green: 0, blue: 10 },
    );
    assert_eq!(
        display_color(HttpLedState::Idle, false, false),
        Rgb8 { red: 0, green: 4, blue: 0 },
    );
}

#[test]
fn a_pixel_is_sent_green_first() {
    let frame = pixel_frame(Rgb8 { red: 0, green: 0x80, blue: 1 });
    let one = Pulse { high_ticks: 8, low_ticks: 5 };
    let zero = Pulse { high_ticks: 4, low_ticks: 9 };
    assert_eq!(frame.len(), 24);
    assert_eq!(frame[0], one);
    assert_eq!(frame[23], one);
    assert!(frame[1..23].iter().all(|p| *p == zero));
}
