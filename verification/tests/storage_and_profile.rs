use brewster::firmware::error::StorageError;
use brewster::firmware::profile::{
    active_state, is_active, is_within_band, profile_tick, start_profile, stop_profile,
    ProfileError, ProfileState, ProfileStep, TempProfile,
};
use brewster::firmware::status::RuntimeSample;
use brewster::firmware::storage::{
    clear_history_persistent, decode_history_record, decode_target, encode_history_record,
    encode_target, find_config_partition, get_target_temp_centi, history_cleared, history_init,
    history_record_offset, history_record_valid, history_sample_interval_secs,
    history_sample_written, history_slot, history_snapshot, history_total_samples,
    init_persistent_target, is_addressable, persist_history_sample, persist_target_temp_c,
    set_target_temp_c_persistent, set_target_temp_centi_ram, set_temp_probe_name, slot_offsets, target_readable,
    temp_probe_name, valid_target_centi, HistoryCollector, HistoryScan, PartitionEntry,
    ProbeNameError, StorageState,
};

const HZ: u64 = 1_000;

fn sample(temp_raw: i16) -> RuntimeSample {
    RuntimeSample {
        temp_raw,
        pid_deci: 456,
        heating_on: true,
        heat_on: false,
        led_red: 0,
        led_green: 0,
        led_blue: 0,
        pid_window_step: 3,
        pid_on_steps: 5,
        pid_p_pct: 0,
        pid_i_pct: 0,
        pid_d_pct: 0,
    }
}

fn entry(label: &str, offset: u32, len: u32) -> PartitionEntry {
    PartitionEntry { label: label.to_string(), offset, len }
}

#[test]
fn targets_from_zero_to_150_degrees_are_accepted() {
    assert!(valid_target_centi(0));
    assert!(valid_target_centi(15_000));
    assert!(!valid_target_centi(-1));
    assert!(!valid_target_centi(15_001));
}

#[test]
fn a_stored_target_is_read_back() {
    let raw = encode_target(2111);
    assert_eq!(raw, [b'B', b'R', b'W', b'T', 1, 0x3f, 0x08, 0, 0]);
    assert_eq!(decode_target(&raw), Some(2111));
    let mut magic = raw;
    magic[0] = 0;
    assert_eq!(decode_target(&magic), None);
    let mut version = raw;
    version[4] = 2;
    assert_eq!(decode_target(&version), None);
    assert_eq!(decode_target(&encode_target(-5)), None);
    assert_eq!(decode_target(&encode_target(15_001)), None);
}

#[test]
fn the_configuration_partition_is_found() {
    let table = [entry("nvs", 0x9000, 0x6000), entry("cfg", 0x310000, 0x40000), entry("cfg", 1, 1)];
    assert_eq!(find_config_partition(&table), Some((0x310000, 0x40000)));
    assert_eq!(find_config_partition(&table[..1]), None);
    assert!(target_readable(9));
    assert!(!target_readable(8));
}

#[test]
fn boot_takes_over_target_and_history() {
    let mut storage = StorageState::new();
    assert_eq!(get_target_temp_centi(&storage), 2111);
    let record = |seq| Some(encode_history_record(seq, &sample(320), 2000, &[]));
    let loaded = init_persistent_target(
        &mut storage,
        Some((0x310000, 0x1000 + 64)),
        Some(encode_target(1234)),
        &[record(7), record(8), None, Some([0xff; 16])],
    );
    assert_eq!(loaded, Some(1234));
    assert_eq!(get_target_temp_centi(&storage), 1234);
    assert_eq!(storage.history.base, 0x311000);
    assert_eq!(storage.history.capacity, 4);
    assert_eq!(storage.history.count, 2);
    assert_eq!(storage.history.write_index, 2);
    assert_eq!(storage.history.next_seq, 9);
}

#[test]
fn boot_without_a_partition_keeps_the_default() {
    let mut storage = StorageState::new();
    assert_eq!(init_persistent_target(&mut storage, None, Some(encode_target(1)), &[]), None);
    assert_eq!(get_target_temp_centi(&storage), 2111);
    assert_eq!(history_total_samples(&storage), 0);
    let mut small = StorageState::new();
    assert_eq!(init_persistent_target(&mut small, Some((0, 8)), Some(encode_target(1)), &[]), None);
}

#[test]
fn a_target_is_in_force_even_where_it_cannot_be_stored() {
    let mut storage = StorageState::new();
    assert!(matches!(
        set_target_temp_c_persistent(&mut storage, 15_001, true),
        Err(StorageError::OutOfRange)
    ));
    assert_eq!(get_target_temp_centi(&storage), 2111);
    assert!(matches!(
        set_target_temp_c_persistent(&mut storage, 1800, true),
        Err(StorageError::MissingPartition)
    ));
    assert_eq!(get_target_temp_centi(&storage), 1800);
    storage.store_offset = 0x310000;
    storage.store_len = 8;
    assert!(matches!(
        persist_target_temp_c(&storage, 1800, true),
        Err(StorageError::PartitionTooSmall)
    ));
    storage.store_len = 9;
    assert!(matches!(
        persist_target_temp_c(&storage, 1800, false),
        Err(StorageError::NotInitialized)
    ));
    let write = set_target_temp_c_persistent(&mut storage, 1700, true).unwrap();
    assert_eq!(write.offset, 0x310000);
    assert_eq!(write.raw, encode_target(1700));
    set_target_temp_centi_ram(&mut storage, -300);
    assert_eq!(get_target_temp_centi(&storage), -300);
}

#[test]
fn probe_names_are_checked() {
    let mut storage = StorageState::new();
    assert_eq!(temp_probe_name(&storage).as_str(), "probe-1");
    assert_eq!(set_temp_probe_name(&mut storage, "  "), Err(ProbeNameError::Empty));
    assert_eq!(set_temp_probe_name(&mut storage, &"a".repeat(33)), Err(ProbeNameError::TooLong));
    assert_eq!(set_temp_probe_name(&mut storage, "a/b"), Err(ProbeNameError::InvalidChar));
    assert_eq!(temp_probe_name(&storage).as_str(), "probe-1");
    assert_eq!(set_temp_probe_name(&mut storage, " Fermenter_2.b "), Ok(()));
    assert_eq!(temp_probe_name(&storage).as_str(), "Fermenter_2.b");
    assert_eq!(set_temp_probe_name(&mut storage, &"b".repeat(32)), Ok(()));
    assert_eq!(temp_probe_name(&storage).as_str(), "b".repeat(32));
}

#[test]
fn a_history_record_is_read_back() {
    let raw = encode_history_record(77, &sample(-345), -200, &[1875, i32::MAX, 40_000]);
    assert!(history_record_valid(&raw));
    assert!(!history_record_valid(&[0xff; 16]));
    let point = decode_history_record(&raw);
    assert_eq!(point.seq, 77);
    assert_eq!(point.temp_centi, -2156);
    assert_eq!(point.target_centi, -200);
    assert_eq!(point.output_percent, 45);
    assert_eq!((point.window_step, point.on_steps), (3, 5));
    assert!(point.relay_on);
    assert_eq!(point.extra_temps, [Some(1875), None, Some(i16::MAX - 1)]);
}

#[test]
fn history_goes_on_after_the_newest_record() {
    let record = |seq| Some(encode_history_record(seq, &sample(0), 0, &[]));
    let ring = history_init(0x1000, 0x1000 + 80, &[record(4), record(5), record(1), record(2), record(3)], 0);
    assert_eq!((ring.write_index, ring.next_seq, ring.count), (2, 6, 5));
    assert_eq!(history_record_offset(&ring, 2), 0x2000 + 32);
    assert_eq!((history_slot(&ring, 0), history_slot(&ring, 4)), (2, 1));
    let mut scan = HistoryScan::new();
    scan.next_slot(record(9));
    scan.next_slot(None);
    assert_eq!((scan.slots_seen, scan.valid_count, scan.max_seq), (2, 1, 9));
}

#[test]
fn a_record_is_written_every_minute() {
    assert_eq!(history_sample_interval_secs(), 60);
    let mut storage = StorageState::new();
    assert!(persist_history_sample(&mut storage, &sample(0), &[], 5, true).is_none());
    storage.history = history_init(0x10000, 0x1000 + 64, &[], 0);
    let first = persist_history_sample(&mut storage, &sample(0), &[], 5, true).unwrap();
    assert!(first.erase);
    assert_eq!(first.offset, 0x11000);
    history_sample_written(&mut storage, first.erase);
    assert_eq!(history_total_samples(&storage), 1);
    assert!(persist_history_sample(&mut storage, &sample(0), &[], 64, true).is_none());
    let second = persist_history_sample(&mut storage, &sample(0), &[], 65, true).unwrap();
    assert!(!second.erase);
    assert_eq!(second.offset, 0x11010);
    assert_eq!(decode_history_record(&second.raw).seq, 1);
    history_sample_written(&mut storage, second.erase);
    assert!(persist_history_sample(&mut storage, &sample(0), &[], 200, false).is_none());
    assert!(persist_history_sample(&mut storage, &sample(0), &[], 201, true).is_none());
    assert_eq!(history_total_samples(&storage), 2);
}

#[test]
fn what_was_written_is_found_at_the_next_boot() {
    let mut storage = StorageState::new();
    storage.history = history_init(0x10000, 0x1000 + 64, &[], 0);
    let mut flash: Vec<Option<[u8; 16]>> = vec![Some([0xff; 16]); 4];
    for minute in 0..6u32 {
        let write = persist_history_sample(&mut storage, &sample(0), &[], 60 * minute + 1, true).unwrap();
        if write.erase {
            flash = vec![Some([0xff; 16]); 4];
        }
        flash[((write.offset - 0x11000) / 16) as usize] = Some(write.raw);
        history_sample_written(&mut storage, write.erase);
    }
    let reboot = history_init(0x10000, 0x1000 + 64, &flash, 0);
    assert_eq!(reboot.next_seq, storage.history.next_seq);
    assert_eq!(reboot.write_index, storage.history.write_index);
}

#[test]
fn the_newest_points_are_handed_out_in_order() {
    let record = |seq| Some(encode_history_record(seq, &sample(0), 0, &[]));
    let slots = [record(4), record(5), record(1), record(2), record(3)];
    let mut storage = StorageState::new();
    storage.history = history_init(0x1000, 0x1000 + 80, &slots, 0);
    let seqs = |points: Vec<brewster::firmware::storage::HistorySample>| -> Vec<u32> {
        points.iter().map(|p| p.seq).collect()
    };
    assert_eq!(seqs(history_snapshot(&storage, &slots, 3)), [3, 4, 5]);
    assert_eq!(seqs(history_snapshot(&storage, &slots, 100)), [1, 2, 3, 4, 5]);
    assert_eq!(seqs(history_snapshot(&storage, &slots, 0)), Vec::<u32>::new());
    let mut collector = HistoryCollector::new(1);
    collector.next_slot(record(8));
    collector.next_slot(None);
    collector.next_slot(record(9));
    assert_eq!(seqs(collector.points), [9]);
}

#[test]
fn clearing_erases_every_sector_of_the_ring() {
    let mut storage = StorageState::new();
    assert!(matches!(
        clear_history_persistent(&storage, true),
        Err(StorageError::MissingPartition)
    ));
    storage.history = history_init(0x10000, 0x1000 + 0x2010, &[], 0);
    assert!(matches!(
        clear_history_persistent(&storage, false),
        Err(StorageError::NotInitialized)
    ));
    assert_eq!(clear_history_persistent(&storage, true).unwrap(), [0x11000, 0x12000, 0x13000]);
    storage.history.count = 9;
    storage.history.write_index = 9;
    history_cleared(&mut storage);
    assert_eq!(history_total_samples(&storage), 0);
    assert_eq!(storage.history.write_index, 0);
}

fn profile(steps: &[(i32, u32)]) -> TempProfile {
    TempProfile {
        name: "ale".to_string(),
        steps: steps
            .iter()
            .map(|s| ProfileStep { target_centi: s.0, hold_secs: s.1 })
            .collect(),
    }
}

#[test]
fn a_profile_holds_each_step() {
    let mut state = ProfileState::new();
    let mut storage = StorageState::new();
    let found = Some((2, profile(&[(2000, 10), (400, 5)])));
    assert_eq!(start_profile(&mut state, &mut storage, found), Ok(()));
    assert!(is_active(&state));
    assert_eq!(storage.target_centi, 2000);
    assert_eq!(profile_tick(&mut state, &mut storage, 400, 50, 1_000, HZ), None);
    assert_eq!(profile_tick(&mut state, &mut storage, 320, 50, 2_000, HZ), None);
    assert_eq!(profile_tick(&mut state, &mut storage, 320, 50, 11_999, HZ), None);
    let report = active_state(&state, 11_999, HZ).unwrap();
    assert_eq!(report.name, "ale");
    assert_eq!((report.step_index, report.total_steps), (0, 2));
    assert_eq!((report.step_target_centi, report.step_hold_secs), (2000, 10));
    assert!(report.at_target);
    assert_eq!(report.hold_elapsed_secs, 9);
    assert_eq!(profile_tick(&mut state, &mut storage, 320, 50, 12_000, HZ), Some(400));
    assert_eq!(storage.target_centi, 400);
    assert_eq!(profile_tick(&mut state, &mut storage, 64, 50, 13_000, HZ), None);
    assert_eq!(profile_tick(&mut state, &mut storage, 64, 50, 18_000, HZ), None);
    assert!(!is_active(&state));
    assert!(active_state(&state, 18_000, HZ).is_none());
    assert_eq!(storage.target_centi, 400);
}

#[test]
fn leaving_the_band_starts_the_hold_anew() {
    let mut state = ProfileState::new();
    let mut storage = StorageState::new();
    let found = Some((0, profile(&[(2000, 10), (400, 5)])));
    assert_eq!(start_profile(&mut state, &mut storage, found), Ok(()));
    profile_tick(&mut state, &mut storage, 320, 50, 1_000, HZ);
    profile_tick(&mut state, &mut storage, 340, 50, 5_000, HZ);
    assert_eq!(profile_tick(&mut state, &mut storage, 320, 50, 11_000, HZ), None);
    assert_eq!(profile_tick(&mut state, &mut storage, 320, 50, 20_999, HZ), None);
    assert_eq!(profile_tick(&mut state, &mut storage, 320, 50, 21_000, HZ), Some(400));
}

#[test]
fn a_profile_needs_to_exist_and_to_have_steps() {
    let mut state = ProfileState::new();
    let mut storage = StorageState::new();
    assert_eq!(start_profile(&mut state, &mut storage, None), Err(ProfileError::NotFound));
    assert_eq!(
        start_profile(&mut state, &mut storage, Some((0, profile(&[])))),
        Err(ProfileError::InvalidStep),
    );
    assert!(!is_active(&state));
    assert_eq!(start_profile(&mut state, &mut storage, Some((0, profile(&[(1, 1)])))), Ok(()));
    stop_profile(&mut state);
    assert!(!is_active(&state));
    assert_eq!(storage.target_centi, 1);
}

#[test]
fn the_band_is_half_the_dead_band_to_either_side() {
    assert!(is_within_band(324, 2000, 50));
    assert!(is_within_band(316, 2000, 50));
    assert!(!is_within_band(325, 2000, 50));
    assert!(!is_within_band(315, 2000, 50));
    assert!(is_within_band(-320, -2000, 0));
}

#[test]
fn slots_are_read_where_they_are_written() {
    let len = 4096 + 16 * 3;
    assert!(is_addressable(0x1000, len));
    assert_eq!(slot_offsets(0x1000, len), [0x2000, 0x2010, 0x2020]);
    let ring = history_init(0x1000, len, &[None; 3], 0);
    for (slot, at) in slot_offsets(0x1000, len).into_iter().enumerate() {
        assert_eq!(history_record_offset(&ring, slot as u32), at);
    }
    assert_eq!(slot_offsets(0x1000, 4096 + 16), Vec::<u32>::new());
    assert!(is_addressable(u32::MAX, 16));
    assert!(!is_addressable(u32::MAX - 8192, 8192));
}
