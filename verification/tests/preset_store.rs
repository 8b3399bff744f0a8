use radio::presets::{
    read_record, write_record, PresetStore, PresetStoreError, DEFAULT_PRESET_OFFSET,
};
use radio::state::{is_ps_unknown, PresetSet};

fn set_of(freqs: &[u16]) -> PresetSet {
    let mut s = PresetSet::empty();
    for f in freqs {
        s.save(*f);
    }
    s
}

#[test]
fn written_presets_read_back() {
    let mut set = set_of(&[977, 1015]);
    set.last_tuned = 1015;
    set.set_meta(0, Some(0xC201), Some(*b"BBC R1  "));
    let record = write_record(&set);
    assert_eq!(record.len(), 112);
    assert_eq!(&record[..4], b"RPST");
    assert_eq!(&record[110..], &[0, 0]);
    assert_eq!(read_record(&record).unwrap(), set);
}

#[test]
fn bad_preset_records_are_told_apart() {
    let record = write_record(&set_of(&[977]));
    let mut magic = record.clone();
    magic[0] = b'X';
    assert_eq!(read_record(&magic).unwrap_err(), PresetStoreError::InvalidMagic);
    let mut version = record.clone();
    version[4] = 3;
    assert_eq!(read_record(&version).unwrap_err(), PresetStoreError::VersionMismatch);
    let mut crc = record.clone();
    crc[40] ^= 1;
    assert_eq!(read_record(&crc).unwrap_err(), PresetStoreError::CrcMismatch);
}

#[test]
fn saved_preset_is_found_and_saved_once() {
    let mut s = PresetSet::empty();
    assert_eq!(s.save(977), 0);
    assert_eq!(s.save(1015), 1);
    assert_eq!(s.save(977), 0);
    assert_eq!(s.used(), 2);
    assert_eq!(s.position(1015), Some(1));
    assert_eq!(s.position(900), None);
}

#[test]
fn full_table_drops_the_oldest() {
    let mut s = set_of(&[881, 882, 883, 884, 885, 886, 887, 888]);
    s.set_meta(1, Some(7), None);
    assert_eq!(s.save(900), 7);
    assert_eq!(s.freqs, [882, 883, 884, 885, 886, 887, 888, 900]);
    assert_eq!(s.pi[0], 7);
    assert_eq!(s.pi[7], 0);
    assert_eq!(s.position(881), None);
}

#[test]
fn presets_are_cycled_in_order() {
    let s = set_of(&[881, 950, 1000]);
    assert_eq!(s.next_after(881), Some(950));
    assert_eq!(s.next_after(1000), Some(881));
    assert_eq!(s.next_after(900), Some(881));
    assert_eq!(PresetSet::empty().next_after(900), None);
    assert_eq!(set_of(&[950]).next_after(950), Some(950));
}

#[test]
fn store_opens_empty_without_a_good_record() {
    assert_eq!(PresetStore::open(None).snapshot(), PresetSet::empty());
    assert_eq!(PresetStore::open(Some(&[0xFFu8; 112])).snapshot(), PresetSet::empty());
    let record = write_record(&set_of(&[977]));
    let store = PresetStore::open_at(0x1000, Some(&record));
    assert_eq!(store.snapshot(), set_of(&[977]));
    assert_eq!((store.sector().offset, store.sector().end), (0x1000, 0x2000));
    assert_eq!(PresetStore::open(None).sector().offset, DEFAULT_PRESET_OFFSET);
}

#[test]
fn set_in_memory_changes_only_when_written() {
    let mut store = PresetStore::open(None);
    let plan = store.save_freq(977).unwrap();
    assert_eq!(plan.slot, 0);
    assert_eq!(store.save_set(plan.set, false), Err(PresetStoreError::Flash));
    assert_eq!(store.snapshot().used(), 0);
    assert_eq!(store.save_set(plan.set, true), Ok(()));
    assert_eq!(store.snapshot().freqs[0], 977);
    assert!(store.save_freq(0).is_none());
}

#[test]
fn metadata_is_stored_only_where_it_is_new() {
    let mut store = PresetStore::open(None);
    let plan = store.save_freq_with_meta(977, Some(0xC201), None).unwrap();
    store.save_set(plan.set, true).unwrap();
    assert!(store.update_meta(1015, Some(1), None).is_none());
    assert!(store.update_meta(977, Some(0xC201), None).is_none());
    assert!(store.update_meta(977, Some(0), Some([0; 8])).is_none());
    let set = store.update_meta(977, Some(0xC201), Some(*b"BBC R1  ")).unwrap();
    assert_eq!(&set.ps[0], b"BBC R1  ");
    store.save_set(set, true).unwrap();
    assert!(store.update_meta(977, Some(0xC201), Some(*b"BBC R1  ")).is_none());
}

#[test]
fn last_tuned_is_stored_only_where_it_changed() {
    let mut store = PresetStore::open(None);
    let set = store.record_last_tuned(1015).unwrap();
    assert_eq!(set.last_tuned, 1015);
    store.save_set(set, true).unwrap();
    assert!(store.record_last_tuned(1015).is_none());
}

#[test]
fn paused_store_resumes_as_it_was() {
    let record = write_record(&set_of(&[977, 1015]));
    let store = PresetStore::open_at(0x2000, Some(&record));
    let store = store.pause().resume();
    assert_eq!(store.snapshot(), set_of(&[977, 1015]));
    assert_eq!(store.sector().offset, 0x2000);
}

#[test]
fn blank_names_are_unknown() {
    assert!(is_ps_unknown(&[0; 8]));
    assert!(is_ps_unknown(b"  \0     "));
    assert!(!is_ps_unknown(b"   A    "));
}

#[test]
fn presets_are_visited_in_turn() {
    let mut p = PresetSet::empty();
    for f in [900, 950, 1000] {
        p.save(f);
    }
    let mut seen = vec![950];
    for _ in 0..3 {
        seen.push(p.next_after(*seen.last().unwrap()).unwrap());
    }
    assert_eq!(seen, vec![950, 1000, 900, 950]);
}
