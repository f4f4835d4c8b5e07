use vivarium::sensor::{decode_frame, mux_select_mask, reading_from_transfer, Reading, SensorBank};

#[test]
fn reading_accessors() {
    let r = Reading::Valid { temp_tenths_f: 752, humi_tenths: 655 };
    assert_eq!(r.temp_tenths_f(), 752);
    assert_eq!(r.humi_tenths(), 655);
    assert!(!r.is_error());
}

#[test]
fn error_reading_reports_minimum() {
    let r = Reading::Error;
    assert_eq!(r.temp_tenths_f(), i16::MIN);
    assert_eq!(r.humi_tenths(), i16::MIN);
    assert!(r.is_error());
    assert_eq!(Reading::default(), Reading::Error);
}

#[test]
fn decode_frame_uses_value_bytes_only() {
    // 0x6666 -> 77.0 F, 0x8000 -> 50.0 %; the CRC bytes are ignored.
    let frame = [0x66, 0x66, 0xAB, 0x80, 0x00, 0xCD];
    assert_eq!(decode_frame(&frame), Reading::Valid { temp_tenths_f: 770, humi_tenths: 500 });
    let other_crc = [0x66, 0x66, 0x00, 0x80, 0x00, 0xFF];
    assert_eq!(decode_frame(&other_crc), decode_frame(&frame));
}

#[test]
fn decode_frame_extremes() {
    assert_eq!(
        decode_frame(&[0, 0, 0, 0, 0, 0]),
        Reading::Valid { temp_tenths_f: -490, humi_tenths: 0 }
    );
    assert_eq!(
        decode_frame(&[0xFF, 0xFF, 0, 0xFF, 0xFF, 0]),
        Reading::Valid { temp_tenths_f: 2660, humi_tenths: 1000 }
    );
}

#[test]
fn failed_transfer_degrades_to_error() {
    assert_eq!(reading_from_transfer(None), Reading::Error);
    assert_eq!(
        reading_from_transfer(Some([0x66, 0x66, 0, 0x80, 0x00, 0])),
        Reading::Valid { temp_tenths_f: 770, humi_tenths: 500 }
    );
}

#[test]
fn mux_masks_are_one_hot() {
    assert_eq!(mux_select_mask(0), Some(1));
    assert_eq!(mux_select_mask(3), Some(8));
    assert_eq!(mux_select_mask(7), Some(128));
    assert_eq!(mux_select_mask(8), None);
    assert_eq!(mux_select_mask(255), None);
    for a in 0..8u8 {
        for b in 0..8u8 {
            let (ma, mb) = (mux_select_mask(a).unwrap(), mux_select_mask(b).unwrap());
            assert_ne!(ma, 0);
            if a != b {
                assert_eq!(ma & mb, 0);
            }
        }
    }
}

#[test]
fn bank_starts_with_errors_and_stores_per_channel() {
    let mut bank = SensorBank::default();
    assert_eq!(bank.readings(), &[Reading::Error; 4]);
    let r = Reading::Valid { temp_tenths_f: 800, humi_tenths: 650 };
    bank.store(2, r);
    assert_eq!(bank.readings(), &[Reading::Error, Reading::Error, r, Reading::Error]);
}

#[test]
fn sweep_step_records_each_channel_on_its_own() {
    let good = [0x66, 0x66, 0, 0x80, 0x00, 0];
    let mut bank = SensorBank::default();
    bank.record_channel(0, true, Some(good));
    // A failed mux selection only marks its own channel.
    bank.record_channel(1, false, Some(good));
    // So does a probe that did not answer.
    bank.record_channel(2, true, None);
    bank.record_channel(3, true, Some(good));
    let ok = Reading::Valid { temp_tenths_f: 770, humi_tenths: 500 };
    assert_eq!(bank.readings(), &[ok, Reading::Error, Reading::Error, ok]);
}

#[test]
fn sweep_step_overwrites_a_stale_reading() {
    let mut bank = SensorBank::default();
    bank.record_channel(2, true, Some([0xFF, 0xFF, 0, 0xFF, 0xFF, 0]));
    bank.record_channel(2, false, None);
    assert_eq!(bank.readings()[2], Reading::Error);
}
