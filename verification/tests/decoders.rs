//! The decoders of aircraft and satellite frames.

use sdrapp_ui::adsb_decoder;
use sdrapp_ui::adsb_decoder::AdsbDecoder;
use sdrapp_ui::orbcomm;
use sdrapp_ui::orbcomm::OrbcommDecoder;
use sdrapp_ui::orbcomm::OrbcommLogEntry;
use sdrapp_ui::orbcomm::OrbcommPacket;
use sdrapp_ui::orbcomm::PacketType;
use sdrapp_ui::single::Single;
use sdrapp_ui::stream;
use sdrapp_ui::stream::IqSample;
use sdrapp_ui::stream::StreamEvent;
use sdrapp_ui::stream::StreamStep;
use sdrapp_ui::theme;

fn value(x: Single) -> f64 {
    x.num as f64 / 2f64.powi(x.shift as i32)
}

// ── Aircraft ────────────────────────────────────────────────────────────────

#[test]
fn decimation_factor_exact_2msps() {
    assert_eq!(adsb_decoder::decimation_factor(2_000_000), 1);
}

#[test]
fn decimation_factor_4msps_halves() {
    assert_eq!(adsb_decoder::decimation_factor(4_000_000), 2);
}

#[test]
fn decimation_factor_8msps_quarters() {
    assert_eq!(adsb_decoder::decimation_factor(8_000_000), 4);
}

#[test]
fn decimation_factor_below_2msps_clamped_to_1() {
    assert_eq!(adsb_decoder::decimation_factor(1_000_000), 1);
    assert_eq!(adsb_decoder::decimation_factor(1), 1);
    assert_eq!(adsb_decoder::decimation_factor(0), 1);
}

#[test]
fn decimation_factor_non_power_of_two() {
    assert_eq!(adsb_decoder::decimation_factor(6_000_000), 3);
}

#[test]
fn decoder_starts_and_stops_at_2msps() {
    let mut decoder = AdsbDecoder::start(2_000_000);
    assert!(decoder.is_running());
    assert_eq!(decoder.sample_rate, 2_000_000);
    decoder.stop();
    assert!(!decoder.is_running());
}

#[test]
fn decoder_can_restart_via_sender_resubscribe() {
    let mut decoder1 = AdsbDecoder::start(2_000_000);
    assert!(decoder1.is_running());
    decoder1.stop();
    assert!(!decoder1.is_running());
    let mut decoder2 = AdsbDecoder::start(2_000_000);
    assert!(decoder2.is_running(), "decoder should restart after re-subscribing from sender");
    decoder2.stop();
}

#[test]
fn adsb_decoder_decoder_records_sample_rate() {
    let mut decoder = AdsbDecoder::start(8_000_000);
    assert_eq!(decoder.sample_rate, 8_000_000);
    decoder.stop();
}

#[test]
fn frames_decoded_starts_at_zero() {
    let mut decoder = AdsbDecoder::start(2_000_000);
    assert_eq!(decoder.frames_decoded(), 0);
    decoder.stop();
}

#[test]
fn low_rates_are_reported() {
    assert!(adsb_decoder::rate_is_low(1_999_999));
    assert!(!adsb_decoder::rate_is_low(2_000_000));
}

#[test]
fn frames_and_preambles_are_counted() {
    let mut d = AdsbDecoder::start(2_000_000);
    d.count_frames(&vec![true, false, true, false]);
    assert_eq!(d.preambles_detected(), 4);
    assert_eq!(d.frames_decoded(), 2);
    d.count_frames(&vec![]);
    assert_eq!(d.preambles_detected(), 4);
    d.frame_count = u64::MAX;
    d.count_frames(&vec![true]);
    assert_eq!(d.frames_decoded(), 0);
    assert_eq!(d.preambles_detected(), 5);
}

#[test]
fn old_aircraft_are_dropped_every_4096_batches() {
    let mut d = AdsbDecoder::start(2_000_000);
    let mut prunes = Vec::new();
    for i in 1..=8200u32 {
        if d.batch_done() {
            prunes.push(i);
        }
    }
    assert_eq!(prunes, vec![4096, 8192]);
    d.prune_counter = u32::MAX;
    assert!(d.batch_done());
    assert_eq!(d.prune_counter, 0);
}

// ── Sample stream ───────────────────────────────────────────────────────────

#[test]
fn every_nth_sample_is_kept() {
    let batch: Vec<IqSample<f32>> = (0..7)
        .map(|i| IqSample { re: i as f32, im: -(i as f32) })
        .collect();
    assert_eq!(stream::interleave(&batch, 3), vec![0.0, -0.0, 3.0, -3.0, 6.0, -6.0]);
    assert_eq!(stream::interleave(&batch, 1).len(), 14);
    assert_eq!(stream::interleave(&batch, 100), vec![0.0, -0.0]);
    assert_eq!(stream::interleave::<f32>(&[], 2), Vec::<f32>::new());
}

#[test]
fn stream_events_lead_to_steps() {
    assert_eq!(stream::next_step(true, StreamEvent::Batch, false), StreamStep::Decode);
    assert_eq!(stream::next_step(true, StreamEvent::Empty, true), StreamStep::Sleep(1));
    assert_eq!(stream::next_step(true, StreamEvent::Lagged(3), false), StreamStep::Continue);
    assert_eq!(stream::next_step(true, StreamEvent::Lagged(3), true), StreamStep::Reset);
    assert_eq!(stream::next_step(true, StreamEvent::Closed, true), StreamStep::Exit);
    assert_eq!(stream::next_step(false, StreamEvent::Batch, true), StreamStep::Exit);
}

// ── Satellites ──────────────────────────────────────────────────────────────

#[test]
fn decimation_at_48khz_is_one() {
    assert_eq!(orbcomm::decimation_factor(48_000), 1);
}

#[test]
fn decimation_at_200khz() {
    assert_eq!(orbcomm::decimation_factor(200_000), 4);
}

#[test]
fn decimation_at_2mhz() {
    assert_eq!(orbcomm::decimation_factor(2_000_000), 41);
}

#[test]
fn decimation_never_zero() {
    assert!(orbcomm::decimation_factor(1) >= 1);
    assert!(orbcomm::decimation_factor(100) >= 1);
}

#[test]
fn effective_sps_at_200khz_is_reasonable() {
    let sps = value(orbcomm::effective_sps(200_000));
    assert!(sps > 8.0 && sps < 14.0, "Expected sps ≈ 10, got {sps}");
}

#[test]
fn effective_sps_at_48khz_is_exactly_ten() {
    let sps = value(orbcomm::effective_sps(48_000));
    assert!((sps - 10.0).abs() < 0.01, "Expected sps = 10.0, got {sps}");
}

#[test]
fn effective_sps_is_that_of_single_precision() {
    for rate in [
        0u32, 1, 3, 47_999, 48_000, 48_001, 96_001, 200_000, 250_000, 1_024_000, 2_000_000,
        2_048_000, 7_999_993, 10_660_000, 16_777_217, 33_554_435, 123_456_789, 4_294_967_295,
    ] {
        let decim = orbcomm::decimation_factor(rate) as f32;
        let expected = (rate as f32 / decim) / 4800f32;
        assert_eq!(value(orbcomm::effective_sps(rate)), expected as f64, "at {rate}");
    }
}

#[test]
fn decoder_starts_and_is_running() {
    let mut decoder = OrbcommDecoder::start(200_000, 137_500_000);
    assert!(decoder.is_running());
    decoder.stop();
    assert!(!decoder.is_running());
}

#[test]
fn decoder_stops_cleanly() {
    let mut decoder = OrbcommDecoder::start(200_000, 137_500_000);
    decoder.stop();
    assert!(!decoder.is_running());
}

#[test]
fn orbcomm_decoder_decoder_records_sample_rate() {
    let mut decoder = OrbcommDecoder::start(250_000, 137_621_000);
    assert_eq!(decoder.sample_rate, 250_000);
    decoder.stop();
}

#[test]
fn decoder_frame_counts_start_at_zero() {
    let mut decoder = OrbcommDecoder::start(200_000, 137_500_000);
    assert_eq!(decoder.frames_decoded(), 0);
    assert_eq!(decoder.raw_frames(), 0);
    decoder.stop();
}

#[test]
fn decoder_can_restart_via_resubscribe() {
    let mut dec1 = OrbcommDecoder::start(200_000, 137_500_000);
    assert!(dec1.is_running());
    dec1.stop();
    let mut dec2 = OrbcommDecoder::start(200_000, 137_500_000);
    assert!(dec2.is_running(), "should restart via new subscriber");
    dec2.stop();
}

#[test]
fn parsed_frames_become_entries() {
    let mut d = OrbcommDecoder::start(200_000, 137_500_000);
    let good = OrbcommPacket { packet_type: PacketType::Ack, crc_ok: true };
    let bad = OrbcommPacket { packet_type: PacketType::Ack, crc_ok: false };
    assert_eq!(
        d.frame_received(Some(good), Some(7)),
        Some(OrbcommLogEntry { received_at: Some(7), packet: good, freq_hz: 137_500_000 })
    );
    assert!(d.frame_received(Some(bad), None).is_some());
    assert!(d.frame_received(None, Some(9)).is_none());
    assert_eq!(d.raw_frames(), 3);
    assert_eq!(d.frames_decoded(), 1);
}

#[test]
fn sat_name_known_ids() {
    assert_eq!(orbcomm::sat_name(1), Some("OG2-01"));
    assert_eq!(orbcomm::sat_name(17), Some("OG2-17"));
}

#[test]
fn sat_name_unknown_id_returns_none() {
    assert_eq!(orbcomm::sat_name(0), None);
    assert_eq!(orbcomm::sat_name(100), None);
}

#[test]
fn format_utc_epoch_zero() {
    assert_eq!(orbcomm::format_utc(0), "00:00:00 UTC");
}

#[test]
fn format_utc_known_time() {
    assert_eq!(orbcomm::format_utc(5025), "01:23:45 UTC");
}

#[test]
fn format_utc_wraps_at_24h() {
    assert_eq!(orbcomm::format_utc(86400), "00:00:00 UTC");
}

#[test]
fn format_utc_hms_epoch() {
    assert_eq!(orbcomm::format_utc_hms(0), "00:00:00");
}

#[test]
fn format_utc_hms_known() {
    assert_eq!(orbcomm::format_utc_hms(1_704_110_400), "12:00:00");
}

fn entry(packet_type: PacketType, crc_ok: bool, received_at: Option<u64>) -> OrbcommLogEntry {
    OrbcommLogEntry {
        received_at,
        packet: OrbcommPacket { packet_type, crc_ok },
        freq_hz: 137_500_000,
    }
}

#[test]
fn log_rows() {
    let known = PacketType::SatelliteTelemetry { sat_id: 4, utc_seconds: 5025, channel: 2 };
    let row = orbcomm::log_row(&entry(known, true, Some(3661)));
    assert_eq!(row.text, "01:01:01  OG2-04  ch2  01:23:45 UTC");
    assert_eq!(row.freq, "@ 137.500 MHz");
    assert_eq!(row.color, theme::rgb(theme::STATUS_OK));
    let odd = PacketType::SatelliteTelemetry { sat_id: 0xAB, utc_seconds: 0, channel: 11 };
    let row = orbcomm::log_row(&entry(odd, false, None));
    assert_eq!(row.text, "??:??:??  Sat#AB  ch11  00:00:00 UTC [bad FCS]");
    let row = orbcomm::log_row(&entry(PacketType::SubscriberMessage, true, Some(0)));
    assert_eq!(row.text, "00:00:00  subscriber msg (encrypted)");
    assert_eq!(row.color, theme::rgb(theme::TEXT_MUTED));
    let row = orbcomm::log_row(&entry(PacketType::Ack, true, Some(0)));
    assert_eq!(row.text, "00:00:00  ack");
    let row = orbcomm::log_row(&entry(PacketType::Unknown(0x1F), true, Some(0)));
    assert_eq!(row.text, "00:00:00  unknown type 0x001F");
    assert_eq!(row.color, theme::rgb(theme::TEXT_DISABLED));
}

#[test]
fn decoder_status_line() {
    let on = orbcomm::decoder_status(true, 12);
    assert_eq!(on.word, "Live");
    assert_eq!(on.frames, Some(String::from("12 frames")));
    let off = orbcomm::decoder_status(false, 12);
    assert_eq!(off.word, "Off");
    assert_eq!(off.frames, None);
}

#[test]
fn a_closed_stream_ends_the_decoders() {
    let mut d = AdsbDecoder::start(2_000_000);
    assert_eq!(d.take_event(StreamEvent::Batch), StreamStep::Decode);
    assert_eq!(d.take_event(StreamEvent::Lagged(1)), StreamStep::Continue);
    assert!(d.is_running());
    assert_eq!(d.take_event(StreamEvent::Closed), StreamStep::Exit);
    assert!(!d.is_running());
    let mut d = OrbcommDecoder::start(48_000, 137_500_000);
    assert_eq!(d.take_event(StreamEvent::Lagged(1)), StreamStep::Reset);
    assert!(d.is_running());
    assert_eq!(d.take_event(StreamEvent::Closed), StreamStep::Exit);
    assert!(!d.is_running());
}

#[test]
fn a_stopped_decoder_decodes_no_more() {
    let mut d = AdsbDecoder::start(2_000_000);
    d.count_frames(&vec![true]);
    d.stop();
    assert_eq!(d.take_event(StreamEvent::Batch), StreamStep::Exit);
    d.stop();
    assert!(!d.is_running());
    assert_eq!((d.frames_decoded(), d.sample_rate), (1, 2_000_000));
    let mut d = OrbcommDecoder::start(48_000, 137_500_000);
    d.stop();
    assert_eq!(d.take_event(StreamEvent::Batch), StreamStep::Exit);
}

#[test]
fn the_orbcomm_decoder_runs_on_the_downlink() {
    assert!(orbcomm::should_run(true, 137_500_000, 48_000));
    assert!(!orbcomm::should_run(false, 137_500_000, 48_000));
    assert!(!orbcomm::should_run(true, 137_500_001, 48_000));
    assert!(!orbcomm::should_run(true, 137_500_000, 0));
    assert!(!orbcomm::drops_oldest(255));
    assert!(orbcomm::drops_oldest(256));
}
