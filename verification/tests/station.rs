use stolas::api::{capture_entries, ApiResponse, CaptureEntry, InternalError};
use stolas::antenna::{antenna_step, wants_samples, AntennaAction, AntennaEvent, AntennaState};
use stolas::config::{
    default_start_options, PipelineOptions, ProcessingConfig, Profile, ReceiverConfig, ReceiverOptions,
    SensorConfig,
};
use stolas::geo::{CoordParts, DelayedFormattedGeoCoords};
use stolas::gps::{
    default_address, fix_from_tpv, poll_fix, watch_command, Error, FixPoll, GpsConfig, Tpv, TpvMode,
    Version, Watch,
};

fn tpv(lat: Option<f64>, lon: Option<f64>, alt: Option<f64>) -> Tpv<f64, i64> {
    Tpv {
        mode: TpvMode::Fix3d,
        time: 1_700_000_000,
        ept: None,
        lat,
        lon,
        alt_hae: alt,
        alt_msl: None,
        epx: None,
        epy: None,
        epv: None,
    }
}

#[test]
fn gps_default_address() {
    assert_eq!(default_address(), "localhost:2947");
    assert_eq!(GpsConfig::default().address, "localhost:2947");
}

#[test]
fn gps_watch_request() {
    let w = Watch::json_reports();
    assert!(w.enable && w.json);
    assert!(!w.nmea && !w.scaled && !w.timing && !w.split24 && !w.pps);
    assert_eq!(w.raw, 0);
    assert_eq!(Watch::default(), Watch { enable: false, json: false, ..w });
    assert_eq!(watch_command(br#"{"enable":true}"#), b"?WATCH={\"enable\":true}\n".to_vec());
}

#[test]
fn gps_fix_needs_all_coordinates() {
    let fix = fix_from_tpv(&tpv(Some(51.5), Some(-0.1), Some(35.0))).unwrap();
    assert_eq!((fix.latitude, fix.longitude, fix.alt, fix.time), (51.5, -0.1, 35.0, 1_700_000_000));
    assert!(fix_from_tpv(&tpv(Some(51.5), None, Some(35.0))).is_none());
    assert!(fix_from_tpv(&tpv(Some(51.5), Some(-0.1), None)).is_none());
}

#[test]
fn gps_poll_fix() {
    match poll_fix::<f64, i64>(&Err(Error { message: "device gone".to_string() })) {
        FixPoll::Failed(m) => assert_eq!(m, "gpsd error: device gone"),
        other => panic!("unexpected: {other:?}"),
    }
    assert!(matches!(poll_fix::<f64, i64>(&Ok(None)), FixPoll::Pending));
    assert!(matches!(poll_fix(&Ok(Some(tpv(None, None, None)))), FixPoll::Pending));
    assert!(matches!(poll_fix(&Ok(Some(tpv(Some(1.0), Some(2.0), Some(3.0))))), FixPoll::Ready(_)));
}

#[test]
fn gps_version_record() {
    let v = Version { release: "3.25".into(), rev: "3.25".into(), proto_major: 3, proto_minor: 15 };
    assert_eq!(v.clone().proto_minor, 15);
}

#[test]
fn capture_list_marks_the_active_capture() {
    let names = vec!["a.rec".to_string(), "b.rec".to_string()];
    let active = "b.rec".to_string();
    let entries = capture_entries(&names, Some(&active));
    assert_eq!(entries.len(), 2);
    assert_eq!(entries[0].file_name, "a.rec");
    assert!(!entries[0].active);
    assert!(entries[1].active);
    let entries = capture_entries(&names, None);
    assert!(entries.iter().all(|e: &CaptureEntry| !e.active));
}

#[test]
fn api_response_wraps_result() {
    let ok: ApiResponse<u32, InternalError> = Ok(5).into();
    assert!(matches!(ok.0, Ok(5)));
    let err: ApiResponse<u32, InternalError> =
        ApiResponse::from(Err(InternalError { message: "boom".into(), backtrace: None }));
    assert!(matches!(err.0, Err(InternalError { .. })));
}

#[test]
fn geo_coordinates_written_out() {
    let lat = CoordParts { sign: 1, degrees: 51, minutes: 30, seconds: 18 };
    let lon = CoordParts { sign: -1, degrees: 0, minutes: 5, seconds: 24 };
    assert_eq!(DelayedFormattedGeoCoords::new(lat, lon).to_string(), "51°30'18\"N 0°5'24\"W");
    let south = CoordParts { sign: -1, degrees: 179, minutes: 59, seconds: 9 };
    let east = CoordParts { sign: 0, degrees: 100, minutes: 0, seconds: 0 };
    assert_eq!(DelayedFormattedGeoCoords::new(south, east).to_string(), "179°59'9\"S 100°0'0\"E");
    let odd = CoordParts { sign: 1, degrees: -12, minutes: -1, seconds: 127 };
    assert_eq!(DelayedFormattedGeoCoords::new(odd, odd).to_string(), "-12°-1'127\"N -12°-1'127\"E");
}

#[test]
fn configuration_records() {
    let p = ProcessingConfig { window_size: 512, average_size: 50000 };
    let o = PipelineOptions { window_size: p.window_size, average_size: p.average_size };
    assert_eq!(o.window_size, 512);
    let r = ReceiverConfig { serial: Some("00000001".into()), bias_tee: false };
    assert_eq!(r.clone(), r);
    let s = SensorConfig { poll_interval: std::time::Duration::from_secs(5) };
    assert_eq!(s.poll_interval.as_secs(), 5);
}

#[test]
fn antenna_task_decisions() {
    let idle = AntennaState { running: false };
    let running = AntennaState { running: true };
    assert!(!wants_samples(idle));
    assert!(wants_samples(running));
    assert_eq!(antenna_step(idle, AntennaEvent::Start), (idle, AntennaAction::Configure));
    assert_eq!(antenna_step(idle, AntennaEvent::Started { ok: true }), (running, AntennaAction::RunPipeline));
    // a failed start keeps what ran before
    assert_eq!(antenna_step(running, AntennaEvent::Started { ok: false }), (running, AntennaAction::ReportFailure));
    assert_eq!(antenna_step(idle, AntennaEvent::Started { ok: false }), (idle, AntennaAction::ReportFailure));
    assert_eq!(antenna_step(running, AntennaEvent::Stop), (idle, AntennaAction::DropPipeline));
    assert_eq!(antenna_step(running, AntennaEvent::Samples), (running, AntennaAction::ProcessSamples));
    assert_eq!(antenna_step(idle, AntennaEvent::Samples), (idle, AntennaAction::Wait));
    assert_eq!(antenna_step(running, AntennaEvent::CommandsClosed), (running, AntennaAction::Exit));
}

#[test]
fn default_profile_selection() {
    let p = |f: u32, w: usize| Profile {
        center_frequency: f,
        sample_rate: 2_400_000,
        tuner_gain: 20.0f32.to_bits(),
        window_size: w,
        average_size: 100,
    };
    let profiles = vec![("a".to_string(), p(1, 256)), ("hi".to_string(), p(1_420_405_751, 512)), ("hi".to_string(), p(7, 8))];
    assert!(matches!(default_start_options(None, &profiles), Ok(None)));
    let (rx, pl) = default_start_options(Some(&"hi".to_string()), &profiles).unwrap().unwrap();
    assert_eq!(rx, ReceiverOptions { center_frequency: 1_420_405_751, sample_rate: 2_400_000, tuner_gain: 20.0f32.to_bits() });
    assert_eq!(pl, PipelineOptions { window_size: 512, average_size: 100 });
    let err = default_start_options(Some(&"missing".to_string()), &profiles).unwrap_err();
    assert_eq!(err.name, "missing");
}
