//! The gpsd client: its configuration, the watch request it sends, and how a
//! position fix is taken from gpsd's reports.
//!
//! gpsd reports time-position-velocity (TPV) records. Their coordinates are
//! floating-point numbers; the records here are generic over the number type
//! `F` and the time type `T`, which the caller fixes.
use vstd::prelude::*;

verus! {

/// `localhost:2947`, where gpsd listens by default.
pub open spec fn default_gpsd_address() -> Seq<char> {
    seq!['l', 'o', 'c', 'a', 'l', 'h', 'o', 's', 't', ':', '2', '9', '4', '7']
}

/// Where gpsd is found.
#[derive(Clone, Debug)]
pub struct GpsConfig {
    pub address: String,
}

/// The address used where the configuration names none.
pub fn default_address() -> (r: String)
    ensures
        r@ == default_gpsd_address(),
{
    let r = "localhost:2947".to_owned();
    proof {
        reveal_strlit("localhost:2947");
    }
    r
}

impl Default for GpsConfig {
    /// The default gpsd address.
    fn default() -> (r: Self)
        ensures
            r.address@ == default_gpsd_address(),
    {
        GpsConfig { address: default_address() }
    }
}

/// gpsd's `VERSION` report.
#[derive(Clone, Debug)]
pub struct Version {
    pub release: String,
    pub rev: String,
    pub proto_major: u32,
    pub proto_minor: u32,
}

/// gpsd's `WATCH` request and report: which reports a client wants.
#[derive(Clone, Copy, Debug, PartialEq, Eq)]
pub struct Watch {
    pub enable: bool,
    pub json: bool,
    pub nmea: bool,
    pub raw: u8,
    pub scaled: bool,
    pub timing: bool,
    pub split24: bool,
    pub pps: bool,
}

/// Everything off.
pub open spec fn watch_off() -> Watch {
    Watch {
        enable: false,
        json: false,
        nmea: false,
        raw: 0,
        scaled: false,
        timing: false,
        split24: false,
        pps: false,
    }
}

impl Default for Watch {
    /// Everything off.
    fn default() -> (r: Self)
        ensures
            r == watch_off(),
    {
        Watch {
            enable: false,
            json: false,
            nmea: false,
            raw: 0,
            scaled: false,
            timing: false,
            split24: false,
            pps: false,
        }
    }
}

impl Watch {
    /// The request the client sends on connecting: watching enabled, reports
    /// as JSON, everything else off.
    pub fn json_reports() -> (r: Watch)
        ensures
            r == (Watch { enable: true, json: true, ..watch_off() }),
    {
        Watch { enable: true, json: true, ..Watch::default() }
    }
}

/// `?WATCH=`, the command that carries a watch request.
pub open spec fn watch_command_prefix() -> Seq<u8> {
    seq![0x3fu8, 0x57u8, 0x41u8, 0x54u8, 0x43u8, 0x48u8, 0x3du8]
}

/// The line that sends the watch request `watch_json` (its JSON text):
/// `?WATCH=`, the JSON, and a newline.
pub fn watch_command(watch_json: &[u8]) -> (r: Vec<u8>)
    ensures
        r@ == watch_command_prefix() + watch_json@ + seq![0x0au8],
{
    let mut out: Vec<u8> = Vec::new();
    out.push(0x3f);
    out.push(0x57);
    out.push(0x41);
    out.push(0x54);
    out.push(0x43);
    out.push(0x48);
    out.push(0x3d);
    out.extend_from_slice(watch_json);
    out.push(0x0a);
    assert(out@ =~= watch_command_prefix() + watch_json@ + seq![0x0au8]);
    out
}

/// The fix mode of a TPV report.
#[derive(Clone, Copy, Debug, PartialEq, Eq)]
pub enum TpvMode {
    Unknown,
    NoFix,
    Fix2d,
    Fix3d,
}

/// gpsd's time-position-velocity report.
#[derive(Clone, Copy, Debug)]
pub struct Tpv<F, T> {
    pub mode: TpvMode,
    pub time: T,
    /// Estimated time stamp error in seconds.
    pub ept: Option<F>,
    /// Latitude in degrees: +/- signifies North/South.
    pub lat: Option<F>,
    /// Longitude in degrees: +/- signifies East/West.
    pub lon: Option<F>,
    /// Altitude, height above ellipsoid, in meters.
    pub alt_hae: Option<F>,
    /// MSL altitude in meters.
    pub alt_msl: Option<F>,
    /// Longitude error estimate in meters.
    pub epx: Option<F>,
    /// Latitude error estimate in meters.
    pub epy: Option<F>,
    /// Estimated vertical error in meters.
    pub epv: Option<F>,
}

/// gpsd's `ERROR` report.
#[derive(Clone, Debug)]
pub struct Error {
    pub message: String,
}

/// A position fix.
#[derive(Clone, Copy, Debug)]
pub struct Fix<F, T> {
    pub time: T,
    /// Latitude in degrees: +/- signifies North/South.
    pub latitude: F,
    /// Longitude in degrees: +/- signifies East/West.
    pub longitude: F,
    /// Altitude, height above ellipsoid, in meters.
    pub alt: F,
}

/// The fix a TPV report gives: present where it holds latitude, longitude
/// and altitude above the ellipsoid.
pub open spec fn tpv_fix<F, T>(tpv: Tpv<F, T>) -> Option<Fix<F, T>> {
    match (tpv.lat, tpv.lon, tpv.alt_hae) {
        (Some(latitude), Some(longitude), Some(alt)) => Some(
            Fix { time: tpv.time, latitude, longitude, alt },
        ),
        _ => None,
    }
}

/// The fix a TPV report gives, where it holds all of latitude, longitude and
/// altitude above the ellipsoid.
pub fn fix_from_tpv<F: Copy, T: Copy>(tpv: &Tpv<F, T>) -> (r: Option<Fix<F, T>>)
    ensures
        r == tpv_fix(*tpv),
{
    match (tpv.lat, tpv.lon, tpv.alt_hae) {
        (Some(latitude), Some(longitude), Some(alt)) => Some(
            Fix { time: tpv.time, latitude, longitude, alt },
        ),
        _ => None,
    }
}

/// What the latest report of gpsd means to a client waiting for a fix.
#[derive(Clone, Debug)]
pub enum FixPoll<F, T> {
    /// gpsd reported an error; this is the message to fail with.
    Failed(String),
    /// No usable fix yet; wait for the next report.
    Pending,
    /// A fix.
    Ready(Fix<F, T>),
}

/// `gpsd error: `, the start of the message for an error that gpsd reports.
pub open spec fn gpsd_error_prefix() -> Seq<char> {
    seq!['g', 'p', 's', 'd', ' ', 'e', 'r', 'r', 'o', 'r', ':', ' ']
}

/// Decides on the latest report: an error from gpsd fails, a report with a
/// full position is the fix, anything else (no report yet, a report without
/// position) means waiting for the next one.
pub fn poll_fix<F: Copy, T: Copy>(latest: &Result<Option<Tpv<F, T>>, Error>) -> (r: FixPoll<F, T>)
    ensures
        match latest {
            Err(e) => r matches FixPoll::Failed(m) && m@ == gpsd_error_prefix() + e.message@,
            Ok(None) => r matches FixPoll::Pending,
            Ok(Some(tpv)) => match tpv_fix(*tpv) {
                Some(fix) => r matches FixPoll::Ready(f) && f == fix,
                None => r matches FixPoll::Pending,
            },
        },
{
    match latest {
        Err(e) => {
            let mut m = "gpsd error: ".to_owned();
            m.append(e.message.as_str());
            proof {
                reveal_strlit("gpsd error: ");
            }
            FixPoll::Failed(m)
        },
        Ok(None) => FixPoll::Pending,
        Ok(Some(tpv)) => match fix_from_tpv(tpv) {
            Some(fix) => FixPoll::Ready(fix),
            None => FixPoll::Pending,
        },
    }
}

/// A fix is taken exactly from a report that holds latitude, longitude and
/// height above the ellipsoid, and it carries those values and the report's
/// time unchanged.
pub proof fn lemma_fix_from_report<F, T>(tpv: Tpv<F, T>)
    ensures
        tpv_fix(tpv) is Some <==> (tpv.lat is Some && tpv.lon is Some && tpv.alt_hae is Some),
        tpv_fix(tpv) matches Some(f) ==> (f.time == tpv.time && tpv.lat == Some(f.latitude)
            && tpv.lon == Some(f.longitude) && tpv.alt_hae == Some(f.alt)),
{
}

} // verus!
