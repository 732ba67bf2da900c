//! Configuration records of the station and the telescope.
use std::time::Duration;

use vstd::prelude::*;

verus! {

/// How samples are turned into frames.
#[derive(Clone, Copy, Debug, PartialEq, Eq)]
pub struct ProcessingConfig {
    /// Samples per FFT window, and so bins per frame.
    pub window_size: usize,
    /// Spectra averaged into one frame.
    pub average_size: usize,
}

/// The processing options the antenna is started with.
#[derive(Clone, Copy, Debug, PartialEq, Eq)]
pub struct PipelineOptions {
    pub window_size: usize,
    pub average_size: usize,
}

/// Which SDR receiver to open.
#[derive(Clone, Debug, PartialEq, Eq)]
pub struct ReceiverConfig {
    /// Serial of the RTL-SDR to open; the first one found where this is `None`.
    pub serial: Option<String>,
    pub bias_tee: bool,
}

/// How often the auxiliary sensors are polled.
#[derive(Clone, Copy, Debug, PartialEq, Eq)]
pub struct SensorConfig {
    pub poll_interval: Duration,
}

/// A named set of receiver and processing settings.
#[derive(Clone, Copy, Debug, PartialEq, Eq)]
pub struct Profile {
    pub center_frequency: u32,
    pub sample_rate: u32,
    /// Tuner gain in dB, as the bit pattern of an `f32`.
    pub tuner_gain: u32,
    pub window_size: usize,
    pub average_size: usize,
}

/// The receiver settings the antenna is started with.
#[derive(Clone, Copy, Debug, PartialEq, Eq)]
pub struct ReceiverOptions {
    pub center_frequency: u32,
    pub sample_rate: u32,
    /// Tuner gain in dB, as the bit pattern of an `f32`.
    pub tuner_gain: u32,
}

/// A default profile that the configuration names but does not hold.
#[derive(Clone, Debug)]
pub struct ProfileNotFound {
    pub name: String,
}

/// The options that a profile starts the antenna with.
pub open spec fn profile_options(p: Profile) -> (ReceiverOptions, PipelineOptions) {
    (
        ReceiverOptions {
            center_frequency: p.center_frequency,
            sample_rate: p.sample_rate,
            tuner_gain: p.tuner_gain,
        },
        PipelineOptions { window_size: p.window_size, average_size: p.average_size },
    )
}

/// The index of the first profile named `name`, if any.
pub open spec fn first_profile_named(profiles: Seq<(String, Profile)>, name: Seq<char>) -> Option<
    int,
> {
    if exists|i: int| 0 <= i < profiles.len() && #[trigger] profiles[i].0@ == name {
        Some(
            choose|i: int|
                0 <= i < profiles.len() && #[trigger] profiles[i].0@ == name && forall|j: int|
                    0 <= j < i ==> profiles[j].0@ != name,
        )
    } else {
        None
    }
}

/// What the station starts the antenna with: nothing where no default
/// profile is configured, the options of the profile of that name where it
/// is one of `profiles` (the first one of that name), and an error naming it
/// where it is not.
pub fn default_start_options(default_profile: Option<&String>, profiles: &Vec<(String, Profile)>) -> (r: Result<
    Option<(ReceiverOptions, PipelineOptions)>,
    ProfileNotFound,
>)
    ensures
        match default_profile {
            None => r matches Ok(None),
            Some(name) => match first_profile_named(profiles@, name@) {
                Some(i) => r matches Ok(Some(o)) && o == profile_options(profiles@[i].1),
                None => r matches Err(e) && e.name@ == name@,
            },
        },
{
    if default_profile.is_none() {
        return Ok(None);
    }
    let name = default_profile.unwrap();
    let mut i: usize = 0;
    while i < profiles.len()
        invariant
            i <= profiles@.len(),
            default_profile == Some(name),
            forall|j: int| 0 <= j < i ==> profiles@[j].0@ != name@,
        decreases profiles@.len() - i,
    {
        if profiles[i].0.eq(name) {
            let p = profiles[i].1;
            proof {
                let ps = profiles@;
                assert(ps[i as int].0@ == name@);
                assert(forall|j: int| 0 <= j < i ==> ps[j].0@ != name@);
                assert(exists|k: int|
                    0 <= k < ps.len() && #[trigger] ps[k].0@ == name@ && forall|j: int|
                        0 <= j < k ==> ps[j].0@ != name@);
                let k = choose|k: int|
                    0 <= k < ps.len() && #[trigger] ps[k].0@ == name@ && forall|j: int|
                        0 <= j < k ==> ps[j].0@ != name@;
                if k < i {
                    assert(ps[k].0@ != name@);
                } else if k > i {
                    assert(ps[i as int].0@ != name@);
                }
                assert(first_profile_named(ps, name@) == Some(i as int));
            }
            return Ok(
                Some(
                    (
                        ReceiverOptions {
                            center_frequency: p.center_frequency,
                            sample_rate: p.sample_rate,
                            tuner_gain: p.tuner_gain,
                        },
                        PipelineOptions { window_size: p.window_size, average_size: p.average_size },
                    ),
                ),
            );
        }
        i = i + 1;
    }
    Err(ProfileNotFound { name: name.clone() })
}

} // verus!
