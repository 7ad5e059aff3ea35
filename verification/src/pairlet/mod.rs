//! Establishing and managing a shared symmetric key between two co-located
//! devices from correlated ambient measurements.
//!
//! Times are whole milliseconds since the Unix epoch; durations are
//! milliseconds. Quality scores and measurements are expressed in
//! thousandths: a score of 1000 stands for 1.0. A measurement byte b maps
//! to the measurement b*1000/255, the thousandths form of b/255.
pub mod context;
pub mod exchange;
pub mod keygen;
pub mod recovery;
pub mod rotation;
pub mod score;

pub use context::{ContextConfig, ContextManager, SharedContext};
pub use exchange::{ExchangeConfig, ExchangeStatus, KeyExchange};
pub use keygen::{DerivedKey, KeyGenConfig, KeyGenerator};
pub use recovery::{KeyRecovery, RecoveryConfig, RecoveryStatus};
pub use rotation::{KeyRecord, KeyRotation, KeyStatus, RotationConfig};

use crate::FskcError;
use crate::clock::now_millis;
use score::{pearson_milli, spec_correlation, wf_measurements};
use vstd::prelude::*;

verus! {

/// Quality metrics of one entropy source, in thousandths (the sample rate
/// is in whole Hz and the signal-to-noise ratio is unbounded).
#[derive(Debug, Clone, Copy, PartialEq, Eq, Structural)]
pub struct EntropyQuality {
    /// Shannon entropy estimate, in thousandths of 1.0.
    pub shannon_entropy: u32,
    /// Sample rate in Hz.
    pub sample_rate: u32,
    /// Signal-to-noise ratio estimate, in thousandths.
    pub signal_to_noise: u32,
    /// Temporal consistency score, in thousandths of 1.0.
    pub temporal_consistency: u32,
}

impl Default for EntropyQuality {
    /// All metrics zero.
    fn default() -> (r: Self)
        ensures
            r.shannon_entropy == 0,
            r.sample_rate == 0,
            r.signal_to_noise == 0,
            r.temporal_consistency == 0,
    {
        EntropyQuality { shannon_entropy: 0, sample_rate: 0, signal_to_noise: 0, temporal_consistency: 0 }
    }
}

/// Configuration for sensor sampling.
#[derive(Debug, Clone, Copy, PartialEq, Eq, Structural)]
pub struct SensorConfig {
    /// Desired sample rate in Hz.
    pub sample_rate: u32,
    /// Sample precision in bits.
    pub precision: u8,
    /// Minimum required entropy quality, in thousandths.
    pub min_quality: u32,
    /// Sample window duration in milliseconds.
    pub window: u64,
}

impl Default for SensorConfig {
    /// 100 Hz, 16-bit samples, 0.7 minimum quality, one-second windows.
    fn default() -> (r: Self)
        ensures
            r == (SensorConfig { sample_rate: 100, precision: 16, min_quality: 700, window: 1000 }),
    {
        SensorConfig { sample_rate: 100, precision: 16, min_quality: 700, window: 1000 }
    }
}

/// A physical sensor that can provide entropy. The library makes no
/// assumption about a sensor's sampling technique; any implementation of
/// this capability interface may supply measurement data.
pub trait Sensor {
    /// Check whether the sensor hardware is available.
    fn check_hardware(&self) -> bool;

    /// Start collecting sensor data.
    fn start(&mut self, config: &SensorConfig) -> Result<(), FskcError>;

    /// Stop collecting sensor data.
    fn stop(&mut self) -> Result<(), FskcError>;

    /// Current entropy quality metrics.
    fn quality(&self) -> Result<EntropyQuality, FskcError>;

    /// Fill the buffer with entropy from the sensor, keeping its length.
    fn fill_entropy(&mut self, buffer: &mut Vec<u8>) -> (r: Result<(), FskcError>)
        ensures
            final(buffer)@.len() == old(buffer)@.len(),
    ;

    /// A short description of the sensor.
    fn description(&self) -> String;
}

/// The mathematical content of a measurement window.
pub struct WindowModel {
    pub start_time: u64,
    pub duration: u64,
    pub measurements: Seq<u32>,
    pub quality: EntropyQuality,
}

/// A temporal window of sensor measurements.
#[derive(Debug)]
pub struct MeasurementWindow {
    /// Start time of the window, in milliseconds since the epoch.
    pub start_time: u64,
    /// Duration of the window, in milliseconds.
    pub duration: u64,
    /// Sensor measurements within the window, in thousandths.
    pub measurements: Vec<u32>,
    /// Quality metrics for the window.
    pub quality: EntropyQuality,
}

impl View for MeasurementWindow {
    type V = WindowModel;

    open spec fn view(&self) -> WindowModel {
        WindowModel {
            start_time: self.start_time,
            duration: self.duration,
            measurements: self.measurements@,
            quality: self.quality,
        }
    }
}

/// A window whose measurements the scoring arithmetic accepts.
pub open spec fn wf_window(w: WindowModel) -> bool {
    wf_measurements(w.measurements)
}

/// One sensor's contribution to a sampling cycle: the entropy bytes it
/// filled and the quality estimate it reported, if it reported one.
#[derive(Debug)]
pub struct CycleReading {
    /// The 32 entropy bytes the sensor filled.
    pub bytes: Vec<u8>,
    /// The quality the sensor reported, if its query succeeded.
    pub quality: Option<EntropyQuality>,
}

/// The mathematical content of a cycle reading.
pub struct ReadingModel {
    pub bytes: Seq<u8>,
    pub quality: Option<EntropyQuality>,
}

impl View for CycleReading {
    type V = ReadingModel;

    open spec fn view(&self) -> ReadingModel {
        ReadingModel { bytes: self.bytes@, quality: self.quality }
    }
}

/// The models of a vector of cycle readings.
pub open spec fn reading_views(v: Seq<CycleReading>) -> Seq<ReadingModel> {
    v.map(|i: int, r: CycleReading| r@)
}

/// A byte mapped to a measurement in thousandths of [0, 1].
pub open spec fn spec_byte_measurement(b: u8) -> u32 {
    ((b as int) * 1000 / 255) as u32
}

/// The measurements of one sampling cycle: each sensor's bytes mapped to
/// thousandths, concatenated in sensor order.
pub open spec fn spec_cycle_measurements(rs: Seq<ReadingModel>) -> Seq<u32>
    decreases rs.len(),
{
    if rs.len() == 0 {
        Seq::empty()
    } else {
        spec_cycle_measurements(rs.drop_last()) + rs.last().bytes.map(
            |i: int, b: u8| spec_byte_measurement(b),
        )
    }
}

/// Sums of the contributing sensors' quality metrics, and how many
/// sensors contributed one.
pub open spec fn spec_quality_totals(rs: Seq<ReadingModel>) -> (int, int, int, int)
    decreases rs.len(),
{
    if rs.len() == 0 {
        (0, 0, 0, 0)
    } else {
        let rest = spec_quality_totals(rs.drop_last());
        match rs.last().quality {
            Some(q) => (
                rest.0 + q.shannon_entropy,
                rest.1 + q.signal_to_noise,
                rest.2 + q.temporal_consistency,
                rest.3 + 1,
            ),
            None => rest,
        }
    }
}

/// The averaged quality of one cycle: truncated means of the
/// contributing sensors' metrics and the configured sample rate, or
/// all-zero metrics when no sensor reported quality.
pub open spec fn spec_cycle_quality(rs: Seq<ReadingModel>, sample_rate: u32) -> EntropyQuality {
    let t = spec_quality_totals(rs);
    if t.3 == 0 {
        EntropyQuality { shannon_entropy: 0, sample_rate: 0, signal_to_noise: 0, temporal_consistency: 0 }
    } else {
        EntropyQuality {
            shannon_entropy: (t.0 / t.3) as u32,
            sample_rate,
            signal_to_noise: (t.1 / t.3) as u32,
            temporal_consistency: (t.2 / t.3) as u32,
        }
    }
}

/// Whether a window is the assembled result of some sampling cycle over
/// the given number of sensors: there are readings, one 32-byte buffer
/// per sensor, and a clock reading that produce exactly this window.
pub open spec fn window_from_some_cycle(
    w: WindowModel,
    sensor_count: int,
    sample_rate: u32,
    window_size: u64,
) -> bool {
    exists|rs: Seq<ReadingModel>, t: u64|
        {
            &&& rs.len() == sensor_count
            &&& (forall|j: int| 0 <= j < rs.len() ==> (#[trigger] rs[j]).bytes.len() == 32)
            &&& w == #[trigger] spec_cycle_window(rs, sample_rate, window_size, t)
        }
}

/// The window one sampling cycle assembles from its readings.
pub open spec fn spec_cycle_window(
    rs: Seq<ReadingModel>,
    sample_rate: u32,
    window_size: u64,
    start_time: u64,
) -> WindowModel {
    WindowModel {
        start_time,
        duration: window_size,
        measurements: spec_cycle_measurements(rs),
        quality: spec_cycle_quality(rs, sample_rate),
    }
}

/// Assemble one cycle's window from the sensors' readings: the
/// measurements are the per-sensor concatenation of bytes scaled to
/// thousandths, the quality the truncated means of the contributing
/// sensors' metrics, the duration the configured window size.
pub fn assemble_window(
    readings: &Vec<CycleReading>,
    sample_rate: u32,
    window_size: u64,
    start_time: u64,
) -> (w: MeasurementWindow)
    requires
        readings@.len() <= 2048,
        forall|i: int| 0 <= i < readings@.len() ==> (#[trigger] readings@[i])@.bytes.len() == 32,
    ensures
        w@ == spec_cycle_window(reading_views(readings@), sample_rate, window_size, start_time),
        wf_window(w@),
        w@.measurements.len() == 32 * readings@.len(),
{
    let ghost views = reading_views(readings@);
    let mut measurements: Vec<u32> = Vec::new();
    let mut sum_entropy: u64 = 0;
    let mut sum_snr: u64 = 0;
    let mut sum_consistency: u64 = 0;
    let mut count: u64 = 0;
    let mut i: usize = 0;
    while i < readings.len()
        invariant
            i <= readings@.len() <= 2048,
            views == reading_views(readings@),
            forall|j: int|
                0 <= j < readings@.len() ==> (#[trigger] readings@[j])@.bytes.len() == 32,
            measurements@.len() == 32 * i,
            measurements@ == spec_cycle_measurements(views.take(i as int)),
            forall|j: int| 0 <= j < measurements@.len() ==> measurements@[j] <= 1000,
            (sum_entropy as int, sum_snr as int, sum_consistency as int, count as int)
                == spec_quality_totals(views.take(i as int)),
            count <= i,
            sum_entropy <= count * 0xFFFF_FFFF,
            sum_snr <= count * 0xFFFF_FFFF,
            sum_consistency <= count * 0xFFFF_FFFF,
        decreases readings@.len() - i,
    {
        let reading = &readings[i];
        let mut bi: usize = 0;
        let ghost mapped = views[i as int].bytes.map(|k: int, b: u8| spec_byte_measurement(b));
        while bi < reading.bytes.len()
            invariant
                reading@ == views[i as int],
                0 <= i < views.len(),
                reading.bytes@.len() == 32,
                bi <= 32,
                mapped == views[i as int].bytes.map(|k: int, b: u8| spec_byte_measurement(b)),
                measurements@.len() == 32 * i + bi,
                measurements@ == spec_cycle_measurements(views.take(i as int)) + mapped.take(
                    bi as int,
                ),
                forall|j: int| 0 <= j < measurements@.len() ==> measurements@[j] <= 1000,
            decreases reading.bytes@.len() - bi,
        {
            let m: u32 = (reading.bytes[bi] as u32) * 1000 / 255;
            proof {
                assert(m == spec_byte_measurement(reading.bytes@[bi as int]));
                assert((spec_cycle_measurements(views.take(i as int)) + mapped.take(bi as int)).push(
                    m,
                ) =~= spec_cycle_measurements(views.take(i as int)) + mapped.take(bi + 1));
            }
            measurements.push(m);
            bi = bi + 1;
        }
        proof {
            assert(mapped.take(32) =~= mapped);
            assert(views.take(i + 1).drop_last() =~= views.take(i as int));
            assert(views.take(i + 1).last() == views[i as int]);
        }
        match &reading.quality {
            Some(q) => {
                proof {
                    assert(count * 0xFFFF_FFFF + 0xFFFF_FFFF == (count + 1) * 0xFFFF_FFFF)
                        by (nonlinear_arith);
                    assert((count + 1) * 0xFFFF_FFFF <= 2049 * 0xFFFF_FFFF) by (nonlinear_arith)
                        requires count + 1 <= 2049;
                }
                sum_entropy = sum_entropy + q.shannon_entropy as u64;
                sum_snr = sum_snr + q.signal_to_noise as u64;
                sum_consistency = sum_consistency + q.temporal_consistency as u64;
                count = count + 1;
            },
            None => {},
        }
        i = i + 1;
    }
    proof {
        assert(views.take(views.len() as int) =~= views);
    }
    let quality: EntropyQuality = if count > 0 {
        proof {
            assert(sum_entropy / count <= 0xFFFF_FFFF) by (nonlinear_arith)
                requires count >= 1, sum_entropy <= count * 0xFFFF_FFFF;
            assert(sum_snr / count <= 0xFFFF_FFFF) by (nonlinear_arith)
                requires count >= 1, sum_snr <= count * 0xFFFF_FFFF;
            assert(sum_consistency / count <= 0xFFFF_FFFF) by (nonlinear_arith)
                requires count >= 1, sum_consistency <= count * 0xFFFF_FFFF;
        }
        EntropyQuality {
            shannon_entropy: (sum_entropy / count) as u32,
            sample_rate,
            signal_to_noise: (sum_snr / count) as u32,
            temporal_consistency: (sum_consistency / count) as u32,
        }
    } else {
        EntropyQuality { shannon_entropy: 0, sample_rate: 0, signal_to_noise: 0, temporal_consistency: 0 }
    };
    let w = MeasurementWindow { start_time, duration: window_size, measurements, quality };
    proof {
        assert(w@.measurements.len() == 32 * readings@.len());
    }
    w
}

impl Clone for MeasurementWindow {
    fn clone(&self) -> (r: Self)
        ensures
            r@ == self@,
    {
        MeasurementWindow {
            start_time: self.start_time,
            duration: self.duration,
            measurements: copy_u32_vec(&self.measurements),
            quality: self.quality,
        }
    }
}

/// Copy a vector of measurements.
pub fn copy_u32_vec(v: &Vec<u32>) -> (r: Vec<u32>)
    ensures
        r@ == v@,
{
    let mut out: Vec<u32> = Vec::new();
    let mut i: usize = 0;
    while i < v.len()
        invariant
            i <= v@.len(),
            out@ == v@.take(i as int),
        decreases v@.len() - i,
    {
        out.push(v[i]);
        proof {
            assert(out@ =~= v@.take(i + 1));
        }
        i = i + 1;
    }
    proof {
        assert(v@.take(v@.len() as int) =~= v@);
    }
    out
}

/// Copy a byte vector.
pub fn copy_u8_vec(v: &Vec<u8>) -> (r: Vec<u8>)
    ensures
        r@ == v@,
{
    let mut out: Vec<u8> = Vec::new();
    let mut i: usize = 0;
    while i < v.len()
        invariant
            i <= v@.len(),
            out@ == v@.take(i as int),
        decreases v@.len() - i,
    {
        out.push(v[i]);
        proof {
            assert(out@ =~= v@.take(i + 1));
        }
        i = i + 1;
    }
    proof {
        assert(v@.take(v@.len() as int) =~= v@);
    }
    out
}

/// Configuration for co-presence validation. Scores are in thousandths;
/// durations in milliseconds.
#[derive(Debug, Clone, Copy, PartialEq, Eq, Structural)]
pub struct CoPresenceConfig {
    /// Minimum correlation threshold, in thousandths.
    pub min_correlation: i64,
    /// Maximum time difference allowed, in milliseconds.
    pub max_time_diff: u64,
    /// Minimum required proximity, in thousandths.
    pub min_proximity: u64,
    /// Window size for measurements, in milliseconds.
    pub window_size: u64,
}

impl Default for CoPresenceConfig {
    /// Correlation at least 0.8, 100 ms clock skew, proximity at least
    /// 0.9, one-second windows.
    fn default() -> (r: Self)
        ensures
            r == (CoPresenceConfig {
                min_correlation: 800,
                max_time_diff: 100,
                min_proximity: 900,
                window_size: 1000,
            }),
    {
        CoPresenceConfig { min_correlation: 800, max_time_diff: 100, min_proximity: 900, window_size: 1000 }
    }
}

/// The temporal-synchronization score of two window start times, in
/// thousandths: 1000 minus the fraction of the allowed difference used,
/// and 0 when the difference exceeds it. The difference is directional:
/// a start of `t1` before `t2` counts as no difference, exactly as the
/// clamped subtraction of the two clock readings behaves.
pub open spec fn spec_sync_score(t1: u64, t2: u64, max_diff: u64) -> int {
    let diff = if t1 >= t2 {
        t1 - t2
    } else {
        0
    };
    if diff > max_diff {
        0
    } else {
        1000 - 1000 * diff / (max_diff as int)
    }
}

/// The proximity score of two signal-to-noise ratios, in thousandths:
/// 1000 minus the relative difference, and 0 when both ratios are zero.
pub open spec fn spec_proximity(snr1: u32, snr2: u32) -> int {
    let diff = if snr1 >= snr2 {
        snr1 - snr2
    } else {
        snr2 - snr1
    };
    let max_snr = if snr1 >= snr2 {
        snr1
    } else {
        snr2
    };
    if max_snr == 0 {
        0
    } else {
        let used = 1000 * diff / (max_snr as int);
        if used > 1000 {
            0
        } else {
            1000 - used
        }
    }
}

/// The proximity score is symmetric in its two arguments.
pub proof fn lemma_proximity_symmetric(snr1: u32, snr2: u32)
    ensures
        spec_proximity(snr1, snr2) == spec_proximity(snr2, snr1),
{
}

/// Manages physical co-presence validation: collects measurement
/// windows and scores pairs of windows.
pub struct CoPresenceValidator {
    config: CoPresenceConfig,
    measurement_windows: Vec<MeasurementWindow>,
}

impl CoPresenceValidator {
    /// The configuration invariant: a positive synchronization window.
    pub closed spec fn wf(&self) -> bool {
        self.config.max_time_diff >= 1
    }

    /// The windows collected so far, oldest first.
    pub closed spec fn windows(&self) -> Seq<WindowModel> {
        self.measurement_windows@.map(|i: int, w: MeasurementWindow| w@)
    }

    /// The configuration the validator was built with.
    pub closed spec fn spec_config(&self) -> CoPresenceConfig {
        self.config
    }

    /// Create a new validator. The configured synchronization window must
    /// be positive, since the synchronization score divides by it.
    pub fn new(config: CoPresenceConfig) -> (r: Self)
        requires
            config.max_time_diff >= 1,
        ensures
            r.wf(),
            r.spec_config() == config,
            r.windows() == Seq::<WindowModel>::empty(),
    {
        let r = CoPresenceValidator { config, measurement_windows: Vec::new() };
        proof {
            assert(r.windows() =~= Seq::<WindowModel>::empty());
        }
        r
    }

    /// Append a pre-built measurement window, as a test harness does.
    pub fn add_test_window(&mut self, window: MeasurementWindow)
        ensures
            final(self).wf() == old(self).wf(),
            final(self).spec_config() == old(self).spec_config(),
            final(self).windows() == old(self).windows().push(window@),
    {
        self.measurement_windows.push(window);
        proof {
            assert(self.windows() =~= old(self).windows().push(window@));
        }
    }

    /// Pearson correlation of the two windows' measurements, in
    /// thousandths, clamped to [-1000, 1000]; 0 when lengths differ or a
    /// variance is zero.
    pub fn calculate_correlation(&self, window1: &MeasurementWindow, window2: &MeasurementWindow) -> (r:
        i64)
        requires
            wf_window(window1@),
            wf_window(window2@),
        ensures
            r as int == spec_correlation(window1@.measurements, window2@.measurements),
            -1000 <= r <= 1000,
    {
        pearson_milli(&window1.measurements, &window2.measurements)
    }

    /// Temporal synchronization score of the two windows, in thousandths.
    /// Directional: only `window1` starting after `window2` counts as a
    /// difference.
    pub fn calculate_sync_score(&self, window1: &MeasurementWindow, window2: &MeasurementWindow) -> (r:
        u64)
        requires
            self.wf(),
        ensures
            r as int == spec_sync_score(window1@.start_time, window2@.start_time, self.spec_config().max_time_diff),
            r <= 1000,
    {
        let diff: u64 = if window1.start_time >= window2.start_time {
            window1.start_time - window2.start_time
        } else {
            0
        };
        let max_diff = self.config.max_time_diff;
        if diff > max_diff {
            0
        } else {
            let used: u64 = ((1000 * (diff as u128)) / (max_diff as u128)) as u64;
            proof {
                assert(1000 * (diff as int) <= 1000 * (max_diff as int)) by (nonlinear_arith)
                    requires (diff as int) <= (max_diff as int);
                assert(1000 * (diff as int) / (max_diff as int) <= 1000 * (max_diff as int) / (
                max_diff as int)) by (nonlinear_arith)
                    requires
                        1000 * (diff as int) <= 1000 * (max_diff as int),
                        (max_diff as int) >= 1,
                ;
                assert(1000 * (max_diff as int) / (max_diff as int) == 1000) by (nonlinear_arith)
                    requires (max_diff as int) >= 1;
                assert(1000 * (diff as int) / (max_diff as int) >= 0) by (nonlinear_arith)
                    requires (diff as int) >= 0, (max_diff as int) >= 1;
            }
            1000 - used
        }
    }

    /// Proximity score from the two windows' signal-to-noise ratios, in
    /// thousandths.
    pub fn calculate_proximity(&self, window1: &MeasurementWindow, window2: &MeasurementWindow) -> (r:
        u64)
        ensures
            r as int == spec_proximity(window1@.quality.signal_to_noise, window2@.quality.signal_to_noise),
            r <= 1000,
    {
        let snr1 = window1.quality.signal_to_noise;
        let snr2 = window2.quality.signal_to_noise;
        let diff: u32 = if snr1 >= snr2 {
            snr1 - snr2
        } else {
            snr2 - snr1
        };
        let max_snr: u32 = if snr1 >= snr2 {
            snr1
        } else {
            snr2
        };
        if max_snr == 0 {
            0
        } else {
            let used: u64 = ((1000 * (diff as u64)) / (max_snr as u64)) as u64;
            proof {
                assert(1000 * (diff as int) <= 1000 * (max_snr as int)) by (nonlinear_arith)
                    requires (diff as int) <= (max_snr as int);
                assert(1000 * (diff as int) / (max_snr as int) <= 1000 * (max_snr as int) / (
                max_snr as int)) by (nonlinear_arith)
                    requires
                        1000 * (diff as int) <= 1000 * (max_snr as int),
                        (max_snr as int) >= 1,
                ;
                assert(1000 * (max_snr as int) / (max_snr as int) == 1000) by (nonlinear_arith)
                    requires (max_snr as int) >= 1;
                assert(1000 * (diff as int) / (max_snr as int) >= 0) by (nonlinear_arith)
                    requires (diff as int) >= 0, (max_snr as int) >= 1;
            }
            if used > 1000 {
                0
            } else {
                1000 - used
            }
        }
    }

    /// The co-presence decision: correlation, synchronization and proximity
    /// all at or above their thresholds. The synchronization threshold is
    /// fixed at 0.9 and is not configurable.
    pub fn validate_copresence(&self, window1: &MeasurementWindow, window2: &MeasurementWindow) -> (r:
        bool)
        requires
            self.wf(),
            wf_window(window1@),
            wf_window(window2@),
        ensures
            r == {
                &&& spec_correlation(window1@.measurements, window2@.measurements)
                    >= self.spec_config().min_correlation
                &&& spec_sync_score(window1@.start_time, window2@.start_time, self.spec_config().max_time_diff)
                    >= 900
                &&& spec_proximity(window1@.quality.signal_to_noise, window2@.quality.signal_to_noise)
                    >= self.spec_config().min_proximity
            },
    {
        let correlation = self.calculate_correlation(window1, window2);
        let sync_score = self.calculate_sync_score(window1, window2);
        let proximity = self.calculate_proximity(window1, window2);
        correlation >= self.config.min_correlation && sync_score >= 900 && proximity
            >= self.config.min_proximity
    }

    /// Start every supplied sensor and run a fixed number of sampling
    /// cycles, appending one window per cycle: each is the assembled
    /// window of the sensors' readings for that cycle, stamped with the
    /// clock and the default sensor configuration's sample rate. Fails
    /// if any sensor fails to start or to fill its buffer. The cycles
    /// run back to back; a caller that wants them spaced in time drives
    /// `collect_cycle_window` itself, one cycle at a time.
    pub fn start_collection<S: Sensor>(&mut self, sensors: &mut Vec<S>) -> (r: Result<
        (),
        FskcError,
    >)
        requires
            old(sensors)@.len() <= 2048,
        ensures
            final(self).wf() == old(self).wf(),
            final(self).spec_config() == old(self).spec_config(),
            final(sensors)@.len() == old(sensors)@.len(),
            r is Ok ==> final(self).windows().len() == old(self).windows().len() + 3,
            final(self).windows().len() >= old(self).windows().len(),
            forall|k: int|
                old(self).windows().len() <= k < final(self).windows().len() ==> wf_window(
                    #[trigger] final(self).windows()[k],
                ),
            forall|k: int|
                old(self).windows().len() <= k < final(self).windows().len()
                    ==> window_from_some_cycle(
                    #[trigger] final(self).windows()[k],
                    old(sensors)@.len() as int,
                    100,
                    old(self).spec_config().window_size,
                ),
            forall|k: int|
                0 <= k < old(self).windows().len() ==> final(self).windows()[k] == old(
                    self,
                ).windows()[k],
    {
        let sensor_config = SensorConfig::default();
        let mut si: usize = 0;
        while si < sensors.len()
            invariant
                self == old(self),
                sensors@.len() == old(sensors)@.len(),
            decreases sensors@.len() - si,
        {
            let mut sensor = sensors.remove(si);
            let started = sensor.start(&sensor_config);
            sensors.insert(si, sensor);
            match started {
                Ok(()) => {},
                Err(e) => {
                    return Err(e);
                },
            }
            si = si + 1;
        }
        let mut cycle: usize = 0;
        while cycle < 3
            invariant
                cycle <= 3,
                sensor_config.sample_rate == 100,
                sensors@.len() == old(sensors)@.len() <= 2048,
                self.wf() == old(self).wf(),
                self.spec_config() == old(self).spec_config(),
                self.windows().len() == old(self).windows().len() + cycle,
                forall|k: int|
                    old(self).windows().len() <= k < self.windows().len() ==> wf_window(
                        #[trigger] self.windows()[k],
                    ),
                forall|k: int|
                    old(self).windows().len() <= k < self.windows().len()
                        ==> window_from_some_cycle(
                        #[trigger] self.windows()[k],
                        old(sensors)@.len() as int,
                        100,
                        old(self).spec_config().window_size,
                    ),
                forall|k: int|
                    0 <= k < old(self).windows().len() ==> self.windows()[k] == old(
                        self,
                    ).windows()[k],
            decreases 3 - cycle,
        {
            match self.collect_cycle_window(sensors, &sensor_config) {
                Ok(()) => {},
                Err(e) => {
                    return Err(e);
                },
            }
            cycle = cycle + 1;
        }
        Ok(())
    }

    /// Run one sampling cycle: read a 32-byte entropy buffer and a
    /// quality estimate from every sensor, and append the assembled
    /// window of those readings, stamped with the clock. Fails, leaving
    /// the windows unchanged, when a sensor fails to fill its buffer.
    pub fn collect_cycle_window<S: Sensor>(
        &mut self,
        sensors: &mut Vec<S>,
        sensor_config: &SensorConfig,
    ) -> (r: Result<(), FskcError>)
        requires
            old(sensors)@.len() <= 2048,
        ensures
            final(self).wf() == old(self).wf(),
            final(self).spec_config() == old(self).spec_config(),
            final(sensors)@.len() == old(sensors)@.len(),
            r is Ok ==> final(self).windows().len() == old(self).windows().len() + 1,
            r is Err ==> final(self).windows() == old(self).windows(),
            forall|k: int|
                old(self).windows().len() <= k < final(self).windows().len() ==> wf_window(
                    #[trigger] final(self).windows()[k],
                ),
            r is Ok ==> final(self).windows().last() == final(self).windows()[old(
                self,
            ).windows().len() as int] && window_from_some_cycle(
                final(self).windows().last(),
                old(sensors)@.len() as int,
                sensor_config.sample_rate,
                old(self).spec_config().window_size,
            ),
            forall|k: int|
                0 <= k < old(self).windows().len() ==> final(self).windows()[k] == old(
                    self,
                ).windows()[k],
    {
        let mut readings: Vec<CycleReading> = Vec::new();
        let mut si: usize = 0;
        while si < sensors.len()
            invariant
                self == old(self),
                si <= sensors@.len(),
                sensors@.len() == old(sensors)@.len() <= 2048,
                readings@.len() == si,
                forall|j: int|
                    0 <= j < readings@.len() ==> (#[trigger] readings@[j])@.bytes.len() == 32,
            decreases sensors@.len() - si,
        {
            let mut buffer: Vec<u8> = vec![0u8; 32];
            let mut sensor = sensors.remove(si);
            let filled = sensor.fill_entropy(&mut buffer);
            let qual = sensor.quality();
            sensors.insert(si, sensor);
            match filled {
                Ok(()) => {},
                Err(e) => {
                    return Err(e);
                },
            }
            let quality: Option<EntropyQuality> = match qual {
                Ok(q) => Some(q),
                Err(_) => None,
            };
            readings.push(CycleReading { bytes: buffer, quality });
            si = si + 1;
        }
        let now = now_millis();
        let window = assemble_window(
            &readings,
            sensor_config.sample_rate,
            self.config.window_size,
            now,
        );
        let ghost rs_witness = reading_views(readings@);
        self.measurement_windows.push(window);
        proof {
            assert(self.windows() =~= old(self).windows().push(window@));
            assert(rs_witness.len() == old(sensors)@.len());
            assert(forall|j: int|
                0 <= j < rs_witness.len() ==> (#[trigger] rs_witness[j]).bytes.len() == 32);
            assert(window@ == spec_cycle_window(
                rs_witness,
                sensor_config.sample_rate,
                old(self).spec_config().window_size,
                now,
            ));
            assert(window_from_some_cycle(
                window@,
                old(sensors)@.len() as int,
                sensor_config.sample_rate,
                old(self).spec_config().window_size,
            ));
        }
        Ok(())
    }

    /// Stop every supplied sensor, propagating the first error.
    pub fn stop_collection<S: Sensor>(&mut self, sensors: &mut Vec<S>) -> (r: Result<
        (),
        FskcError,
    >)
        ensures
            *final(self) == *old(self),
            final(sensors)@.len() == old(sensors)@.len(),
    {
        let mut si: usize = 0;
        while si < sensors.len()
            invariant
                self == old(self),
                sensors@.len() == old(sensors)@.len(),
            decreases sensors@.len() - si,
        {
            let mut sensor = sensors.remove(si);
            let stopped = sensor.stop();
            sensors.insert(si, sensor);
            match stopped {
                Ok(()) => {},
                Err(e) => {
                    return Err(e);
                },
            }
            si = si + 1;
        }
        Ok(())
    }

    /// The most recently collected window, if any.
    pub fn get_current_window(&self) -> (r: Option<MeasurementWindow>)
        ensures
            self.windows().len() == 0 ==> r is None,
            self.windows().len() > 0 ==> r is Some && r->0@ == self.windows().last(),
    {
        if self.measurement_windows.len() == 0 {
            None
        } else {
            let w = &self.measurement_windows[self.measurement_windows.len() - 1];
            Some(w.clone())
        }
    }

    /// The `count` most recently collected windows, most recent first.
    pub fn recent_windows(&self, count: usize) -> (r: Vec<MeasurementWindow>)
        ensures
            r@.len() == if count <= self.windows().len() {
                count as int
            } else {
                self.windows().len() as int
            },
            forall|i: int|
                0 <= i < r@.len() ==> #[trigger] r@[i]@ == self.windows()[self.windows().len() - 1
                    - i],
    {
        let mut out: Vec<MeasurementWindow> = Vec::new();
        let total = self.measurement_windows.len();
        let take_n: usize = if count <= total {
            count
        } else {
            total
        };
        let mut i: usize = 0;
        while i < take_n
            invariant
                take_n <= total == self.measurement_windows@.len(),
                i <= take_n,
                out@.len() == i,
                forall|j: int|
                    0 <= j < i ==> #[trigger] out@[j]@ == self.windows()[self.windows().len() - 1
                        - j],
            decreases take_n - i,
        {
            let w = &self.measurement_windows[total - 1 - i];
            out.push(w.clone());
            i = i + 1;
        }
        out
    }
}

} // verus!
