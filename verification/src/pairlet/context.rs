//! Shared-context establishment between two devices.
use super::score::spec_correlation;
use super::{
    spec_proximity, spec_sync_score, CoPresenceConfig, CoPresenceValidator, MeasurementWindow,
    WindowModel,
};
use crate::clock::now_millis;
use crate::FskcError;
use vstd::prelude::*;

verus! {

/// The mathematical content of a shared context.
pub struct ContextModel {
    pub time_window: u64,
    pub measurements: Seq<WindowModel>,
    pub quality: u64,
    pub established_at: u64,
}

/// Shared environmental context between devices, the agreed basis for key
/// derivation. Immutable once created.
#[derive(Debug)]
pub struct SharedContext {
    /// The number of valid measurement pairs, expressed in milliseconds
    /// (1000 per pair) — a deliberate quirk of the design, not an
    /// elapsed time span.
    pub time_window: u64,
    /// The device's own measurement windows behind the context.
    pub measurements: Vec<MeasurementWindow>,
    /// Context quality score, in thousandths of 1.0.
    pub quality: u64,
    /// When the context was established, in milliseconds since the epoch.
    pub established_at: u64,
}

impl View for SharedContext {
    type V = ContextModel;

    open spec fn view(&self) -> ContextModel {
        ContextModel {
            time_window: self.time_window,
            measurements: self.measurements@.map(|i: int, w: MeasurementWindow| w@),
            quality: self.quality,
            established_at: self.established_at,
        }
    }
}

impl Clone for SharedContext {
    fn clone(&self) -> (r: Self)
        ensures
            r@ == self@,
    {
        let mut ms: Vec<MeasurementWindow> = Vec::new();
        let mut i: usize = 0;
        while i < self.measurements.len()
            invariant
                i <= self.measurements@.len(),
                ms@.len() == i,
                forall|j: int| 0 <= j < i ==> #[trigger] ms@[j]@ == self.measurements@[j]@,
            decreases self.measurements@.len() - i,
        {
            let w = &self.measurements[i];
            ms.push(w.clone());
            i = i + 1;
        }
        let r = SharedContext {
            time_window: self.time_window,
            measurements: ms,
            quality: self.quality,
            established_at: self.established_at,
        };
        proof {
            assert(r@.measurements =~= self@.measurements);
        }
        r
    }
}

/// Configuration for context establishment.
#[derive(Debug, Clone, Copy, PartialEq, Eq, Structural)]
pub struct ContextConfig {
    /// Minimum required context quality, in thousandths.
    pub min_quality: u64,
    /// Number of measurement windows required.
    pub required_windows: usize,
    /// Maximum age of measurements, in milliseconds.
    pub max_age: u64,
}

impl Default for ContextConfig {
    /// Quality at least 0.8, three windows, one-minute maximum age.
    fn default() -> (r: Self)
        ensures
            r == (ContextConfig { min_quality: 800, required_windows: 3, max_age: 60_000 }),
    {
        ContextConfig { min_quality: 800, required_windows: 3, max_age: 60_000 }
    }
}

/// The `n` most recent entries of `windows`, most recent first.
pub open spec fn recent_of(windows: Seq<WindowModel>, n: int) -> Seq<WindowModel> {
    Seq::new(n as nat, |i: int| windows[windows.len() - 1 - i])
}

/// The models of a vector of measurement windows.
pub open spec fn window_views(v: Seq<MeasurementWindow>) -> Seq<WindowModel> {
    v.map(|i: int, w: MeasurementWindow| w@)
}

/// Truncating division, the form the context arithmetic uses.
pub open spec fn tdiv(a: int, b: int) -> int {
    if a >= 0 {
        a / b
    } else {
        -((-a) / b)
    }
}

/// Running totals of correlation, synchronization and proximity scores,
/// and the surviving-pair count, over the first `k` window pairs; a pair
/// whose own window is older than `max_age` at time `now` is skipped.
pub open spec fn pair_totals(
    our: Seq<WindowModel>,
    other: Seq<WindowModel>,
    max_age: u64,
    max_diff: u64,
    now: u64,
    k: int,
) -> (int, int, int, int)
    decreases k,
{
    if k <= 0 {
        (0, 0, 0, 0)
    } else {
        let rest = pair_totals(our, other, max_age, max_diff, now, k - 1);
        let w = our[k - 1];
        let o = other[k - 1];
        if now >= w.start_time && now - w.start_time <= max_age {
            (
                rest.0 + spec_correlation(w.measurements, o.measurements),
                rest.1 + spec_sync_score(w.start_time, o.start_time, max_diff),
                rest.2 + spec_proximity(w.quality.signal_to_noise, o.quality.signal_to_noise),
                rest.3 + 1,
            )
        } else {
            rest
        }
    }
}

/// Whether some paired own window starts after `now`, which makes the age
/// computation fail.
pub open spec fn has_time_error(our: Seq<WindowModel>, now: u64, k: int) -> bool {
    exists|i: int| 0 <= i < k && now < #[trigger] our[i].start_time
}

/// The aggregate quality of the surviving pairs: the mean of the three
/// average scores, in thousandths, with truncating division throughout.
pub open spec fn spec_pair_quality(totals: (int, int, int, int)) -> int {
    tdiv(tdiv(totals.0, totals.3) + tdiv(totals.1, totals.3) + tdiv(totals.2, totals.3), 3)
}

/// What `establish_context` does, given the windows the validator held,
/// the peer windows, the two configurations, the stored contexts before
/// and after the call, the returned value, and the time the clock read.
pub open spec fn establish_post(
    windows: Seq<WindowModel>,
    other: Seq<WindowModel>,
    cp: CoPresenceConfig,
    cfg: ContextConfig,
    contexts_before: Seq<ContextModel>,
    contexts_after: Seq<ContextModel>,
    r: Result<Option<SharedContext>, FskcError>,
    now: u64,
) -> bool {
    if windows.len() < cfg.required_windows {
        &&& r matches Ok(None)
        &&& contexts_after == contexts_before
    } else {
        let our = recent_of(windows, cfg.required_windows as int);
        let zipn = if cfg.required_windows <= other.len() {
            cfg.required_windows as int
        } else {
            other.len() as int
        };
        if has_time_error(our, now, zipn) {
            &&& r is Err
            &&& contexts_after == contexts_before
        } else {
            let totals = pair_totals(our, other, cfg.max_age, cp.max_time_diff, now, zipn);
            if totals.3 == 0 {
                &&& r matches Ok(None)
                &&& contexts_after == contexts_before
            } else {
                let quality = spec_pair_quality(totals);
                if quality >= cfg.min_quality {
                    &&& r matches Ok(Some(c)) ==> {
                        &&& c@.time_window == totals.3 * 1000
                        &&& c@.measurements == our
                        &&& c@.quality == quality
                        &&& c@.established_at == now
                        &&& contexts_after == contexts_before.push(c@)
                    }
                    &&& r matches Ok(Some(_))
                } else {
                    &&& r matches Ok(None)
                    &&& contexts_after == contexts_before
                }
            }
        }
    }
}

/// `establish_post` at some clock reading: what `establish_context`
/// guarantees, since the clock's value is outside the library's control.
pub open spec fn establish_post_some_time(
    windows: Seq<WindowModel>,
    other: Seq<WindowModel>,
    cp: CoPresenceConfig,
    cfg: ContextConfig,
    contexts_before: Seq<ContextModel>,
    contexts_after: Seq<ContextModel>,
    r: Result<Option<SharedContext>, FskcError>,
) -> bool {
    exists|now: u64|
        #[trigger] establish_post(windows, other, cp, cfg, contexts_before, contexts_after, r, now)
}

/// Whether a context is still valid at time `now`: young enough and of
/// sufficient quality. A clock reading before the establishment time
/// counts as an age of exactly `max_age`, which passes the age check.
pub open spec fn spec_context_valid(c: ContextModel, cfg: ContextConfig, now: u64) -> bool {
    let age = if now >= c.established_at {
        (now - c.established_at) as int
    } else {
        cfg.max_age as int
    };
    &&& age <= cfg.max_age
    &&& c.quality >= cfg.min_quality
}

/// Manages shared-context establishment between devices.
pub struct ContextManager {
    config: ContextConfig,
    validator: CoPresenceValidator,
    contexts: Vec<SharedContext>,
}

impl ContextManager {
    /// The stored contexts, oldest first.
    pub closed spec fn contexts(&self) -> Seq<ContextModel> {
        self.contexts@.map(|i: int, c: SharedContext| c@)
    }

    /// The configuration the manager was built with.
    pub closed spec fn spec_config(&self) -> ContextConfig {
        self.config
    }

    /// The validator the manager owns.
    pub closed spec fn spec_validator(&self) -> CoPresenceValidator {
        self.validator
    }

    /// Create a new context manager around a validator.
    pub fn new(config: ContextConfig, validator: CoPresenceValidator) -> (r: Self)
        ensures
            r.spec_config() == config,
            r.spec_validator() == validator,
            r.contexts() == Seq::<ContextModel>::empty(),
    {
        let r = ContextManager { config, validator, contexts: Vec::new() };
        proof {
            assert(r.contexts() =~= Seq::<ContextModel>::empty());
        }
        r
    }

    /// Attempt to establish a shared context, judging measurement ages
    /// at the time the clock reads now.
    pub fn establish_context(&mut self, other_windows: &Vec<MeasurementWindow>) -> (r: Result<
        Option<SharedContext>,
        FskcError,
    >)
        requires
            old(self).spec_validator().wf(),
            forall|i: int|
                0 <= i < old(self).spec_validator().windows().len() ==> super::wf_window(
                    #[trigger] old(self).spec_validator().windows()[i],
                ),
            forall|i: int|
                0 <= i < other_windows@.len() ==> super::wf_window(#[trigger] other_windows@[i]@),
            old(self).spec_config().required_windows <= 65536,
        ensures
            final(self).spec_config() == old(self).spec_config(),
            final(self).spec_validator() == old(self).spec_validator(),
            establish_post_some_time(
                old(self).spec_validator().windows(),
                window_views(other_windows@),
                old(self).spec_validator().spec_config(),
                old(self).spec_config(),
                old(self).contexts(),
                final(self).contexts(),
                r,
            ),
            r matches Ok(Some(c)) ==> c@.quality >= old(self).spec_config().min_quality,
    {
        let now = now_millis();
        let r = self.establish_context_at(other_windows, now);
        proof {
            assert(establish_post_some_time(
                old(self).spec_validator().windows(),
                window_views(other_windows@),
                old(self).spec_validator().spec_config(),
                old(self).spec_config(),
                old(self).contexts(),
                self.contexts(),
                r,
            )) by {
                assert(establish_post(
                    old(self).spec_validator().windows(),
                    window_views(other_windows@),
                    old(self).spec_validator().spec_config(),
                    old(self).spec_config(),
                    old(self).contexts(),
                    self.contexts(),
                    r,
                    now,
                ));
            };
        }
        r
    }

    /// Attempt to establish a shared context from the validator's own
    /// recent windows and the peer's windows, paired by index, judging
    /// measurement ages against the supplied clock reading. Peer windows
    /// beyond the required number are ignored. Returns the new context
    /// when the aggregate quality reaches the threshold, `None` when it
    /// falls short, when fewer own windows are available than required,
    /// or when no pair survives the age check, and an error when the
    /// clock reading lies before a paired window's start.
    pub fn establish_context_at(
        &mut self,
        other_windows: &Vec<MeasurementWindow>,
        now: u64,
    ) -> (r: Result<Option<SharedContext>, FskcError>)
        requires
            old(self).spec_validator().wf(),
            forall|i: int|
                0 <= i < old(self).spec_validator().windows().len() ==> super::wf_window(
                    #[trigger] old(self).spec_validator().windows()[i],
                ),
            forall|i: int|
                0 <= i < other_windows@.len() ==> super::wf_window(#[trigger] other_windows@[i]@),
            old(self).spec_config().required_windows <= 65536,
        ensures
            final(self).spec_config() == old(self).spec_config(),
            final(self).spec_validator() == old(self).spec_validator(),
            establish_post(
                old(self).spec_validator().windows(),
                window_views(other_windows@),
                old(self).spec_validator().spec_config(),
                old(self).spec_config(),
                old(self).contexts(),
                final(self).contexts(),
                r,
                now,
            ),
            r matches Ok(Some(c)) ==> c@.quality >= old(self).spec_config().min_quality,
    {
        let ghost other_seq = window_views(other_windows@);
        let required = self.config.required_windows;
        let our = self.validator.recent_windows(required);
        if our.len() < required {
            proof {
                assert(establish_post(
                    self.spec_validator().windows(),
                    other_seq,
                    self.spec_validator().spec_config(),
                    self.spec_config(),
                    old(self).contexts(),
                    self.contexts(),
                    Ok(None),
                    now,
                ));
            }
            return Ok(None);
        }
        let ghost our_seq = recent_of(old(self).spec_validator().windows(), required as int);
        proof {
            assert(our_seq =~= our@.map(|i: int, w: MeasurementWindow| w@));
        }
        let zipn: usize = if required <= other_windows.len() {
            required
        } else {
            other_windows.len()
        };
        let mut total_correlation: i128 = 0;
        let mut total_sync: i128 = 0;
        let mut total_proximity: i128 = 0;
        let mut count: u64 = 0;
        let max_age = self.config.max_age;
        let ghost max_diff = self.spec_validator().spec_config().max_time_diff;
        let mut i: usize = 0;
        while i < zipn
            invariant
                self == old(self),
                i <= zipn,
                zipn <= our@.len() == required,
                required == self.spec_config().required_windows,
                required <= 65536,
                old(self).spec_validator().windows().len() >= required,
                zipn <= other_windows@.len(),
                zipn as int == (if required <= other_windows@.len() {
                    required as int
                } else {
                    other_windows@.len() as int
                }),
                our_seq == recent_of(old(self).spec_validator().windows(), required as int),
                our_seq =~= our@.map(|j: int, w: MeasurementWindow| w@),
                other_seq == other_windows@.map(|j: int, w: MeasurementWindow| w@),
                forall|j: int| 0 <= j < our@.len() ==> super::wf_window(#[trigger] our@[j]@),
                forall|j: int|
                    0 <= j < other_windows@.len() ==> super::wf_window(
                        #[trigger] other_windows@[j]@,
                    ),
                self.spec_validator().wf(),
                max_age == self.spec_config().max_age,
                max_diff == self.spec_validator().spec_config().max_time_diff,
                !has_time_error(our_seq, now, i as int),
                (
                    total_correlation as int,
                    total_sync as int,
                    total_proximity as int,
                    count as int,
                ) == pair_totals(our_seq, other_seq, max_age, max_diff, now, i as int),
                count <= i,
                -(count as int) * 1000 <= total_correlation as int <= (count as int) * 1000,
                0 <= total_sync as int <= (count as int) * 1000,
                0 <= total_proximity as int <= (count as int) * 1000,
            decreases zipn - i,
        {
            let w = &our[i];
            let o = &other_windows[i];
            proof {
                assert(our_seq[i as int] == w@);
                assert(other_seq[i as int] == o@);
            }
            if now < w.start_time {
                let e = FskcError::Custom("clock reads before a measurement window".to_owned());
                proof {
                    assert(now < our_seq[i as int].start_time);
                    assert(has_time_error(our_seq, now, zipn as int));
                    assert(establish_post(
                        old(self).spec_validator().windows(),
                        window_views(other_windows@),
                        old(self).spec_validator().spec_config(),
                        old(self).spec_config(),
                        old(self).contexts(),
                        self.contexts(),
                        Err(e),
                        now,
                    ));
                    }
                return Err(e);
            }
            let age = now - w.start_time;
            if age <= max_age {
                let c = self.validator.calculate_correlation(w, o);
                let sy = self.validator.calculate_sync_score(w, o);
                let p = self.validator.calculate_proximity(w, o);
                proof {
                    assert((count as int) * 1000 + 1000 == (count as int + 1) * 1000)
                        by (nonlinear_arith);
                    assert((count as int + 1) * 1000 <= 65537 * 1000) by (nonlinear_arith)
                        requires (count as int) + 1 <= 65537;
                }
                total_correlation = total_correlation + c as i128;
                total_sync = total_sync + sy as i128;
                total_proximity = total_proximity + p as i128;
                count = count + 1;
            }
            i = i + 1;
        }
        let ghost totals = pair_totals(our_seq, other_seq, max_age, max_diff, now, zipn as int);
        if count == 0 {
            proof {
                assert(establish_post(
                        old(self).spec_validator().windows(),
                        window_views(other_windows@),
                        old(self).spec_validator().spec_config(),
                        old(self).spec_config(),
                        old(self).contexts(),
                        self.contexts(),
                        Ok(None),
                        now,
                    ));
                    }
            return Ok(None);
        }
        let cnt = count as i128;
        let avg_correlation: i128 = if total_correlation >= 0 {
            (((total_correlation as u128) / (count as u128))) as i128
        } else {
            -((((-total_correlation) as u128) / (count as u128)) as i128)
        };
        let avg_sync: i128 = ((total_sync as u128) / (count as u128)) as i128;
        let avg_proximity: i128 = ((total_proximity as u128) / (count as u128)) as i128;
        proof {
            assert(avg_correlation as int == tdiv(totals.0, totals.3));
            assert(avg_sync as int == tdiv(totals.1, totals.3));
            assert(avg_proximity as int == tdiv(totals.2, totals.3));
            assert(tdiv(totals.0, totals.3) >= -(1000int)) by (nonlinear_arith)
                requires
                    totals.3 >= 1,
                    -totals.3 * 1000 <= totals.0,
                    tdiv(totals.0, totals.3) == (if totals.0 >= 0 {
                        totals.0 / totals.3
                    } else {
                        -((-totals.0) / totals.3)
                    }),
            ;
            assert(tdiv(totals.0, totals.3) <= 1000) by (nonlinear_arith)
                requires
                    totals.3 >= 1,
                    totals.0 <= totals.3 * 1000,
                    tdiv(totals.0, totals.3) == (if totals.0 >= 0 {
                        totals.0 / totals.3
                    } else {
                        -((-totals.0) / totals.3)
                    }),
            ;
            assert(tdiv(totals.1, totals.3) <= 1000 && tdiv(totals.1, totals.3) >= 0)
                by (nonlinear_arith)
                requires
                    totals.3 >= 1,
                    0 <= totals.1 <= totals.3 * 1000,
                    tdiv(totals.1, totals.3) == totals.1 / totals.3,
            ;
            assert(tdiv(totals.2, totals.3) <= 1000 && tdiv(totals.2, totals.3) >= 0)
                by (nonlinear_arith)
                requires
                    totals.3 >= 1,
                    0 <= totals.2 <= totals.3 * 1000,
                    tdiv(totals.2, totals.3) == totals.2 / totals.3,
            ;
        }
        let score_sum: i128 = avg_correlation + avg_sync + avg_proximity;
        let quality: i128 = if score_sum >= 0 {
            ((score_sum as u128) / 3) as i128
        } else {
            -(((((-score_sum)) as u128) / 3) as i128)
        };
        proof {
            assert(quality as int == spec_pair_quality(totals));
            assert(quality <= 1000);
        }
        if quality >= 0 && (quality as u64) >= self.config.min_quality {
            let context = SharedContext {
                time_window: count * 1000,
                measurements: our,
                quality: quality as u64,
                established_at: now,
            };
            let stored = context.clone();
            self.contexts.push(stored);
            proof {
                assert(context@.measurements =~= our_seq);
                assert(self.contexts@.map(|j: int, c: SharedContext| c@) =~= old(
                    self,
                ).contexts().push(context@));
                assert(establish_post(
                        old(self).spec_validator().windows(),
                        window_views(other_windows@),
                        old(self).spec_validator().spec_config(),
                        old(self).spec_config(),
                        old(self).contexts(),
                        self.contexts(),
                        Ok(Some(context)),
                        now,
                    ));
                    }
            Ok(Some(context))
        } else {
            proof {
                assert((quality as int) < self.spec_config().min_quality);
                assert(establish_post(
                        old(self).spec_validator().windows(),
                        window_views(other_windows@),
                        old(self).spec_validator().spec_config(),
                        old(self).spec_config(),
                        old(self).contexts(),
                        self.contexts(),
                        Ok(None),
                        now,
                    ));
                    }
            Ok(None)
        }
    }

    /// The most recently established context, if any.
    pub fn current_context(&self) -> (r: Option<&SharedContext>)
        ensures
            self.contexts().len() == 0 ==> r is None,
            self.contexts().len() > 0 ==> r is Some && r->0@ == self.contexts().last(),
    {
        if self.contexts.len() == 0 {
            None
        } else {
            Some(&self.contexts[self.contexts.len() - 1])
        }
    }

    /// Whether the context is still valid at the time the clock reads
    /// now. Insufficient quality makes it invalid whatever the clock
    /// reads.
    pub fn is_context_valid(&self, context: &SharedContext) -> (r: bool)
        ensures
            exists|now: u64| r == #[trigger] spec_context_valid(context@, self.spec_config(), now),
            context@.quality < self.spec_config().min_quality ==> !r,
    {
        let now = now_millis();
        self.context_valid_at(context, now)
    }

    /// Whether the context is still valid at the supplied clock reading:
    /// young enough and of sufficient quality.
    pub fn context_valid_at(&self, context: &SharedContext, now: u64) -> (r: bool)
        ensures
            r == spec_context_valid(context@, self.spec_config(), now),
    {
        let age: u64 = if now >= context.established_at {
            now - context.established_at
        } else {
            self.config.max_age
        };
        age <= self.config.max_age && context.quality >= self.config.min_quality
    }

    /// The validator the manager owns.
    pub fn validator(&self) -> (r: &CoPresenceValidator)
        ensures
            r == self.spec_validator(),
    {
        &self.validator
    }

    /// Mutable access to the validator, to register windows or sensors.
    pub fn validator_mut(&mut self) -> (r: &mut CoPresenceValidator)
        ensures
            *r == old(self).spec_validator(),
            final(self).spec_validator() == *final(r),
            final(self).spec_config() == old(self).spec_config(),
            final(self).contexts() == old(self).contexts(),
    {
        &mut self.validator
    }
}

} // verus!
