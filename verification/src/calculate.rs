//! The verdicts: each baselined metric against its fresh sample.
//!
//! A sample regresses when it lies strictly above the baseline's tolerance
//! band, whose upper end is the mean plus a number of standard deviations.
//! That upper end is arithmetic in double precision and is handed in; the
//! matching of samples to baselines, the comparison and the verdict are made
//! here.

use crate::exceptions::RunnerError;
use crate::exceptions::RunnerErrorView;
use crate::reading::Reading;
use crate::text::views;
use crate::types::Baseline;
use crate::types::BaselineView;
use crate::types::Calculation;
use crate::types::CalculationView;
use crate::types::MetricView;
use crate::types::Metric;
use crate::types::Sample;
use crate::types::SampleView;
use vstd::prelude::*;

verus! {

/// The bit pattern of the number 3: the width of the band, in standard
/// deviations, that `regressions` works with.
pub const SIGMA_BITS: u64 = 0x4008_0000_0000_0000;

/// The width of the tolerance band in standard deviations: 3.
pub fn sigma() -> (r: Reading)
    ensures
        r.bits == SIGMA_BITS,
{
    Reading::from_bits(SIGMA_BITS)
}

/// A baseline with the upper end of its tolerance band: its mean plus
/// `sigma` of its standard deviations.
#[derive(Debug, Clone, PartialEq)]
pub struct Band {
    pub baseline: Baseline,
    pub threshold: Reading,
}

/// A band as plain values.
pub struct BandView {
    pub baseline: BaselineView,
    pub threshold: Reading,
}

impl View for Band {
    type V = BandView;

    open spec fn view(&self) -> BandView {
        BandView { baseline: self.baseline@, threshold: self.threshold }
    }
}

impl CalculationView {
    /// The verdict on a sample held against a baseline whose band ends at
    /// `threshold`: a regression exactly when the sample is strictly greater.
    pub open spec fn of(
        sample: SampleView,
        baseline: BaselineView,
        sigma: Reading,
        threshold: Reading,
    ) -> CalculationView {
        CalculationView {
            version: baseline.version,
            metric: baseline.metric,
            regression: sample.value.exceeds(threshold),
            ts: sample.ts,
            sigma,
            mean: baseline.measurement.mean,
            stddev: baseline.measurement.stddev,
            threshold,
            sample: sample.value,
        }
    }
}

/// The verdict on one sample against one baseline. That the two are of the
/// same metric is not looked at here.
pub fn calculate_regression(
    sample: &Sample,
    baseline: &Baseline,
    sigma: Reading,
    threshold: Reading,
) -> (r: Calculation)
    ensures
        r@ == CalculationView::of(sample@, baseline@, sigma, threshold),
{
    Calculation {
        version: baseline.version,
        metric: baseline.metric.duplicate(),
        regression: sample.value > threshold,
        ts: sample.ts,
        sigma,
        mean: baseline.measurement.mean,
        stddev: baseline.measurement.stddev,
        threshold,
        sample: sample.value,
    }
}

/// The index of the last sample of `metric`, if it was sampled at all.
pub open spec fn last_sample(samples: Seq<SampleView>, metric: MetricView) -> Option<int>
    decreases samples.len(),
{
    if samples.len() == 0 {
        None
    } else if samples.last().metric == metric {
        Some(samples.len() - 1)
    } else {
        last_sample(samples.drop_last(), metric)
    }
}

/// `last_sample` finds a sample of the metric after which no other sample
/// of it comes, and finds none only where there is none.
pub proof fn lemma_last_sample(samples: Seq<SampleView>, metric: MetricView)
    ensures
        match last_sample(samples, metric) {
            Some(k) => 0 <= k < samples.len() && samples[k].metric == metric && forall|j: int|
                k < j < samples.len() ==> samples[j].metric != metric,
            None => forall|j: int| 0 <= j < samples.len() ==> samples[j].metric != metric,
        },
    decreases samples.len(),
{
    if samples.len() > 0 && samples.last().metric != metric {
        let init = samples.drop_last();
        lemma_last_sample(init, metric);
        assert forall|j: int| 0 <= j < init.len() implies init[j] == samples[j] by {}
        match last_sample(init, metric) {
            Some(k) => {
                assert forall|j: int| k < j < samples.len() implies samples[j].metric
                    != metric by {
                    if j < init.len() {
                        assert(init[j] == samples[j]);
                    }
                }
            },
            None => {
                assert forall|j: int| 0 <= j < samples.len() implies samples[j].metric
                    != metric by {
                    if j < init.len() {
                        assert(init[j] == samples[j]);
                    }
                }
            },
        }
    }
}

/// Finds the last sample of `metric`.
pub fn find_sample(samples: &Vec<Sample>, metric: &Metric) -> (r: Option<usize>)
    ensures
        match r {
            Some(k) => k < samples@.len() && last_sample(views(samples@), metric@) == Some(
                k as int,
            ),
            None => last_sample(views(samples@), metric@) is None,
        },
{
    let mut i: usize = samples.len();
    assert(views(samples@).subrange(0, i as int) =~= views(samples@));
    while i > 0
        invariant
            i <= samples@.len(),
            last_sample(views(samples@), metric@) == last_sample(
                views(samples@).subrange(0, i as int),
                metric@,
            ),
        decreases i,
    {
        let ghost seen = views(samples@).subrange(0, i as int);
        assert(seen.last() == samples@[i - 1]@);
        assert(seen.drop_last() =~= views(samples@).subrange(0, i - 1));
        if samples[i - 1].metric.same(metric) {
            return Some(i - 1);
        }
        i -= 1;
    }
    None
}

/// The verdict on the baseline of `band`: made with its last sample.
pub open spec fn verdict(band: BandView, samples: Seq<SampleView>) -> Option<CalculationView> {
    match last_sample(samples, band.baseline.metric) {
        Some(k) => Some(
            CalculationView::of(samples[k], band.baseline, Reading { bits: SIGMA_BITS }, band.threshold),
        ),
        None => None,
    }
}

/// Fails where there is no baseline to hold samples against. The failure
/// carries `target_dir`, the directory that should have held them. With
/// this the caller can give up before it takes any sample.
pub fn require_baselines(target_dir: &str, bands: &Vec<Band>) -> (r: Result<(), RunnerError>)
    ensures
        match r {
            Ok(_) => bands@.len() > 0,
            Err(e) => bands@.len() == 0 && e@ == RunnerErrorView::NoVersionedBaselineData(
                target_dir@,
            ),
        },
{
    if bands.len() == 0 {
        Err(RunnerError::NoVersionedBaselineData(target_dir.to_owned()))
    } else {
        Ok(())
    }
}

/// The verdicts on all baselines of the latest version, in their order, each
/// made with the last sample of its metric.
///
/// No baselines at all is a failure that carries `target_dir`, the directory
/// that should have held them. A baseline whose metric was not sampled is a
/// failure that carries that metric, the first such in order; no verdict is
/// given then.
pub fn regressions(target_dir: &str, bands: &Vec<Band>, samples: &Vec<Sample>) -> (r: Result<
    Vec<Calculation>,
    RunnerError,
>)
    ensures
        match r {
            Ok(calculations) => {
                &&& bands@.len() > 0
                &&& calculations@.len() == bands@.len()
                &&& forall|i: int|
                    0 <= i < bands@.len() ==> verdict(#[trigger] bands@[i]@, views(samples@))
                        == Some(calculations@[i]@)
            },
            Err(e) => {
                ||| bands@.len() == 0 && e@ == RunnerErrorView::NoVersionedBaselineData(
                    target_dir@,
                )
                ||| exists|i: int|
                    {
                        &&& 0 <= i < bands@.len()
                        &&& verdict(#[trigger] bands@[i]@, views(samples@)) is None
                        &&& forall|j: int|
                            0 <= j < i ==> verdict(#[trigger] bands@[j]@, views(samples@)) is Some
                        &&& e@ == RunnerErrorView::BaselineMetricNotSampled(
                            bands@[i]@.baseline.metric,
                        )
                    }
            },
        },
{
    match require_baselines(target_dir, bands) {
        Err(e) => {
            return Err(e);
        },
        Ok(_) => {},
    }
    let mut calculations: Vec<Calculation> = Vec::new();
    let mut i: usize = 0;
    while i < bands.len()
        invariant
            i <= bands@.len(),
            calculations@.len() == i,
            forall|j: int|
                0 <= j < i ==> verdict(#[trigger] bands@[j]@, views(samples@)) == Some(
                    calculations@[j]@,
                ),
        decreases bands@.len() - i,
    {
        let band = &bands[i];
        let ghost before = calculations@;
        match find_sample(samples, &band.baseline.metric) {
            None => {
                assert(verdict(bands@[i as int]@, views(samples@)) is None);
                return Err(RunnerError::BaselineMetricNotSampled(band.baseline.metric.duplicate()));
            },
            Some(k) => {
                let made = calculate_regression(
                    &samples[k],
                    &band.baseline,
                    sigma(),
                    band.threshold,
                );
                assert(views(samples@)[k as int] == samples@[k as int]@);
                assert(verdict(bands@[i as int]@, views(samples@)) == Some(made@));
                calculations.push(made);
            },
        }
        assert forall|j: int| 0 <= j < i + 1 implies verdict(
            #[trigger] bands@[j]@,
            views(samples@),
        ) == Some(calculations@[j]@) by {
            if j < i {
                assert(calculations@[j] == before[j]);
            }
        }
        i += 1;
    }
    Ok(calculations)
}

/// The verdicts that are regressions, in their order.
pub fn regressed<'a>(calculations: &'a Vec<Calculation>) -> (r: Vec<&'a Calculation>)
    ensures
        views(r@) == views(calculations@).filter(|c: CalculationView| c.regression),
{
    let ghost flagged = |c: CalculationView| c.regression;
    let mut found: Vec<&'a Calculation> = Vec::new();
    let mut i: usize = 0;
    proof {
        reveal(Seq::filter);
        assert(views(calculations@).subrange(0, 0) =~= Seq::<CalculationView>::empty());
        assert(views(found@) =~= Seq::<CalculationView>::empty());
    }
    while i < calculations.len()
        invariant
            i <= calculations@.len(),
            flagged == |c: CalculationView| c.regression,
            views(found@) == views(calculations@).subrange(0, i as int).filter(flagged),
        decreases calculations@.len() - i,
    {
        let ghost before = views(found@);
        proof {
            reveal(Seq::filter);
            let next = views(calculations@).subrange(0, i + 1);
            assert(next.drop_last() =~= views(calculations@).subrange(0, i as int));
            assert(next.last() == calculations@[i as int]@);
        }
        if calculations[i].regression {
            found.push(&calculations[i]);
            assert(views(found@) =~= before.push(calculations@[i as int]@));
        }
        i += 1;
    }
    assert(views(calculations@).subrange(0, i as int) =~= views(calculations@));
    found
}

/// The exit code of a sampling run: 1 where any verdict is a regression,
/// else 0.
pub fn exit_code(calculations: &Vec<Calculation>) -> (r: i32)
    ensures
        r == if exists|i: int| 0 <= i < calculations@.len() && calculations@[i].regression {
            1i32
        } else {
            0i32
        },
{
    let mut i: usize = 0;
    while i < calculations.len()
        invariant
            i <= calculations@.len(),
            forall|j: int| 0 <= j < i ==> !calculations@[j].regression,
        decreases calculations@.len() - i,
    {
        if calculations[i].regression {
            return 1;
        }
        i += 1;
    }
    0
}

} // verus!
