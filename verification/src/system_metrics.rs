//! What the machine does while a benchmark runs.
use crate::order::{arrange, middle_of, sort_numbers, Middle, Series};
#[allow(unused_imports)]
use crate::order::{
    can_be_ordered, in_order, is_series_of, law_order_of_numbers_plays_no_part,
    lemma_map_of_permutation, lemma_same_ranks, lemma_take_out, same_series, Ranked,
};
use crate::output::{one, plain, Double, Line, Single, Stream};
#[allow(unused_imports)]
use crate::output::{law_text_is_said_whole, line_of, plain_text, spoken, Figure, LineView};
#[allow(unused_imports)]
use crate::paint::{Hue, Ink};
use crate::text::concat;
use vstd::prelude::*;

verus! {

/// Statistics of one kind of processor cores.
#[derive(Debug, PartialEq, Eq)]
pub struct CoreMetrics {
    pub freq_mhz_min: u32,
    pub freq_mhz_mean: Single,
    pub freq_mhz_median: Single,
    pub freq_mhz_max: u32,
    pub usage_percent_min: Single,
    pub usage_percent_mean: Single,
    pub usage_percent_median: Single,
    pub usage_percent_max: Single,
}

/// Statistics of the memory.
#[derive(Debug, PartialEq, Eq)]
pub struct MemoryMetrics {
    pub ram_usage_gb_min: Single,
    pub ram_usage_gb_mean: Single,
    pub ram_usage_gb_median: Single,
    pub ram_usage_gb_max: Single,
    pub swap_usage_gb_min: Single,
    pub swap_usage_gb_mean: Single,
    pub swap_usage_gb_median: Single,
    pub swap_usage_gb_max: Single,
}

/// Statistics of the power that is drawn; the totals are in watt-seconds.
#[derive(Debug, PartialEq, Eq)]
pub struct PowerMetrics {
    pub cpu_watts_min: Single,
    pub cpu_watts_mean: Single,
    pub cpu_watts_median: Single,
    pub cpu_watts_max: Single,
    pub cpu_watts_total: Single,
    pub gpu_watts_min: Single,
    pub gpu_watts_mean: Single,
    pub gpu_watts_median: Single,
    pub gpu_watts_max: Single,
    pub gpu_watts_total: Single,
    pub ane_watts_min: Single,
    pub ane_watts_mean: Single,
    pub ane_watts_median: Single,
    pub ane_watts_max: Single,
    pub ane_watts_total: Single,
}

/// Statistics of the machine over a benchmark.
#[derive(Debug, PartialEq, Eq)]
pub struct SystemMetricsStats {
    pub efficiency_cores: CoreMetrics,
    pub performance_cores: CoreMetrics,
    pub gpu: CoreMetrics,
    pub memory: MemoryMetrics,
    pub power: PowerMetrics,
    pub sample_count: usize,
    pub duration_seconds: Double,
    pub hardware_info: Option<HardwareInfo>,
}

/// What the machine is.
#[derive(Debug, PartialEq, Eq)]
pub struct HardwareInfo {
    pub mac_model: String,
    pub chip_name: String,
    pub memory_gb: u8,
    pub ecpu_cores: u8,
    pub pcpu_cores: u8,
    pub ecpu_freqs: Vec<u32>,
    pub pcpu_freqs: Vec<u32>,
    pub gpu_cores: u8,
    pub gpu_freqs: Vec<u32>,
}

/// The median of numbers: none of an empty list, one of them, or half of a sum.
#[derive(Clone, Copy, PartialEq, Eq, Structural, Debug)]
pub enum Median {
    Nothing,
    Value(u32),
    HalfOf(u32),
}

/// The median of an ordered list.
pub open spec fn median_in(values: Seq<u32>) -> Median {
    let n = values.len() as int;
    if n == 0 {
        Median::Nothing
    } else if n % 2 == 1 {
        Median::Value(values[(n - 1) / 2])
    } else {
        Median::HalfOf((values[n / 2 - 1] + values[n / 2]) as u32)
    }
}

/// The median of an ordered list.
pub fn median_u32(values: &Vec<u32>) -> (r: Median)
    requires
        values@.len() > 0 && values@.len() % 2 == 0 ==> values@[values@.len() / 2 - 1]
            + values@[values@.len() as int / 2] <= u32::MAX,
    ensures
        r == median_in(values@),
{
    match middle_of(values.len()) {
        Middle::Nowhere => Median::Nothing,
        Middle::At(i) => Median::Value(values[i]),
        Middle::AtAndNext(i) => Median::HalfOf(values[i] + values[i + 1]),
    }
}

/// The sum of the numbers.
pub open spec fn sum_of(values: Seq<u32>) -> nat
    decreases values.len(),
{
    if values.len() == 0 {
        0
    } else {
        sum_of(values.drop_last()) + values.last() as nat
    }
}

/// What the frequencies of some cores come to, in megahertz.
#[derive(Clone, Copy, PartialEq, Eq, Structural, Debug)]
pub struct FrequencyStats {
    pub count: usize,
    pub min: u32,
    pub max: u32,
    pub sum: u32,
    pub median: Median,
}

/// What frequencies come to: with none of them all is zero.
pub open spec fn are_frequency_stats(stats: FrequencyStats, values: Seq<u32>) -> bool {
    &&& stats.count == values.len()
    &&& stats.sum == sum_of(values)
    &&& values.len() == 0 ==> stats.min == 0 && stats.max == 0
    &&& values.len() > 0 ==> values.contains(stats.min) && values.contains(stats.max)
    &&& forall|i: int|
        0 <= i < values.len() ==> stats.min <= #[trigger] values[i] && values[i] <= stats.max
    &&& exists|sorted: Seq<u32>| #[trigger]
        in_order(sorted) && sorted.to_multiset() == values.to_multiset() && stats.median
            == median_in(sorted)
}

proof fn lemma_sum_grows(values: Seq<u32>, k: int)
    requires
        0 <= k <= values.len(),
    ensures
        sum_of(values.take(k)) <= sum_of(values),
    decreases values.len() - k,
{
    if k == values.len() {
        assert(values.take(k) =~= values);
    } else {
        lemma_sum_grows(values, k + 1);
        assert(values.take(k + 1).drop_last() =~= values.take(k));
    }
}

proof fn lemma_sum_remove(values: Seq<u32>, i: int)
    requires
        0 <= i < values.len(),
    ensures
        sum_of(values) == sum_of(values.remove(i)) + values[i],
    decreases values.len(),
{
    if i == values.len() - 1 {
        assert(values.remove(i) =~= values.drop_last());
    } else {
        lemma_sum_remove(values.drop_last(), i);
        assert(values.drop_last().remove(i) =~= values.remove(i).drop_last());
        assert(values.remove(i).last() == values.last());
    }
}

/// The sum does not depend on the order.
proof fn lemma_sum_of_permutation(a: Seq<u32>, b: Seq<u32>)
    requires
        a.to_multiset() == b.to_multiset(),
    ensures
        sum_of(a) == sum_of(b),
    decreases a.len(),
{
    vstd::seq_lib::to_multiset_len(a);
    vstd::seq_lib::to_multiset_len(b);
    if a.len() > 0 {
        let i = lemma_take_out(a, b);
        lemma_sum_remove(b, i);
        lemma_sum_of_permutation(a.drop_last(), b.remove(i));
    }
}

proof fn lemma_two_within_sum(values: Seq<u32>, i: int)
    requires
        0 <= i < values.len() - 1,
    ensures
        values[i] + values[i + 1] <= sum_of(values),
{
    reveal_with_fuel(sum_of, 3);
    let front = values.take(i + 2);
    lemma_sum_grows(values, i + 2);
    assert(front.drop_last().last() == values[i]);
    assert(front.last() == values[i + 1]);
}

/// What frequencies come to.
pub fn frequency_stats(values: &Vec<u32>) -> (r: FrequencyStats)
    requires
        sum_of(values@) <= u32::MAX,
    ensures
        are_frequency_stats(r, values@),
{
    let sorted = sort_numbers(values);
    proof {
        lemma_sum_of_permutation(sorted@, values@);
        vstd::seq_lib::to_multiset_len(sorted@);
        vstd::seq_lib::to_multiset_len(values@);
        if sorted@.len() > 0 && sorted@.len() % 2 == 0 {
            lemma_two_within_sum(sorted@, sorted@.len() / 2 - 1);
        }
        assert forall|x: u32| values@.contains(x) <==> sorted@.contains(x) by {
            vstd::seq_lib::to_multiset_contains(sorted@, x);
            vstd::seq_lib::to_multiset_contains(values@, x);
        }
    }
    let median = median_u32(&sorted);
    let count = values.len();
    let mut sum: u32 = 0;
    let mut i: usize = 0;
    while i < count
        invariant
            i <= count,
            count == values@.len(),
            sum_of(values@) <= u32::MAX,
            sum == sum_of(values@.take(i as int)),
        decreases count - i,
    {
        proof {
            lemma_sum_grows(values@, i + 1);
            assert(values@.take(i + 1).drop_last() =~= values@.take(i as int));
        }
        sum = sum + values[i];
        i = i + 1;
    }
    assert(values@.take(count as int) =~= values@);
    if count == 0 {
        return FrequencyStats { count, min: 0, max: 0, sum, median };
    }
    let min = sorted[0];
    let max = sorted[count - 1];
    proof {
        assert(sorted@.contains(sorted@[0]));
        assert(sorted@.contains(sorted@[count - 1]));
        assert forall|i: int| 0 <= i < values@.len() implies min <= #[trigger] values@[i]
            && values@[i] <= max by {
            assert(values@.contains(values@[i]));
            let k = choose|k: int| 0 <= k < sorted@.len() && sorted@[k] == values@[i];
            assert(sorted@[0] <= sorted@[k] && sorted@[k] <= sorted@[count - 1]);
        }
    }
    FrequencyStats { count, min, max, sum, median }
}

/// What was measured at one time: for each kind of cores its frequency in megahertz and its
/// usage in percent, the memory in gigabytes, and the power in watts.
#[derive(Clone, Copy, PartialEq, Eq, Structural, Debug)]
pub struct Sample {
    pub ecpu_mhz: u32,
    pub ecpu_percent: Single,
    pub pcpu_mhz: u32,
    pub pcpu_percent: Single,
    pub gpu_mhz: u32,
    pub gpu_percent: Single,
    pub ram_gb: Single,
    pub swap_gb: Single,
    pub cpu_watts: Single,
    pub gpu_watts: Single,
    pub ane_watts: Single,
}

/// The kinds of cores.
#[derive(Clone, Copy, PartialEq, Eq, Structural, Debug)]
pub enum Cores {
    Efficiency,
    Performance,
    Gpu,
}

/// What is measured in single precision.
#[derive(Clone, Copy, PartialEq, Eq, Structural, Debug)]
pub enum Quantity {
    Usage(Cores),
    Ram,
    Swap,
    CpuPower,
    GpuPower,
    AnePower,
}

/// The frequency of some cores in a sample.
pub open spec fn frequency_in(sample: Sample, cores: Cores) -> u32 {
    match cores {
        Cores::Efficiency => sample.ecpu_mhz,
        Cores::Performance => sample.pcpu_mhz,
        Cores::Gpu => sample.gpu_mhz,
    }
}

/// A quantity in a sample.
pub open spec fn quantity_in(sample: Sample, quantity: Quantity) -> Single {
    match quantity {
        Quantity::Usage(Cores::Efficiency) => sample.ecpu_percent,
        Quantity::Usage(Cores::Performance) => sample.pcpu_percent,
        Quantity::Usage(Cores::Gpu) => sample.gpu_percent,
        Quantity::Ram => sample.ram_gb,
        Quantity::Swap => sample.swap_gb,
        Quantity::CpuPower => sample.cpu_watts,
        Quantity::GpuPower => sample.gpu_watts,
        Quantity::AnePower => sample.ane_watts,
    }
}

/// The frequencies of some cores over all samples.
pub open spec fn frequencies(samples: Seq<Sample>, cores: Cores) -> Seq<u32> {
    samples.map_values(|s: Sample| frequency_in(s, cores))
}

/// A quantity over all samples.
pub open spec fn quantities(samples: Seq<Sample>, quantity: Quantity) -> Seq<Single> {
    samples.map_values(|s: Sample| quantity_in(s, quantity))
}

/// What the measurements of some cores come to.
#[derive(Debug, PartialEq, Eq)]
pub struct CoreStats {
    pub frequency: FrequencyStats,
    pub usage: Series<Single>,
}

/// What all measurements come to.
#[derive(Debug, PartialEq, Eq)]
pub struct SampleStats {
    pub efficiency_cores: CoreStats,
    pub performance_cores: CoreStats,
    pub gpu: CoreStats,
    pub ram: Series<Single>,
    pub swap: Series<Single>,
    pub cpu_power: Series<Single>,
    pub gpu_power: Series<Single>,
    pub ane_power: Series<Single>,
    pub sample_count: usize,
}

/// What the measurements of some cores come to.
pub open spec fn are_core_stats(stats: CoreStats, samples: Seq<Sample>, cores: Cores) -> bool {
    &&& are_frequency_stats(stats.frequency, frequencies(samples, cores))
    &&& is_series_of(stats.usage, quantities(samples, Quantity::Usage(cores)))
}

/// What all measurements come to.
pub open spec fn are_sample_stats(stats: SampleStats, samples: Seq<Sample>) -> bool {
    &&& are_core_stats(stats.efficiency_cores, samples, Cores::Efficiency)
    &&& are_core_stats(stats.performance_cores, samples, Cores::Performance)
    &&& are_core_stats(stats.gpu, samples, Cores::Gpu)
    &&& is_series_of(stats.ram, quantities(samples, Quantity::Ram))
    &&& is_series_of(stats.swap, quantities(samples, Quantity::Swap))
    &&& is_series_of(stats.cpu_power, quantities(samples, Quantity::CpuPower))
    &&& is_series_of(stats.gpu_power, quantities(samples, Quantity::GpuPower))
    &&& is_series_of(stats.ane_power, quantities(samples, Quantity::AnePower))
    &&& stats.sample_count == samples.len()
}

/// Samples that can be put in order: the frequencies of each kind of cores have a sum, and
/// where there are two samples or more, every measurement is a number.
pub open spec fn are_orderly(samples: Seq<Sample>) -> bool {
    &&& forall|cores: Cores| sum_of(#[trigger] frequencies(samples, cores)) <= u32::MAX
    &&& forall|quantity: Quantity| can_be_ordered(#[trigger] quantities(samples, quantity))
}

/// The statistics of the frequencies of some cores.
fn core_frequencies(samples: &Vec<Sample>, cores: Cores) -> (r: FrequencyStats)
    requires
        sum_of(frequencies(samples@, cores)) <= u32::MAX,
    ensures
        are_frequency_stats(r, frequencies(samples@, cores)),
{
    let mut values: Vec<u32> = Vec::new();
    let mut i: usize = 0;
    while i < samples.len()
        invariant
            i <= samples@.len(),
            values@.len() == i,
            forall|k: int|
                0 <= k < i ==> #[trigger] values@[k] == frequency_in(samples@[k], cores),
        decreases samples@.len() - i,
    {
        let sample = samples[i];
        values.push(
            match cores {
                Cores::Efficiency => sample.ecpu_mhz,
                Cores::Performance => sample.pcpu_mhz,
                Cores::Gpu => sample.gpu_mhz,
            },
        );
        i = i + 1;
    }
    assert(values@ =~= frequencies(samples@, cores));
    frequency_stats(&values)
}

/// The statistics of a quantity.
fn series(samples: &Vec<Sample>, quantity: Quantity) -> (r: Series<Single>)
    requires
        can_be_ordered(quantities(samples@, quantity)),
    ensures
        is_series_of(r, quantities(samples@, quantity)),
{
    let mut values: Vec<Single> = Vec::new();
    let mut i: usize = 0;
    while i < samples.len()
        invariant
            i <= samples@.len(),
            values@.len() == i,
            forall|k: int|
                0 <= k < i ==> #[trigger] values@[k] == quantity_in(samples@[k], quantity),
        decreases samples@.len() - i,
    {
        let sample = samples[i];
        values.push(
            match quantity {
                Quantity::Usage(Cores::Efficiency) => sample.ecpu_percent,
                Quantity::Usage(Cores::Performance) => sample.pcpu_percent,
                Quantity::Usage(Cores::Gpu) => sample.gpu_percent,
                Quantity::Ram => sample.ram_gb,
                Quantity::Swap => sample.swap_gb,
                Quantity::CpuPower => sample.cpu_watts,
                Quantity::GpuPower => sample.gpu_watts,
                Quantity::AnePower => sample.ane_watts,
            },
        );
        i = i + 1;
    }
    assert(values@ =~= quantities(samples@, quantity));
    arrange(&values)
}

/// The statistics of some cores.
fn core_stats(samples: &Vec<Sample>, cores: Cores) -> (r: CoreStats)
    requires
        are_orderly(samples@),
    ensures
        are_core_stats(r, samples@, cores),
{
    CoreStats {
        frequency: core_frequencies(samples, cores),
        usage: series(samples, Quantity::Usage(cores)),
    }
}

/// What the measurements come to, as far as it goes without arithmetic in single precision.
pub fn calculate_stats(samples: &Vec<Sample>) -> (r: SampleStats)
    requires
        are_orderly(samples@),
    ensures
        are_sample_stats(r, samples@),
{
    SampleStats {
        efficiency_cores: core_stats(samples, Cores::Efficiency),
        performance_cores: core_stats(samples, Cores::Performance),
        gpu: core_stats(samples, Cores::Gpu),
        ram: series(samples, Quantity::Ram),
        swap: series(samples, Quantity::Swap),
        cpu_power: series(samples, Quantity::CpuPower),
        gpu_power: series(samples, Quantity::GpuPower),
        ane_power: series(samples, Quantity::AnePower),
        sample_count: samples.len(),
    }
}

/// What `stop` says where nothing can be measured.
pub open spec fn unavailable() -> Seq<char> {
    "System metrics monitoring is only available on macOS"@
}

/// What is known of the hardware counts only where it has some cores.
pub open spec fn has_cores(info: HardwareInfo) -> bool {
    info.ecpu_cores > 0 || info.pcpu_cores > 0
}

/// The warning that is due for what was learned of the hardware.
pub open spec fn hardware_warning(found: Result<HardwareInfo, String>) -> Option<LineView> {
    match found {
        Ok(info) => if has_cores(info) {
            None
        } else {
            Some(
                line_of(
                    Stream::Stderr,
                    plain_text(
                        "Warning: Could not retrieve valid CPU core information from macmon"@,
                    ),
                ),
            )
        },
        Err(reason) => Some(
            line_of(
                Stream::Stderr,
                plain_text("Warning: Failed to create sampler for hardware info: "@ + reason@),
            ),
        ),
    }
}

/// Gathers samples from its start to its stop.
#[derive(Debug, PartialEq, Eq)]
pub struct MetricsMonitor {
    /// Whether anything can be measured on this machine.
    pub available: bool,
    pub running: bool,
    pub samples: Vec<Sample>,
    pub hardware: Option<HardwareInfo>,
}

impl MetricsMonitor {
    /// A monitor that has not been started.
    pub fn new(available: bool) -> (r: MetricsMonitor)
        ensures
            r.available == available,
            !r.running,
            r.samples@ == Seq::<Sample>::empty(),
            r.hardware is None,
    {
        MetricsMonitor { available, running: false, samples: Vec::new(), hardware: None }
    }

    /// Starts the monitor with what was learned of the hardware, and returns the warning that
    /// is due. Where nothing can be measured, nothing happens.
    pub fn start(&mut self, found: Result<HardwareInfo, String>) -> (r: Option<Line>)
        ensures
            !old(self).available ==> *final(self) == *old(self) && r is None,
            old(self).available ==> {
                &&& final(self).available
                &&& final(self).running
                &&& final(self).samples@ == old(self).samples@
                &&& final(self).hardware == match found {
                    Ok(info) if has_cores(info) => Some(info),
                    _ => old(self).hardware,
                }
                &&& r is Some <==> hardware_warning(found) is Some
                &&& r matches Some(line) ==> hardware_warning(found) == Some(line@)
            },
    {
        if !self.available {
            return None;
        }
        self.running = true;
        match found {
            Ok(info) => {
                if info.ecpu_cores > 0 || info.pcpu_cores > 0 {
                    self.hardware = Some(info);
                    None
                } else {
                    Some(
                        one(
                            Stream::Stderr,
                            plain(
                                "Warning: Could not retrieve valid CPU core information from macmon",
                            ),
                        ),
                    )
                }
            },
            Err(reason) => {
                let text = concat(
                    "Warning: Failed to create sampler for hardware info: ",
                    reason.as_str(),
                );
                Some(one(Stream::Stderr, plain(text.as_str())))
            },
        }
    }

    /// Takes a sample.
    pub fn record(&mut self, sample: Sample)
        ensures
            final(self).samples@ == old(self).samples@.push(sample),
            final(self).available == old(self).available,
            final(self).running == old(self).running,
            final(self).hardware == old(self).hardware,
    {
        self.samples.push(sample);
    }

    /// Asks for no further sample.
    pub fn halt(&mut self)
        ensures
            !final(self).running,
            final(self).samples@ == old(self).samples@,
            final(self).available == old(self).available,
            final(self).hardware == old(self).hardware,
    {
        self.running = false;
    }

    /// Stops the monitor and returns what was measured. Where nothing can be measured, it
    /// says so.
    pub fn stop(&mut self) -> (r: Result<SampleStats, String>)
        requires
            old(self).available ==> are_orderly(old(self).samples@),
        ensures
            !final(self).running,
            final(self).samples@ == old(self).samples@,
            final(self).available == old(self).available,
            final(self).hardware == old(self).hardware,
            match r {
                Ok(stats) => old(self).available && are_sample_stats(stats, old(self).samples@),
                Err(reason) => !old(self).available && reason@ == unavailable(),
            },
    {
        self.halt();
        if self.available {
            Ok(calculate_stats(&self.samples))
        } else {
            Err("System metrics monitoring is only available on macOS".to_owned())
        }
    }
}

/// It does not matter in which order frequencies come.
pub proof fn law_order_of_frequencies_plays_no_part(
    x: FrequencyStats,
    a: Seq<u32>,
    y: FrequencyStats,
    b: Seq<u32>,
)
    requires
        are_frequency_stats(x, a),
        are_frequency_stats(y, b),
        a.to_multiset() == b.to_multiset(),
    ensures
        x == y,
{
    vstd::seq_lib::to_multiset_len(a);
    vstd::seq_lib::to_multiset_len(b);
    lemma_sum_of_permutation(a, b);
    let p = choose|sorted: Seq<u32>| #[trigger]
        in_order(sorted) && sorted.to_multiset() == a.to_multiset() && x.median == median_in(
            sorted,
        );
    let q = choose|sorted: Seq<u32>| #[trigger]
        in_order(sorted) && sorted.to_multiset() == b.to_multiset() && y.median == median_in(
            sorted,
        );
    lemma_same_ranks(p, q);
    assert(p =~= q) by {
        assert forall|i: int| 0 <= i < p.len() implies p[i] == q[i] by {
            assert(p[i].rank() == q[i].rank());
        }
    }
    if a.len() > 0 {
        assert forall|v: u32| a.contains(v) <==> b.contains(v) by {
            vstd::seq_lib::to_multiset_contains(a, v);
            vstd::seq_lib::to_multiset_contains(b, v);
        }
        assert(b.contains(x.min) && b.contains(x.max));
        assert(a.contains(y.min) && a.contains(y.max));
    }
}

/// Two statistics of cores are the same.
pub open spec fn same_core_stats(x: CoreStats, y: CoreStats) -> bool {
    x.frequency == y.frequency && same_series(x.usage, y.usage)
}

/// Two statistics are the same in every part.
pub open spec fn same_stats(x: SampleStats, y: SampleStats) -> bool {
    &&& same_core_stats(x.efficiency_cores, y.efficiency_cores)
    &&& same_core_stats(x.performance_cores, y.performance_cores)
    &&& same_core_stats(x.gpu, y.gpu)
    &&& same_series(x.ram, y.ram)
    &&& same_series(x.swap, y.swap)
    &&& same_series(x.cpu_power, y.cpu_power)
    &&& same_series(x.gpu_power, y.gpu_power)
    &&& same_series(x.ane_power, y.ane_power)
    &&& x.sample_count == y.sample_count
}

proof fn lemma_same_quantity(
    x: Series<Single>,
    a: Seq<Sample>,
    y: Series<Single>,
    b: Seq<Sample>,
    quantity: Quantity,
)
    requires
        is_series_of(x, quantities(a, quantity)),
        is_series_of(y, quantities(b, quantity)),
        a.to_multiset() == b.to_multiset(),
    ensures
        same_series(x, y),
{
    lemma_map_of_permutation(a, b, |s: Sample| quantity_in(s, quantity));
    law_order_of_numbers_plays_no_part(x, quantities(a, quantity), y, quantities(b, quantity));
}

proof fn lemma_same_cores(
    x: CoreStats,
    a: Seq<Sample>,
    y: CoreStats,
    b: Seq<Sample>,
    cores: Cores,
)
    requires
        are_core_stats(x, a, cores),
        are_core_stats(y, b, cores),
        a.to_multiset() == b.to_multiset(),
    ensures
        same_core_stats(x, y),
{
    lemma_map_of_permutation(a, b, |s: Sample| frequency_in(s, cores));
    law_order_of_frequencies_plays_no_part(
        x.frequency,
        frequencies(a, cores),
        y.frequency,
        frequencies(b, cores),
    );
    lemma_same_quantity(x.usage, a, y.usage, b, Quantity::Usage(cores));
}

/// It does not matter in which order samples come: their statistics are the same in every part.
pub proof fn law_order_of_samples_plays_no_part(
    x: SampleStats,
    a: Seq<Sample>,
    y: SampleStats,
    b: Seq<Sample>,
)
    requires
        are_sample_stats(x, a),
        are_sample_stats(y, b),
        a.to_multiset() == b.to_multiset(),
    ensures
        same_stats(x, y),
{
    vstd::seq_lib::to_multiset_len(a);
    vstd::seq_lib::to_multiset_len(b);
    lemma_same_cores(x.efficiency_cores, a, y.efficiency_cores, b, Cores::Efficiency);
    lemma_same_cores(x.performance_cores, a, y.performance_cores, b, Cores::Performance);
    lemma_same_cores(x.gpu, a, y.gpu, b, Cores::Gpu);
    lemma_same_quantity(x.ram, a, y.ram, b, Quantity::Ram);
    lemma_same_quantity(x.swap, a, y.swap, b, Quantity::Swap);
    lemma_same_quantity(x.cpu_power, a, y.cpu_power, b, Quantity::CpuPower);
    lemma_same_quantity(x.gpu_power, a, y.gpu_power, b, Quantity::GpuPower);
    lemma_same_quantity(x.ane_power, a, y.ane_power, b, Quantity::AnePower);
}

/// A sample more adds its own measurement to each of the series, and no other.
pub proof fn law_sample_adds_its_measurements(
    samples: Seq<Sample>,
    sample: Sample,
    cores: Cores,
    quantity: Quantity,
)
    ensures
        frequencies(samples, cores).len() == samples.len(),
        quantities(samples, quantity).len() == samples.len(),
        frequencies(samples.push(sample), Cores::Efficiency) == frequencies(
            samples,
            Cores::Efficiency,
        ).push(sample.ecpu_mhz),
        frequencies(samples.push(sample), Cores::Performance) == frequencies(
            samples,
            Cores::Performance,
        ).push(sample.pcpu_mhz),
        frequencies(samples.push(sample), Cores::Gpu) == frequencies(samples, Cores::Gpu).push(
            sample.gpu_mhz,
        ),
        quantities(samples.push(sample), quantity) == quantities(samples, quantity).push(
            match quantity {
                Quantity::Usage(Cores::Efficiency) => sample.ecpu_percent,
                Quantity::Usage(Cores::Performance) => sample.pcpu_percent,
                Quantity::Usage(Cores::Gpu) => sample.gpu_percent,
                Quantity::Ram => sample.ram_gb,
                Quantity::Swap => sample.swap_gb,
                Quantity::CpuPower => sample.cpu_watts,
                Quantity::GpuPower => sample.gpu_watts,
                Quantity::AnePower => sample.ane_watts,
            },
        ),
{
    assert(frequencies(samples.push(sample), Cores::Efficiency) =~= frequencies(
        samples,
        Cores::Efficiency,
    ).push(sample.ecpu_mhz));
    assert(frequencies(samples.push(sample), Cores::Performance) =~= frequencies(
        samples,
        Cores::Performance,
    ).push(sample.pcpu_mhz));
    assert(frequencies(samples.push(sample), Cores::Gpu) =~= frequencies(samples, Cores::Gpu).push(
        sample.gpu_mhz,
    ));
    assert(quantities(samples.push(sample), quantity) =~= quantities(samples, quantity).push(
        quantity_in(sample, quantity),
    ));
}

/// A frequency more adds itself to the sum.
pub proof fn law_frequency_adds_itself(values: Seq<u32>, value: u32)
    ensures
        sum_of(Seq::empty()) == 0,
        sum_of(values.push(value)) == sum_of(values) + value,
{
    assert(values.push(value).drop_last() =~= values);
}

/// What frequencies come to: their number, their sum, the least and the greatest of them, and a
/// median that as many lie below as above. Two in the middle are added up whole.
pub proof fn law_frequencies_come_to(stats: FrequencyStats, values: Seq<u32>, sorted: Seq<u32>)
    requires
        are_frequency_stats(stats, values),
        in_order(sorted),
        sorted.to_multiset() == values.to_multiset(),
    ensures
        stats.count == values.len(),
        stats.sum == sum_of(values),
        values.len() > 0 ==> values.contains(stats.min) && values.contains(stats.max),
        forall|i: int|
            0 <= i < values.len() ==> stats.min <= #[trigger] values[i] && values[i] <= stats.max,
        values.len() == 0 ==> stats.median == Median::Nothing && stats.min == 0 && stats.max == 0,
        forall|k: int|
            values.len() == 2 * k + 1 ==> stats.median == Median::Value(#[trigger] sorted[k]),
        forall|k: int|
            k >= 0 && values.len() == 2 * k + 2 ==> stats.median == Median::HalfOf(
                (#[trigger] sorted[k] + sorted[k + 1]) as u32,
            ),
{
    vstd::seq_lib::to_multiset_len(values);
    vstd::seq_lib::to_multiset_len(sorted);
    let q = choose|q: Seq<u32>| #[trigger]
        in_order(q) && q.to_multiset() == values.to_multiset() && stats.median == median_in(q);
    lemma_same_ranks(sorted, q);
    assert(sorted =~= q) by {
        assert forall|i: int| 0 <= i < sorted.len() implies sorted[i] == q[i] by {
            assert(sorted[i].rank() == q[i].rank());
        }
    }
}

/// What is known of the hardware counts where it has cores of either kind; otherwise there is a
/// warning, which gives the whole reason where nothing was learned.
pub proof fn law_hardware_without_cores_is_told(
    info: HardwareInfo,
    reason: String,
    write: spec_fn(Figure) -> Seq<char>,
)
    ensures
        hardware_warning(Ok(info)) is None <==> info.ecpu_cores > 0 || info.pcpu_cores > 0,
        has_cores(info) <==> info.ecpu_cores > 0 || info.pcpu_cores > 0,
        hardware_warning(Ok(info)) matches Some(line) ==> line.stream == Stream::Stderr && spoken(
            line,
            write,
        ) == "Warning: Could not retrieve valid CPU core information from macmon"@,
        unavailable() == "System metrics monitoring is only available on macOS"@,
        hardware_warning(Err(reason)) matches Some(line) && line.stream == Stream::Stderr
            && spoken(line, write)
            == "Warning: Failed to create sampler for hardware info: "@ + reason@,
{
    law_text_is_said_whole(
        Stream::Stderr,
        Ink::Plain,
        Hue::Yellow,
        "Warning: Failed to create sampler for hardware info: "@ + reason@,
        write,
    );
    law_text_is_said_whole(
        Stream::Stderr,
        Ink::Plain,
        Hue::Yellow,
        "Warning: Could not retrieve valid CPU core information from macmon"@,
        write,
    );
}

/// Each statistic is of its own measurement: those of cores of theirs, those of the memory of
/// theirs, and those of the power of theirs, over all samples.
pub proof fn law_statistics_are_of_their_measurements(stats: SampleStats, samples: Seq<Sample>)
    requires
        are_sample_stats(stats, samples),
    ensures
        stats.sample_count == samples.len(),
        are_frequency_stats(
            stats.efficiency_cores.frequency,
            samples.map_values(|s: Sample| s.ecpu_mhz),
        ),
        are_frequency_stats(
            stats.performance_cores.frequency,
            samples.map_values(|s: Sample| s.pcpu_mhz),
        ),
        are_frequency_stats(stats.gpu.frequency, samples.map_values(|s: Sample| s.gpu_mhz)),
        is_series_of(stats.efficiency_cores.usage, samples.map_values(|s: Sample| s.ecpu_percent)),
        is_series_of(stats.performance_cores.usage, samples.map_values(|s: Sample| s.pcpu_percent)),
        is_series_of(stats.gpu.usage, samples.map_values(|s: Sample| s.gpu_percent)),
        is_series_of(stats.ram, samples.map_values(|s: Sample| s.ram_gb)),
        is_series_of(stats.swap, samples.map_values(|s: Sample| s.swap_gb)),
        is_series_of(stats.cpu_power, samples.map_values(|s: Sample| s.cpu_watts)),
        is_series_of(stats.gpu_power, samples.map_values(|s: Sample| s.gpu_watts)),
        is_series_of(stats.ane_power, samples.map_values(|s: Sample| s.ane_watts)),
{
    assert(frequencies(samples, Cores::Efficiency) =~= samples.map_values(|s: Sample| s.ecpu_mhz));
    assert(frequencies(samples, Cores::Performance) =~= samples.map_values(|s: Sample| s.pcpu_mhz));
    assert(frequencies(samples, Cores::Gpu) =~= samples.map_values(|s: Sample| s.gpu_mhz));
    assert(quantities(samples, Quantity::Usage(Cores::Efficiency)) =~= samples.map_values(
        |s: Sample| s.ecpu_percent,
    ));
    assert(quantities(samples, Quantity::Usage(Cores::Performance)) =~= samples.map_values(
        |s: Sample| s.pcpu_percent,
    ));
    assert(quantities(samples, Quantity::Usage(Cores::Gpu)) =~= samples.map_values(
        |s: Sample| s.gpu_percent,
    ));
    assert(quantities(samples, Quantity::Ram) =~= samples.map_values(|s: Sample| s.ram_gb));
    assert(quantities(samples, Quantity::Swap) =~= samples.map_values(|s: Sample| s.swap_gb));
    assert(quantities(samples, Quantity::CpuPower) =~= samples.map_values(|s: Sample| s.cpu_watts));
    assert(quantities(samples, Quantity::GpuPower) =~= samples.map_values(|s: Sample| s.gpu_watts));
    assert(quantities(samples, Quantity::AnePower) =~= samples.map_values(|s: Sample| s.ane_watts));
}

} // verus!
