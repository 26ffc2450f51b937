use llmchat::order::{
    arrange, ends_of, middle_of, sort_numbers, sort_texts, text_at_most, Middle,
};
use llmchat::output::{one, plain, Double, Single, Stream};
use llmchat::system_metrics::{
    calculate_stats, frequency_stats, median_u32, HardwareInfo, Median, MetricsMonitor, Sample,
};

fn single(x: f32) -> Single {
    Single { bits: x.to_bits() }
}

fn sample(n: u32) -> Sample {
    let x = n as f32;
    Sample {
        ecpu_mhz: 100 + n,
        ecpu_percent: single(10.0 + x),
        pcpu_mhz: 200 - n,
        pcpu_percent: single(20.0 - x),
        gpu_mhz: 300,
        gpu_percent: single(30.0),
        ram_gb: single(x),
        swap_gb: single(-x),
        cpu_watts: single(1.0 / (x + 1.0)),
        gpu_watts: single(x * x),
        ane_watts: single(0.0),
    }
}

fn hardware(ecpu_cores: u8, pcpu_cores: u8) -> HardwareInfo {
    HardwareInfo {
        mac_model: "Mac".to_string(),
        chip_name: "chip".to_string(),
        memory_gb: 16,
        ecpu_cores,
        pcpu_cores,
        ecpu_freqs: Vec::new(),
        pcpu_freqs: Vec::new(),
        gpu_cores: 0,
        gpu_freqs: Vec::new(),
    }
}

fn singles(list: &[Single]) -> Vec<f32> {
    list.iter().map(|s| f32::from_bits(s.bits)).collect()
}

#[test]
fn texts_are_ordered_as_std_orders_them() {
    let list = ["b", "a", "", "ab", "B", "é", "a", "z", "😀", "\u{ffff}"];
    for a in list {
        for b in list {
            assert_eq!(text_at_most(a, b), a <= b);
        }
    }
    let texts: Vec<String> = list.iter().map(|s| s.to_string()).collect();
    let mut expected = texts.clone();
    expected.sort();
    assert_eq!(sort_texts(texts), expected);
}

#[test]
fn there_is_one_sorting_only() {
    let a: Vec<String> = ["c", "a", "b", "a"].iter().map(|s| s.to_string()).collect();
    let b: Vec<String> = ["a", "a", "c", "b"].iter().map(|s| s.to_string()).collect();
    assert_eq!(sort_texts(a), sort_texts(b));
}

#[test]
fn numbers_in_floating_point_are_ordered_by_their_bits() {
    let list = [
        1.5f32, -1.5, 0.0, 3.0e38, -3.0e38, f32::INFINITY, f32::NEG_INFINITY, 1.0e-45, -1.0e-45,
        2.0, 1.0,
    ];
    let mut expected = list.to_vec();
    expected.sort_by(|a, b| a.partial_cmp(b).unwrap());
    let sorted = arrange(&list.iter().map(|&x| single(x)).collect::<Vec<_>>());
    assert_eq!(singles(&sorted.sorted), expected);
    assert_eq!(sorted.middle, Middle::At(5));
    let zeros = arrange(&vec![single(0.0), single(-0.0), single(-1.0)]);
    assert_eq!(singles(&zeros.sorted), vec![-1.0, 0.0, 0.0]);
    let doubles: Vec<f64> = vec![2.5, -2.5, 1.0e300, -1.0e-300, 0.0, f64::NEG_INFINITY];
    let mut expected = doubles.clone();
    expected.sort_by(|a, b| a.partial_cmp(b).unwrap());
    let sorted =
        arrange(&doubles.iter().map(|x| Double { bits: x.to_bits() }).collect::<Vec<_>>());
    let got: Vec<f64> = sorted.sorted.iter().map(|d| f64::from_bits(d.bits)).collect();
    assert_eq!(got, expected);
    assert_eq!(sorted.middle, Middle::AtAndNext(2));
    assert_eq!(sort_numbers(&vec![3u32, 1, 2, 1]), vec![1, 1, 2, 3]);
}

#[test]
fn the_middle_of_a_list() {
    assert_eq!(middle_of(0), Middle::Nowhere);
    assert_eq!(middle_of(1), Middle::At(0));
    assert_eq!(middle_of(2), Middle::AtAndNext(0));
    assert_eq!(middle_of(5), Middle::At(2));
    assert_eq!(middle_of(6), Middle::AtAndNext(2));
    assert_eq!(middle_of(usize::MAX), Middle::At(usize::MAX / 2));
}

#[test]
fn medians_of_ordered_numbers() {
    assert_eq!(median_u32(&Vec::new()), Median::Nothing);
    assert_eq!(median_u32(&vec![7]), Median::Value(7));
    assert_eq!(median_u32(&vec![1, 4]), Median::HalfOf(5));
    assert_eq!(median_u32(&vec![1, 4, 9]), Median::Value(4));
}

#[test]
fn statistics_of_frequencies() {
    let s = frequency_stats(&vec![30, 10, 20, 10]);
    assert_eq!((s.count, s.min, s.max, s.sum), (4, 10, 30, 70));
    assert_eq!(s.median, Median::HalfOf(30));
    let s = frequency_stats(&Vec::new());
    assert_eq!((s.count, s.min, s.max, s.sum, s.median), (0, 0, 0, 0, Median::Nothing));
}

#[test]
fn statistics_of_samples() {
    let stats = calculate_stats(&vec![sample(2), sample(0), sample(1)]);
    assert_eq!(stats.sample_count, 3);
    assert_eq!(stats.efficiency_cores.frequency.min, 100);
    assert_eq!(stats.efficiency_cores.frequency.max, 102);
    assert_eq!(stats.efficiency_cores.frequency.median, Median::Value(101));
    assert_eq!(stats.performance_cores.frequency.sum, 597);
    assert_eq!(stats.gpu.frequency.median, Median::Value(300));
    assert_eq!(singles(&stats.efficiency_cores.usage.sorted), vec![10.0, 11.0, 12.0]);
    assert_eq!(singles(&stats.performance_cores.usage.sorted), vec![18.0, 19.0, 20.0]);
    assert_eq!(singles(&stats.gpu.usage.sorted), vec![30.0; 3]);
    assert_eq!(singles(&stats.ram.sorted), vec![0.0, 1.0, 2.0]);
    assert_eq!(singles(&stats.swap.sorted), vec![-2.0, -1.0, 0.0]);
    assert_eq!(singles(&stats.cpu_power.sorted), vec![1.0 / 3.0, 0.5, 1.0]);
    assert_eq!(singles(&stats.gpu_power.sorted), vec![0.0, 1.0, 4.0]);
    assert_eq!(singles(&stats.ane_power.sorted), vec![0.0; 3]);
    assert_eq!(stats.ram.middle, Middle::At(1));
    assert_eq!(calculate_stats(&Vec::new()).sample_count, 0);
}

#[test]
fn a_monitor_gathers_samples() {
    let mut m = MetricsMonitor::new(true);
    assert!(!m.running);
    assert_eq!(m.start(Ok(hardware(0, 4))), None);
    assert!(m.running);
    m.record(sample(1));
    m.halt();
    assert!(!m.running);
    m.record(sample(2));
    let stats = m.stop().unwrap();
    assert_eq!(stats.sample_count, 2);
    assert_eq!(m.hardware, Some(hardware(0, 4)));
}

#[test]
fn hardware_without_cores_is_not_kept() {
    let mut m = MetricsMonitor::new(true);
    assert_eq!(
        m.start(Ok(hardware(0, 0))),
        Some(one(
            Stream::Stderr,
            plain("Warning: Could not retrieve valid CPU core information from macmon")
        ))
    );
    assert_eq!(m.hardware, None);
    assert_eq!(
        m.start(Err("no access".to_string())),
        Some(one(
            Stream::Stderr,
            plain("Warning: Failed to create sampler for hardware info: no access")
        ))
    );
    assert_eq!(m.hardware, None);
}

#[test]
fn nothing_is_measured_where_nothing_can_be() {
    let mut m = MetricsMonitor::new(false);
    assert_eq!(m.start(Ok(hardware(4, 4))), None);
    assert_eq!(m, MetricsMonitor::new(false));
    assert_eq!(
        m.stop(),
        Err("System metrics monitoring is only available on macOS".to_string())
    );
}

#[test]
fn the_ends_of_a_series_are_its_extremes() {
    let series = arrange(&vec![single(2.0), single(-3.5), single(1.0)]);
    assert_eq!(ends_of(&series), Some((single(-3.5), single(2.0))));
    assert_eq!(ends_of(&arrange(&vec![7u32])), Some((7, 7)));
    assert_eq!(ends_of(&arrange(&Vec::<u32>::new())), None);
}

#[test]
fn the_median_has_half_of_the_numbers_on_either_side() {
    for list in [vec![5u32], vec![9, 1], vec![4, 4, 1], vec![8, 2, 6, 4], vec![3, 3, 3, 3, 9, 1]] {
        let series = arrange(&list);
        let (low, high) = match series.middle {
            Middle::At(i) => (series.sorted[i], series.sorted[i]),
            Middle::AtAndNext(i) => (series.sorted[i], series.sorted[i + 1]),
            Middle::Nowhere => unreachable!(),
        };
        assert!(2 * list.iter().filter(|v| **v <= low).count() >= list.len());
        assert!(2 * list.iter().filter(|v| **v >= high).count() >= list.len());
    }
}

#[test]
fn the_order_of_samples_plays_no_part() {
    let samples = [sample(3), sample(0), sample(2), sample(5)];
    let expected = calculate_stats(&samples.to_vec());
    for order in [[1, 0, 3, 2], [3, 2, 1, 0], [2, 3, 0, 1]] {
        let mixed: Vec<Sample> = order.iter().map(|&i| samples[i]).collect();
        let got = calculate_stats(&mixed);
        assert_eq!(got.efficiency_cores.frequency, expected.efficiency_cores.frequency);
        assert_eq!(got.performance_cores, expected.performance_cores);
        assert_eq!(got.gpu, expected.gpu);
        assert_eq!(got.ram, expected.ram);
        assert_eq!(got.swap, expected.swap);
        assert_eq!(got.cpu_power, expected.cpu_power);
        assert_eq!(got.gpu_power, expected.gpu_power);
        assert_eq!(got.sample_count, 4);
    }
}
