use timehist::histogram::{Bucket, ConfigError, Histogram, Stats};
use timehist::paint::Decor;
use timehist::writer::HistWriter;

fn milli(x: f64) -> i64 {
    (x * 1000.0).round() as i64
}

fn millis(xs: &[f64]) -> Vec<i64> {
    xs.iter().map(|x| milli(*x)).collect()
}

fn sample_histogram() -> Histogram {
    let stats = Stats::new(&millis(&[-2.0, 14.0])).unwrap();
    let mut hist = Histogram::new(8, milli(2.5), stats).unwrap();
    hist.load(&millis(&[
        -1.0, -1.1, 2.0, 2.0, 2.1, -0.9, 11.0, 11.2, 1.9, 1.99, 1.98, 1.97, 1.96,
    ]));
    hist
}

fn counts(hist: &Histogram) -> Vec<usize> {
    (0..hist.size()).map(|i| hist.bucket(i).count).collect()
}

#[test]
fn basic_test() {
    let stats = Stats::new(&millis(&[-2.0, 14.0])).unwrap();
    let mut hist = Histogram::new(8, milli(2.5), stats).unwrap();
    hist.load(&millis(&[
        -1.0, -1.1, 2.0, 2.0, 2.1, -0.9, 11.0, 11.2, 1.9, 1.99, 1.98, 1.97, 1.96,
    ]));

    assert_eq!(hist.top(), 8);
    let bucket: Bucket = hist.bucket(0);
    assert_eq!((bucket.start, bucket.end), (milli(-2.0), milli(0.5)));
    assert_eq!(bucket.count, 3);
    let bucket: Bucket = hist.bucket(1);
    assert_eq!(bucket.count, 8);
    assert_eq!((bucket.start, bucket.end), (milli(0.5), milli(3.0)));
}

#[test]
fn display_test() {
    let stats = Stats::new(&millis(&[-2.0, 14.0])).unwrap();
    let mut hist = Histogram::new(8, milli(2.5), stats).unwrap();
    hist.load(&millis(&[
        -1.0, -1.1, 2.0, 2.0, 2.1, -0.9, 11.0, 11.2, 1.9, 1.99, 1.98, 1.97, 1.96,
    ]));
    yansi::Paint::disable();
    let display = hist.fmt(None);
    assert!(display.find("[-2.000 ..  0.500] [3] ∎∎∎\n").is_some());
    assert!(display.find("[ 0.500 ..  3.000] [8] ∎∎∎∎∎∎∎∎\n").is_some());
    assert!(display.find("[10.500 .. 13.000] [2] ∎∎\n").is_some());
}

#[test]
fn bucket_counts_from_zero() {
    let mut bucket = Bucket::new(-2000, 500);
    assert_eq!((bucket.start, bucket.end, bucket.count), (-2000, 500, 0));
    bucket.inc();
    bucket.inc();
    assert_eq!((bucket.start, bucket.end, bucket.count), (-2000, 500, 2));
}

#[test]
fn stats_are_the_extremes() {
    let stats = Stats::new(&[5, -3, 12, 0]).unwrap();
    assert_eq!((stats.min, stats.max), (-3, 12));
    let one = Stats::new(&[7]).unwrap();
    assert_eq!((one.min, one.max), (7, 7));
    assert!(Stats::new(&[]).is_none());
}

#[test]
fn new_rejects_zero_size() {
    let stats = Stats { min: 0, max: 10 };
    assert_eq!(Histogram::new(0, 1000, stats).err(), Some(ConfigError::ZeroSize));
    assert_eq!(Histogram::new(0, 0, stats).err(), Some(ConfigError::ZeroSize));
}

#[test]
fn new_rejects_step_that_is_not_positive() {
    let stats = Stats { min: 0, max: 10 };
    assert_eq!(Histogram::new(4, 0, stats).err(), Some(ConfigError::NonPositiveStep));
    assert_eq!(Histogram::new(4, -1, stats).err(), Some(ConfigError::NonPositiveStep));
}

#[test]
fn new_rejects_range_beyond_the_value_type() {
    let stats = Stats { min: i64::MAX - 5, max: i64::MAX };
    assert_eq!(Histogram::new(3, 2, stats).err(), Some(ConfigError::RangeOverflow));
    let fits = Histogram::new(5, 1, stats).unwrap();
    assert_eq!(fits.max(), i64::MAX);
}

#[test]
fn new_builds_empty_contiguous_buckets() {
    let hist = Histogram::new(8, 2500, Stats { min: -2000, max: 14000 }).unwrap();
    assert_eq!(hist.size(), 8);
    assert_eq!(hist.min(), -2000);
    assert_eq!(hist.step(), 2500);
    assert_eq!(hist.max(), 18000);
    assert_eq!(hist.top(), 0);
    assert_eq!(hist.bucket(0).start, hist.min());
    assert_eq!(hist.bucket(7).end, hist.max());
    for i in 0..8 {
        let b = hist.bucket(i);
        assert_eq!(b.start, -2000 + 2500 * i as i64);
        assert_eq!(b.end, b.start + 2500);
        assert_eq!(b.count, 0);
        if i + 1 < 8 {
            assert_eq!(b.end, hist.bucket(i + 1).start);
        }
    }
}

#[test]
fn find_slot_rounds_down_and_clamps() {
    let hist = Histogram::new(8, 2500, Stats { min: -2000, max: 14000 }).unwrap();
    assert_eq!(hist.find_slot(-2000), Some(0));
    assert_eq!(hist.find_slot(499), Some(0));
    assert_eq!(hist.find_slot(500), Some(1));
    assert_eq!(hist.find_slot(15499), Some(6));
    assert_eq!(hist.find_slot(15500), Some(7));
    assert_eq!(hist.find_slot(17999), Some(7));
    assert_eq!(hist.find_slot(18000), Some(7));
    assert_eq!(hist.find_slot(18001), None);
    assert_eq!(hist.find_slot(-2001), None);
}

#[test]
fn find_slot_spans_the_whole_value_type() {
    let hist = Histogram::new(2, i64::MAX, Stats { min: i64::MIN + 1, max: 0 }).unwrap();
    assert_eq!(hist.max(), i64::MAX);
    assert_eq!(hist.find_slot(i64::MIN), None);
    assert_eq!(hist.find_slot(i64::MIN + 1), Some(0));
    assert_eq!(hist.find_slot(-1), Some(0));
    assert_eq!(hist.find_slot(0), Some(1));
    assert_eq!(hist.find_slot(i64::MAX), Some(1));
}

#[test]
fn add_within_range_raises_one_count_by_one() {
    let mut hist = sample_histogram();
    for v in [-2000i64, 0, 499, 500, 7777, 17999, 18000] {
        let before = counts(&hist);
        hist.add(v);
        let after = counts(&hist);
        let slot = hist.find_slot(v).unwrap();
        for i in 0..hist.size() {
            if i == slot {
                assert_eq!(after[i], before[i] + 1);
            } else {
                assert_eq!(after[i], before[i]);
            }
        }
    }
}

#[test]
fn add_outside_range_changes_nothing() {
    let mut hist = sample_histogram();
    let before = counts(&hist);
    let top = hist.top();
    hist.add(-2001);
    hist.add(18001);
    hist.add(i64::MIN);
    hist.add(i64::MAX);
    assert_eq!(counts(&hist), before);
    assert_eq!(hist.top(), top);
}

#[test]
fn sample_equal_to_max_lands_in_last_bucket() {
    let mut hist = Histogram::new(8, 2500, Stats { min: -2000, max: 14000 }).unwrap();
    hist.add(hist.max());
    assert_eq!(counts(&hist), vec![0, 0, 0, 0, 0, 0, 0, 1]);
    assert_eq!(hist.top(), 1);
}

#[test]
fn load_counts_the_values_within_range() {
    let mut hist = Histogram::new(4, 10, Stats { min: 0, max: 40 }).unwrap();
    let values = [-1i64, 0, 5, 10, 39, 40, 41, 100, 25, -50, 25];
    hist.load(&values);
    let within = values.iter().filter(|v| 0 <= **v && **v <= 40).count();
    assert_eq!(within, 7);
    assert_eq!(counts(&hist).iter().sum::<usize>(), within);
    assert_eq!(counts(&hist), vec![2, 1, 2, 2]);
}

#[test]
fn load_is_add_in_order() {
    let values = [3i64, 17, 17, 40, -2, 39, 8];
    let mut loaded = Histogram::new(4, 10, Stats { min: 0, max: 40 }).unwrap();
    loaded.load(&values);
    let mut added = Histogram::new(4, 10, Stats { min: 0, max: 40 }).unwrap();
    for v in values {
        added.add(v);
    }
    assert_eq!(counts(&loaded), counts(&added));
    assert_eq!(loaded.top(), added.top());
    loaded.load(&[]);
    assert_eq!(counts(&loaded), counts(&added));
}

#[test]
fn top_is_the_largest_count() {
    let mut hist = Histogram::new(4, 10, Stats { min: 0, max: 40 }).unwrap();
    assert_eq!(hist.top(), 0);
    for v in [1i64, 11, 12, 35, 36, 37, 2, 100, 38] {
        hist.add(v);
        assert_eq!(hist.top(), *counts(&hist).iter().max().unwrap());
    }
    assert_eq!(hist.top(), 4);
    assert_eq!(sample_histogram().top(), 8);
}

#[test]
fn sample_scenario_has_upper_bound_eighteen() {
    let hist = sample_histogram();
    assert_eq!(hist.max(), milli(18.0));
    assert_eq!(counts(&hist), vec![3, 8, 0, 0, 0, 2, 0, 0]);
}

#[test]
fn rendering_does_not_touch_the_histogram() {
    let hist = sample_histogram();
    let before = counts(&hist);
    let writer = HistWriter { width: 110 };
    let _ = writer.write(&hist, Decor::Plain);
    let _ = writer.write(&hist, Decor::Plain);
    assert_eq!(counts(&hist), before);
    assert_eq!(hist.top(), 8);
}
