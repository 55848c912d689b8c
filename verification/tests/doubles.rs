use repo_analyzer::i18n::Catalog;
use repo_analyzer::double::Double;
use repo_analyzer::metrics::{bloat, large_sources};
use repo_analyzer::output::cells::format_value;
use repo_analyzer::types::MetricValue;

fn shown(v: MetricValue) -> String {
    format_value(&Catalog::load("en"), &v)
}

/// Numbers of all sizes, the same ones each time.
fn numbers(count: usize) -> Vec<u64> {
    let mut x: u64 = 0x9e37_79b9_7f4a_7c15;
    (0..count)
        .map(|i| {
            x ^= x << 13;
            x ^= x >> 7;
            x ^= x << 17;
            x >> (i % 64)
        })
        .collect()
}

#[test]
fn ties_go_where_the_nearest_double_lies() {
    assert_eq!(shown(MetricValue::Ratio { num: 13, den: 40 }), "0.33");
    assert_eq!(shown(MetricValue::Ratio { num: 1, den: 200 }), "0.01");
    assert_eq!(shown(MetricValue::Ratio { num: 1, den: 8 }), "0.12");
    assert_eq!(shown(MetricValue::Ratio { num: 3, den: 8 }), "0.38");
    assert_eq!(shown(MetricValue::Percent { num: 1, den: 3 }), "33.33");
    assert_eq!(shown(MetricValue::PerYear { count: 1, days: 0 }), "1.00");
}

#[test]
fn small_quotients_are_shown_as_doubles() {
    for num in 0..260u64 {
        for den in 1..260u64 {
            let q = num as f64 / den as f64;
            assert_eq!(shown(MetricValue::Ratio { num, den }), format!("{q:.2}"));
            assert_eq!(shown(MetricValue::Percent { num, den }), format!("{:.2}", q * 100.0));
            let rate = num as f64 / (den as f64 / 365.25);
            assert_eq!(shown(MetricValue::PerYear { count: num, days: den }), format!("{rate:.2}"));
        }
    }
}

#[test]
fn quotients_of_all_sizes_are_shown_as_doubles() {
    let n = numbers(4000);
    for pair in n.windows(2) {
        let (num, den) = (pair[0], pair[1].max(1));
        let q = num as f64 / den as f64;
        assert_eq!(shown(MetricValue::Ratio { num, den }), format!("{q:.2}"));
        assert_eq!(shown(MetricValue::Percent { num, den }), format!("{:.2}", q * 100.0));
        let rate = num as f64 / (den as f64 / 365.25);
        assert_eq!(shown(MetricValue::PerYear { count: num, days: den }), format!("{rate:.2}"));
    }
}

#[test]
fn operations_agree_with_doubles() {
    let n = numbers(4000);
    for pair in n.windows(2) {
        let (a, b) = (pair[0], pair[1].max(1));
        let (x, y) = (a as f64, b as f64);
        let q = Double::share(a, b);
        assert_eq!(q.truncated(), (x / y) as u64);
        assert_eq!(q.nearest_whole(), (x / y).round() as u64);
        assert_eq!(Double::of(a).is_less(Double::of(b)), x < y);
        assert_eq!(Double::majority(a, b), x > y * 0.5);
        assert_eq!(Double::of(a).times(Double::fraction(95, 100)).truncated(), (x * 0.95) as u64);
        assert_eq!(Double::of(a).times(Double::of(10)).truncated(), (x * 10.0) as u64);
        assert_eq!(q.is_less(Double::fraction(3, 10)), x / y < 0.3);
    }
}

#[test]
fn sizes_are_shown_as_doubles() {
    for n in numbers(2000) {
        let x = n as f64;
        let bloated = if n >= 1 << 30 {
            format!("{:.2} GB", x / 1_073_741_824.0)
        } else if n >= 1 << 20 {
            format!("{:.2} MB", x / 1_048_576.0)
        } else if n >= 1024 {
            format!("{:.2} KB", x / 1024.0)
        } else {
            format!("{n} B")
        };
        assert_eq!(bloat::human_size(n), bloated);
        let large = if n >= 1 << 20 {
            format!("{:.2} MB", x / 1_048_576.0)
        } else if n >= 1024 {
            format!("{:.1} KB", x / 1024.0)
        } else {
            format!("{n} B")
        };
        assert_eq!(large_sources::human_size(n), large);
    }
}
