use netty::bench::comparison::{accounts, Client, Diagnostics, Echo};
use netty::bench::matrix::{admits_body, combine, plan, proto_name, Case, Filter, Measurement, Mode};
use netty::bench::samples::Samples;
use std::time::Duration;

#[test]
fn percentiles_are_upper_ends() {
    let mut samples = Samples::new();
    assert_eq!(samples.percentile(50), 0);
    for micros in [1, 2, 3, 64, 65, 66, 1000] {
        samples.record(Duration::from_micros(micros));
    }
    assert_eq!(samples.total, 7);
    assert_eq!(samples.percentile(1), 1);
    assert_eq!(samples.percentile(50), 65);
    assert_eq!(samples.percentile(70), 65);
    assert_eq!(samples.percentile(80), 67);
    // 1000 = 62 * 16 + 8 shares a bucket with 992..=1007.
    assert_eq!(samples.percentile(100), 1007);
    assert_eq!(samples.percentile(200), u64::MAX);
}

#[test]
fn largest_times_are_recorded() {
    let mut samples = Samples::new();
    samples.record(Duration::MAX);
    assert_eq!(samples.percentile(99), u64::MAX);
    let mut exact = Samples::new();
    exact.record_micros(u128::from(u64::MAX));
    assert_eq!(exact.percentile(99), u64::MAX);
    let mut half = Samples::new();
    half.record_micros(1 << 63);
    assert_eq!(half.percentile(99), (33 << 58) - 1);
}

#[test]
fn merged_histograms_add_up() {
    let mut first = Samples::new();
    let mut second = Samples::new();
    first.record_micros(10);
    second.record_micros(20);
    second.record_micros(30);
    first.merge(second);
    assert_eq!(first.total, 3);
    assert_eq!(first.percentile(34), 20);
    assert_eq!(first.percentile(100), 30);
}

const ALL: Filter = Filter {
    mode: None,
    total: None,
    proto: None,
};

#[test]
fn plans_alternate_the_first_client() {
    let cases = plan(2, ALL);
    assert_eq!(cases.len(), 44);
    assert_eq!(
        cases[0],
        Case {
            proto: false,
            round: 0,
            mode: Mode::Single,
            total: 1
        }
    );
    assert!(cases[1].proto);
    assert!(cases[22].proto && cases[22].round == 1);
    let totals: Vec<_> = cases[..22]
        .iter()
        .step_by(2)
        .map(|case| (case.mode.name(), case.total, case.concurrency()))
        .collect();
    assert_eq!(
        totals,
        [
            ("single", 1, 1),
            ("single", 4, 4),
            ("single", 32, 32),
            ("single", 128, 128),
            ("shared", 1, 1),
            ("shared", 4, 4),
            ("shared", 32, 32),
            ("shared", 128, 128),
            ("sharded", 4, 1),
            ("sharded", 32, 8),
            ("sharded", 128, 32),
        ]
    );
    assert_eq!(Mode::Single.threads(), 1);
    assert_eq!((Mode::Shared.threads(), Mode::Shared.connections()), (4, 1));
    assert_eq!((Mode::Sharded.threads(), Mode::Sharded.connections()), (4, 4));
}

#[test]
fn filters_keep_what_they_name() {
    let filter = Filter {
        mode: Some(Mode::Sharded),
        total: Some(32),
        proto: Some(true),
    };
    assert_eq!(
        plan(3, filter),
        (0..3)
            .map(|round| Case {
                proto: true,
                round,
                mode: Mode::Sharded,
                total: 32
            })
            .collect::<Vec<_>>()
    );
    assert!(plan(3, Filter { total: Some(2), ..ALL }).is_empty());
    assert!(plan(0, ALL).is_empty());
}

#[test]
fn measurements_span_all_workers() {
    let worker = |started, finished, micros| {
        let mut samples = Samples::new();
        samples.record_micros(micros);
        Measurement {
            samples,
            started,
            finished,
        }
    };
    let all = combine(vec![worker(5, 20, 1), worker(3, 9, 2), worker(4, 30, 3)]);
    assert_eq!((all.started, all.finished), (3, 30));
    assert_eq!(all.samples.total, 3);
    assert_eq!(all.samples.percentile(100), 3);
}

#[test]
fn comparisons_take_turns() {
    let plain = Diagnostics {
        direct_tasks: false,
        direct_clone: false,
        profiling: false,
    };
    assert!(plain.is_valid());
    assert_eq!(plain.clients_of_round(0), [Client::Direct, Client::Proto]);
    assert_eq!(plain.clients_of_round(1), [Client::Proto, Client::Direct]);
    let clone = Diagnostics {
        direct_clone: true,
        ..plain
    };
    assert_eq!(
        clone.clients_of_round(3),
        [Client::Proto, Client::Cloned, Client::Direct]
    );
    let tasks = Diagnostics {
        direct_tasks: true,
        ..plain
    };
    assert_eq!(tasks.clients_of_round(2), [Client::Task, Client::Proto]);
    assert_eq!(Client::Task.name(), "http3-task");
    assert!(!Diagnostics {
        direct_tasks: true,
        ..clone
    }
    .is_valid());
    assert!(!Diagnostics {
        profiling: true,
        ..tasks
    }
    .is_valid());
}

#[test]
fn echoes_must_be_right_and_complete() {
    let mut echo = Echo::new(5);
    assert!(echo.data(&[7, 7, 7]));
    assert!(!echo.is_complete());
    assert!(!echo.data(&[7, 8]));
    assert!(!echo.data(&[7, 7, 7]));
    assert!(echo.data(&[7, 7]));
    assert!(echo.is_complete());
}

#[test]
fn completed_requests_are_the_recorded_ones() {
    assert!(accounts(30, 10, 20));
    assert!(!accounts(29, 10, 20));
    assert!(!accounts(0, u64::MAX, 1));
}

#[test]
fn matrix_admits_two_body_sizes() {
    assert!(admits_body(0));
    assert!(admits_body(4096));
    assert!(!admits_body(4095));
    assert_eq!(proto_name(), "wreq-proto");
}

#[test]
fn percentiles_are_close_to_the_samples() {
    let mut samples = Samples::new();
    let mut times: Vec<u64> = (0..1000u64).map(|n| n * n * n).collect();
    for &time in times.iter().rev() {
        samples.record(Duration::from_micros(time));
    }
    times.sort();
    for percent in [1, 10, 50, 99, 100] {
        let exact = times[percent as usize * 10 - 1];
        let reported = samples.percentile(percent);
        assert!(exact <= reported);
        assert!((reported - exact) * 32 <= exact);
    }
}
