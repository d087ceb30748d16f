use port_scanner::options::{get_ip, get_options, Options, ScanTarget};
use port_scanner::report::ScanReport;
use port_scanner::scan::{Action, Scan, ScanError};

fn options(ports: &[&str], workers: &str, table: &str) -> Options {
    let ports: Vec<String> = ports.iter().map(|port| port.to_string()).collect();
    get_options(&ports, "localhost", workers, 500_000_000, None, table).ok().unwrap()
}

fn target() -> ScanTarget {
    get_ip("localhost", &vec![String::from("127.0.0.1")]).unwrap()
}

/// Drives a scan to its end. Probes end in the order that `pick` chooses
/// among those in flight; a port is open where `accepts` says so. Gives the
/// report, the ports in the order they were probed, and the greatest number
/// of probes that were in flight at once.
fn run(
    options: Options,
    accepts: &dyn Fn(u16) -> bool,
    pick: &dyn Fn(&Vec<u16>) -> usize,
) -> (ScanReport, Vec<u16>, usize) {
    let mut scan = Scan::new(options, target(), 1_000);
    let mut flying: Vec<u16> = Vec::new();
    let mut probed: Vec<u16> = Vec::new();
    let mut most = 0;
    loop {
        match scan.next_action() {
            Action::Probe(port) => {
                flying.push(port);
                probed.push(port);
                assert_eq!(scan.active_count(), flying.len());
                most = most.max(flying.len());
            }
            Action::Wait => {
                let port = flying.remove(pick(&flying));
                let notice = scan.on_result(port, accepts(port)).unwrap();
                assert_eq!(notice.is_some(), accepts(port));
                if let Some(line) = notice {
                    assert_eq!(line, format!("[+] Open Port: {}", port));
                }
            }
            Action::Finish => break,
        }
    }
    assert!(flying.is_empty());
    assert!(scan.is_done());
    (scan.finish(3_000).unwrap(), probed, most)
}

fn first(_flying: &Vec<u16>) -> usize {
    0
}

fn last(flying: &Vec<u16>) -> usize {
    flying.len() - 1
}

fn middle(flying: &Vec<u16>) -> usize {
    flying.len() / 2
}

#[test]
fn one_listener_in_a_range_of_three() {
    let (report, probed, _) = run(options(&["8080", "8082"], "4", "{}"), &|port| port == 8081, &first);
    assert_eq!(probed, vec![8080, 8081, 8082]);
    assert_eq!(report.ports(), &vec![8081]);
    assert_eq!(report.open_ports(), &vec![String::from("8081 ")]);
    assert_eq!(report.hostname(), "localhost");
    assert_eq!(report.elapsed_nanos(), 2_000);
}

#[test]
fn listed_service_is_named() {
    let (report, probed, _) = run(options(&["80", "80"], "4", "{\"80\": \"http\"}"), &|_| true, &first);
    assert_eq!(probed, vec![80]);
    assert_eq!(report.open_ports(), &vec![String::from("80 http")]);
}

#[test]
fn each_port_is_probed_once() {
    for (a, b, workers) in [("1", "1", "1"), ("20", "25", "2"), ("100", "1", "7"), ("65000", "65535", "64")] {
        let (_, probed, _) = run(options(&[a, b], workers, "{}"), &|_| false, &middle);
        let low: u16 = a.parse::<u16>().unwrap().min(b.parse().unwrap());
        let high: u16 = a.parse::<u16>().unwrap().max(b.parse().unwrap());
        let expected: Vec<u16> = (low..=high).collect();
        assert_eq!(probed.len(), (high - low) as usize + 1);
        assert_eq!(probed, expected);
    }
}

#[test]
fn lone_zero_probes_every_port() {
    let (report, probed, most) = run(options(&["0"], "200", "{}"), &|port| port % 1000 == 7, &last);
    assert_eq!(probed.len(), 65536);
    assert_eq!(probed.first(), Some(&0));
    assert_eq!(probed.last(), Some(&65535));
    assert_eq!(most, 200);
    assert_eq!(report.ports().len(), 66);
}

#[test]
fn lone_port_is_one_probe() {
    let (report, probed, most) = run(options(&["443"], "8", "{\"443\": \"https\"}"), &|_| true, &first);
    assert_eq!(probed, vec![443]);
    assert_eq!(most, 1);
    assert_eq!(report.open_ports(), &vec![String::from("443 https")]);
}

#[test]
fn in_flight_probes_never_exceed_the_workers() {
    for workers in [1usize, 2, 3, 16, 50] {
        let (_, probed, most) = run(options(&["1", "40"], &workers.to_string(), "{}"), &|_| true, &middle);
        assert_eq!(probed.len(), 40);
        assert_eq!(most, workers.min(40));
    }
}

#[test]
fn reported_ports_lie_in_the_range() {
    let (report, probed, _) = run(options(&["10", "30"], "5", "{}"), &|port| port % 3 == 0, &last);
    assert!(report.ports().len() <= probed.len());
    assert!(report.ports().iter().all(|port| (10..=30).contains(port)));
    let mut found = report.ports().clone();
    found.sort();
    assert_eq!(found, vec![12, 15, 18, 21, 24, 27, 30]);
}

#[test]
fn scanning_twice_reports_the_same_set() {
    let accepts = |port: u16| port == 1 || port == 3 || port == 80;
    let (once, _, _) = run(options(&["1", "100"], "6", "{}"), &accepts, &first);
    let (again, _, _) = run(options(&["1", "100"], "6", "{}"), &accepts, &last);
    assert_eq!(once.ports(), &vec![1, 3, 80]);
    assert_eq!(again.ports(), &vec![80, 3, 1]);
    let mut a = once.ports().clone();
    let mut b = again.ports().clone();
    a.sort();
    b.sort();
    assert_eq!(a, b);
}

#[test]
fn entries_follow_the_order_of_completion() {
    let table = "{\"21\": \"ftp\", \"22\": \"ssh\", \"23\": \"telnet\"}";
    let (report, _, _) = run(options(&["21", "23"], "3", table), &|_| true, &last);
    assert_eq!(report.ports(), &vec![23, 22, 21]);
    assert_eq!(
        report.open_ports(),
        &vec![String::from("23 telnet"), String::from("22 ssh"), String::from("21 ftp")]
    );
}

#[test]
fn actions_of_a_small_scan() {
    let mut scan = Scan::new(options(&["80", "81"], "1", "{}"), target(), 0);
    assert_eq!(scan.target().ip(), "127.0.0.1");
    assert_eq!((scan.ports().start(), scan.ports().end()), (80, 81));
    assert!(!scan.is_done());
    assert_eq!(scan.next_action(), Action::Probe(80));
    assert_eq!(scan.next_action(), Action::Wait);
    assert_eq!(scan.next_action(), Action::Wait);
    assert_eq!(scan.active_count(), 1);
    assert_eq!(scan.on_result(80, true).unwrap(), Some(String::from("[+] Open Port: 80")));
    assert_eq!(scan.open_count(), 1);
    assert_eq!(scan.next_action(), Action::Probe(81));
    assert_eq!(scan.on_result(81, false).unwrap(), None);
    assert_eq!(scan.open_count(), 1);
    assert!(scan.is_done());
    assert_eq!(scan.next_action(), Action::Finish);
    assert_eq!(scan.next_action(), Action::Finish);
}

#[test]
fn unexpected_result_is_refused() {
    let mut scan = Scan::new(options(&["80", "82"], "2", "{}"), target(), 0);
    assert_eq!(scan.on_result(80, true).err(), Some(ScanError::UnexpectedResult));
    assert_eq!(scan.next_action(), Action::Probe(80));
    assert_eq!(scan.on_result(81, true).err(), Some(ScanError::UnexpectedResult));
    assert_eq!(scan.on_result(9, true).err(), Some(ScanError::UnexpectedResult));
    assert!(scan.on_result(80, true).is_ok());
    assert_eq!(scan.on_result(80, true).err(), Some(ScanError::UnexpectedResult));
    assert_eq!(scan.open_count(), 1);
    assert_eq!(scan.active_count(), 0);
}

#[test]
fn report_is_refused_while_scanning() {
    let scan = Scan::new(options(&["80"], "1", "{}"), target(), 0);
    assert_eq!(scan.finish(10).err(), Some(ScanError::StillScanning));
    let mut scan = Scan::new(options(&["80"], "1", "{}"), target(), 0);
    assert_eq!(scan.next_action(), Action::Probe(80));
    assert_eq!(scan.finish(10).err(), Some(ScanError::StillScanning));
}

#[test]
fn end_before_start_is_refused() {
    let mut scan = Scan::new(options(&["80"], "1", "{}"), target(), 100);
    assert_eq!(scan.next_action(), Action::Probe(80));
    assert!(scan.on_result(80, false).is_ok());
    assert_eq!(scan.finish(99).err(), Some(ScanError::ClockWentBack));
}

#[test]
fn end_at_start_takes_no_time() {
    let mut scan = Scan::new(options(&["80"], "1", "{}"), target(), 100);
    assert_eq!(scan.next_action(), Action::Probe(80));
    assert!(scan.on_result(80, false).is_ok());
    let report = scan.finish(100).unwrap();
    assert_eq!(report.elapsed_nanos(), 0);
    assert!(report.open_ports().is_empty());
}
