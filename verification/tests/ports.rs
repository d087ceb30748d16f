use port_scanner::ports::{PortSet, PortSpecError, MAX_PORT};

#[test]
fn lone_zero_is_every_port() {
    let set = PortSet::normalize(&vec![0]).unwrap();
    assert_eq!(set.start(), 0);
    assert_eq!(set.end(), 65535);
    assert_eq!(set.len(), 65536);
}

#[test]
fn lone_port_is_itself() {
    for port in [1u16, 22, 80, 8080, 65535] {
        let set = PortSet::normalize(&vec![port]).unwrap();
        assert_eq!(set.start(), port);
        assert_eq!(set.end(), port);
        assert_eq!(set.len(), 1);
    }
}

#[test]
fn two_ports_are_a_range() {
    let set = PortSet::normalize(&vec![20, 25]).unwrap();
    assert_eq!((set.start(), set.end()), (20, 25));
    assert_eq!(set.len(), 6);
}

#[test]
fn two_ports_out_of_order_are_swapped() {
    let set = PortSet::normalize(&vec![443, 80]).unwrap();
    assert_eq!((set.start(), set.end()), (80, 443));
    assert_eq!(set.len(), 364);
}

#[test]
fn zero_in_a_pair_is_an_ordinary_port() {
    let set = PortSet::normalize(&vec![0, 0]).unwrap();
    assert_eq!((set.start(), set.end()), (0, 0));
    let set = PortSet::normalize(&vec![0, 80]).unwrap();
    assert_eq!((set.start(), set.end()), (0, 80));
    let set = PortSet::normalize(&vec![80, 0]).unwrap();
    assert_eq!((set.start(), set.end()), (0, 80));
}

#[test]
fn no_port_is_refused() {
    assert_eq!(PortSet::normalize(&vec![]).err(), Some(PortSpecError::NoPorts));
}

#[test]
fn three_ports_are_refused() {
    assert_eq!(PortSet::normalize(&vec![1, 2, 3]).err(), Some(PortSpecError::TooManyPorts));
}

#[test]
fn range_lists_each_port_once() {
    let set = PortSet::new(8080, 8082);
    let listed: Vec<u16> = (0..set.len()).map(|i| set.port_at(i)).collect();
    assert_eq!(listed, vec![8080, 8081, 8082]);
    assert!(set.contains(8080) && set.contains(8081) && set.contains(8082));
    assert!(!set.contains(8079) && !set.contains(8083));
}

#[test]
fn full_range_ends() {
    let set = PortSet::full();
    assert_eq!(set.start(), 0);
    assert_eq!(set.end(), MAX_PORT);
    assert_eq!(set.port_at(0), 0);
    assert_eq!(set.port_at(65535), 65535);
    assert!(set.contains(0) && set.contains(65535));
}
