use std::time::Duration;

use udp_netmsg::Builder;

#[test]
fn defaults() {
    let b = Builder::init();
    assert_eq!(b.get_buffer_len(), 100);
    assert_eq!(b.get_socket(), "0.0.0.0:39507");
    assert!(b.is_non_blocking());
    assert_eq!(b.get_read_timeout(), None);
    assert!(b.uses_ids());
}

#[test]
fn setters_change_one_setting() {
    let b = Builder::init().buffer_len(512).socket(String::from("0.0.0.0:50010")).use_ids(false);
    assert_eq!(b.get_buffer_len(), 512);
    assert_eq!(b.get_socket(), "0.0.0.0:50010");
    assert!(!b.uses_ids());
    assert!(b.is_non_blocking());
}

#[test]
fn timeout_forces_blocking() {
    let b = Builder::init().read_timeout(Some(Duration::from_millis(5)));
    assert!(!b.is_non_blocking());
    assert_eq!(b.get_read_timeout(), Some(Duration::from_millis(5)));
}

#[test]
fn no_timeout_keeps_blocking_mode() {
    let b = Builder::init().read_timeout(None);
    assert!(b.is_non_blocking());
    assert_eq!(b.get_read_timeout(), None);
}

#[test]
fn non_blocking_clears_timeout() {
    let b = Builder::init().read_timeout(Some(Duration::from_millis(5))).non_blocking(true);
    assert!(b.is_non_blocking());
    assert_eq!(b.get_read_timeout(), None);
    let c = Builder::init().read_timeout(Some(Duration::from_millis(5))).non_blocking(false);
    assert_eq!(c.get_read_timeout(), Some(Duration::from_millis(5)));
}
