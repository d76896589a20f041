use bizclaw::ffi::{get_version, rss_from_status, DaemonState};

#[test]
fn test_get_version() {
    let v = get_version();
    assert!(!v.is_empty());
}

#[test]
fn daemon_start_stop() {
    let mut d = DaemonState::new();
    let s = d.status(123);
    assert!(!s.running);
    assert_eq!(s.memory_bytes, 0);
    assert_eq!(d.send_message("hi").response, "Daemon not running");
    assert_eq!(d.stop(), Err("Daemon not running".to_string()));
    assert_eq!(d.start(), Ok(()));
    assert_eq!(d.start(), Err("Daemon already running".to_string()));
    let r = d.send_message("hi");
    assert!(r.success);
    assert_eq!(r.response, "Echo: hi");
    assert_eq!(r.agent, "default");
    assert_eq!(d.status(123).memory_bytes, 123);
    assert_eq!(d.stop(), Ok(()));
    assert_eq!(d.status(0).version, "0.1.0");
}

#[test]
fn resident_memory_from_status() {
    let status = "Name:\tapp\nVmPeak:\t  2000 kB\nVmRSS:\t  1234 kB\nThreads: 4\n";
    assert_eq!(rss_from_status(status), Some(1234 * 1024));
    assert_eq!(rss_from_status("VmRSS:\n VmRSS: x\nVmRSS: 7 kB"), Some(7 * 1024));
    assert_eq!(rss_from_status("nothing here"), None);
}

#[test]
fn test_get_status_not_running() {
    let d = DaemonState::new();
    let status = d.status(4096);
    assert_eq!(status.running, false);
}

#[test]
fn test_send_message_not_running() {
    let d = DaemonState::new();
    let resp = d.send_message("hello");
    assert_eq!(resp.success, false);
}
