use clerestory::error::ClerestoryError;
use clerestory::exit_codes::{EX_DATAERR, EX_IOERR, EX_SOFTWARE, EX_UNAVAILABLE, EX_USAGE};

#[test]
fn test_sysexits_values() {
    assert_eq!(EX_USAGE, 64);
    assert_eq!(EX_DATAERR, 65);
    assert_eq!(EX_UNAVAILABLE, 69);
    assert_eq!(EX_SOFTWARE, 70);
    assert_eq!(EX_IOERR, 74);
}

#[test]
fn test_exit_codes() {
    let e = ClerestoryError::MissingPrerequisite { name: "swtpm".to_string(), install_hint: "dnf install swtpm".to_string() };
    assert_eq!(e.exit_code(), EX_UNAVAILABLE);
    assert_eq!(ClerestoryError::TopologyCapacityError { requested: 20, available: 16 }.exit_code(), EX_DATAERR);
    assert_eq!(ClerestoryError::ProbeError { path: "p".to_string(), message: "m".to_string() }.exit_code(), EX_SOFTWARE);
    assert_eq!(ClerestoryError::IoError { path: "p".to_string(), message: "m".to_string() }.exit_code(), EX_IOERR);
    assert_eq!(ClerestoryError::ValidationError("v".to_string()).exit_code(), 64);
    assert_eq!(ClerestoryError::TopologyCapacityError { requested: 1, available: 0 }.exit_code(), 65);
    assert_eq!(ClerestoryError::SlipstreamError("s".to_string()).exit_code(), EX_DATAERR);
    assert_eq!(ClerestoryError::UnsupportedPlatform("u".to_string()).exit_code(), EX_UNAVAILABLE);
}

#[test]
fn test_error_messages() {
    let e = ClerestoryError::MissingPrerequisite { name: "swtpm".to_string(), install_hint: "dnf install swtpm".to_string() };
    assert_eq!(e.message(), "Hardware prerequisite missing: swtpm (Hint: dnf install swtpm)");
    assert_eq!(
        ClerestoryError::TopologyCapacityError { requested: 20, available: 16 }.message(),
        "CPU topology error: requested 20 vCPUs, but single cache domain only provides 16"
    );
    assert_eq!(ClerestoryError::ValidationError("bad".to_string()).message(), "Validation error: bad");
}
