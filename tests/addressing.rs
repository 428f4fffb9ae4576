use daemon_rendezvous::addressing::{ephemeral_endpoint, well_known_endpoint};

#[test]
fn well_known_endpoint_is_fixed() {
    assert_eq!(well_known_endpoint(), b"zed-preview".to_vec());
    assert_eq!(well_known_endpoint(), well_known_endpoint());
}

#[test]
fn ephemeral_endpoint_carries_the_pid() {
    assert_eq!(ephemeral_endpoint(1234), b"zed-cli-1234".to_vec());
    assert_eq!(ephemeral_endpoint(7), b"zed-cli-7".to_vec());
    assert_eq!(ephemeral_endpoint(10), b"zed-cli-10".to_vec());
}

#[test]
fn ephemeral_endpoint_edges() {
    assert_eq!(ephemeral_endpoint(0), b"zed-cli-0".to_vec());
    assert_eq!(ephemeral_endpoint(u32::MAX), b"zed-cli-4294967295".to_vec());
}

#[test]
fn ephemeral_endpoints_are_distinct() {
    assert_ne!(ephemeral_endpoint(12), ephemeral_endpoint(120));
    assert_ne!(ephemeral_endpoint(1), ephemeral_endpoint(11));
    assert_ne!(ephemeral_endpoint(42), well_known_endpoint());
}
