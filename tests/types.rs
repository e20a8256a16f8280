use proxy_wasm::stats::{Counter, Gauge, Histogram};
use proxy_wasm::traits::Metric;
use proxy_wasm::types::{Action, LogLevel, MapType, PeerType, Status};

#[test]
fn status_codes_round_trip() {
    assert_eq!(Status::from_code(8), Some(Status::CasMismatch));
    assert_eq!(Status::from_code(0), Some(Status::Success));
    assert_eq!(Status::from_code(5), None);
    assert_eq!(Status::InternalFailure.code(), 10);
    assert_eq!(Status::Unimplemented.code(), 12);
}

#[test]
fn log_level_and_action_codes() {
    assert_eq!(LogLevel::Critical.code(), 5);
    assert_eq!(LogLevel::from_code(2), Some(LogLevel::Info));
    assert_eq!(LogLevel::from_code(6), None);
    assert_eq!(Action::Pause.code(), 1);
    assert_eq!(MapType::HttpCallResponseTrailers.code(), 7);
    assert_eq!(PeerType::from_code(2), PeerType::Remote);
    assert_eq!(PeerType::from_code(9), PeerType::Unknown);
}

#[test]
fn metrics_keep_host_ids() {
    assert_eq!(Counter::new(3).id(), 3);
    assert_eq!(Gauge::new(4).id(), 4);
    assert_eq!(Histogram::new(5).id(), 5);
}
