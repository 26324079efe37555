use nar_gateway::relay::RelayAction;
use nar_gateway::relay::RelayEvent;
use nar_gateway::relay::relay_action;
use nar_gateway::status::GatewayError;
use nar_gateway::status::status_code;

#[test]
fn data_is_forwarded_only_for_the_matched_file() {
    let ev = RelayEvent::ReadData { len: 100 };
    assert_eq!(relay_action(&ev, true), RelayAction::Forward);
    assert_eq!(relay_action(&ev, false), RelayAction::Discard);
}

#[test]
fn an_empty_read_ends_the_file() {
    let ev = RelayEvent::ReadData { len: 0 };
    assert_eq!(relay_action(&ev, true), RelayAction::Stop);
    assert_eq!(relay_action(&ev, false), RelayAction::Stop);
}

#[test]
fn a_lost_consumer_stops_the_producer() {
    // The client disconnected: the producer stops within this read cycle and
    // no error propagates.
    assert_eq!(relay_action(&RelayEvent::SendFailed, true), RelayAction::Stop);
    assert_eq!(relay_action(&RelayEvent::SendFailed, false), RelayAction::Stop);
}

#[test]
fn a_failed_read_stops_the_producer() {
    assert_eq!(relay_action(&RelayEvent::ReadFailed, true), RelayAction::Stop);
}

#[test]
fn each_error_kind_has_its_status() {
    assert_eq!(status_code(&GatewayError::PathParse), 404);
    assert_eq!(status_code(&GatewayError::MetadataFetch), 502);
    assert_eq!(status_code(&GatewayError::MetadataParse), 500);
    assert_eq!(
        status_code(&GatewayError::UnsupportedCompression {
            message: "Unsupported compression: lzma".to_string()
        }),
        500
    );
    assert_eq!(status_code(&GatewayError::ArchiveRequest), 500);
    assert_eq!(status_code(&GatewayError::ArchiveStatus), 502);
}
