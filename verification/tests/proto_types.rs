use nfs::v4::proto::{ChannelAttrs, DEFAULT_SESSION_CHANNEL_SIZE, StableHow};

#[test]
fn fore_channel_default_advertises_cached_response_space() {
    let attrs = ChannelAttrs::fore_channel_default();

    assert_eq!(attrs.max_request_size, DEFAULT_SESSION_CHANNEL_SIZE);
    assert_eq!(attrs.max_response_size, DEFAULT_SESSION_CHANNEL_SIZE);
    assert_eq!(attrs.max_response_size_cached, DEFAULT_SESSION_CHANNEL_SIZE);
}

#[test]
fn back_channel_default_satisfies_linux_session_minimums() {
    let attrs = ChannelAttrs::back_channel_disabled();

    assert_eq!(attrs.max_request_size, DEFAULT_SESSION_CHANNEL_SIZE);
    assert_eq!(attrs.max_response_size, DEFAULT_SESSION_CHANNEL_SIZE);
    assert_eq!(attrs.max_response_size_cached, DEFAULT_SESSION_CHANNEL_SIZE);
    assert!(attrs.max_operations > 0);
    assert!(attrs.max_requests > 0);
}

#[test]
fn stable_how_reports_whether_server_commitment_satisfies_request() {
    assert!(StableHow::FileSync.satisfies(StableHow::Unstable));
    assert!(StableHow::FileSync.satisfies(StableHow::DataSync));
    assert!(StableHow::FileSync.satisfies(StableHow::FileSync));
    assert!(StableHow::DataSync.satisfies(StableHow::Unstable));
    assert!(StableHow::DataSync.satisfies(StableHow::DataSync));
    assert!(!StableHow::DataSync.satisfies(StableHow::FileSync));
    assert!(!StableHow::Unstable.satisfies(StableHow::DataSync));
}
