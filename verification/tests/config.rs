use dhttp::config::{
    decimal, default_socket_path, DEFAULT_AGENT_ID, DEFAULT_BIND, DEFAULT_FILES_ROOT,
    DEFAULT_SEND_AGENT_ID,
};

#[test]
fn socket_path_follows_the_user() {
    assert_eq!(default_socket_path(0), "/run/archipel-core/archipel-core.socket");
    assert_eq!(default_socket_path(1000), "/run/user/1000/archipel-core/archipel-core.socket");
    assert_eq!(default_socket_path(1), "/run/user/1/archipel-core/archipel-core.socket");
    assert_eq!(
        default_socket_path(u32::MAX),
        "/run/user/4294967295/archipel-core/archipel-core.socket"
    );
}

#[test]
fn numerals() {
    assert_eq!(decimal(0), "0");
    assert_eq!(decimal(9), "9");
    assert_eq!(decimal(10), "10");
    assert_eq!(decimal(1234567890), "1234567890");
    assert_eq!(decimal(u32::MAX), u32::MAX.to_string());
}

#[test]
fn defaults() {
    assert_eq!(DEFAULT_BIND, "127.0.0.1:8555");
    assert_eq!(DEFAULT_SEND_AGENT_ID, "dhttp/client");
    assert_eq!(DEFAULT_AGENT_ID, "www");
    assert_eq!(DEFAULT_FILES_ROOT, "./www");
}
