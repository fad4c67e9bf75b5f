use std::time::Duration;

use nfs::error::{Error, Result};
use nfs::retry::RetryPolicy;
use nfs::rpc::AuthSys;
use nfs::v4::blocking::{CallFailure, Client, ClientBuilder, Transport, DEFAULT_IO_SIZE};
use nfs::v4::proto::NFS4_OPAQUE_LIMIT;

/// A transport that must never be used: every test here fails before the
/// network.
struct NoNetwork;

impl Transport for NoNetwork {
    fn open(&mut self, _host: &str, _port: u16, _auth: &AuthSys, _timeout: Option<Duration>) -> Result<Self> {
        panic!("the builder opened a connection")
    }
    fn call(&mut self, _args: Vec<u8>) -> std::result::Result<Vec<u8>, CallFailure> {
        panic!("the builder sent a call")
    }
    fn set_max_record_size(&mut self, _size: usize) -> Result<()> {
        Ok(())
    }
    fn pause(&mut self, _millis: u64) {}
}

/// A transport whose connections all fail.
struct Unreachable;

impl Transport for Unreachable {
    fn open(&mut self, _host: &str, _port: u16, _auth: &AuthSys, _timeout: Option<Duration>) -> Result<Self> {
        Err(Error::Transport("connection refused".to_owned()))
    }
    fn call(&mut self, _args: Vec<u8>) -> std::result::Result<Vec<u8>, CallFailure> {
        Err(CallFailure::NotSent(Error::Transport("not connected".to_owned())))
    }
    fn set_max_record_size(&mut self, _size: usize) -> Result<()> {
        Ok(())
    }
    fn pause(&mut self, _millis: u64) {}
}

fn auth() -> AuthSys {
    AuthSys::new("test-host".to_owned(), 1000, 1000, vec![1000])
}

fn builder(host: &str) -> ClientBuilder {
    Client::<NoNetwork>::builder(host, auth(), 77, 1)
}

#[test]
fn v4_builder_rejects_invalid_transfer_size_before_network() {
    let result = builder("127.0.0.1").read_size(0).connect(&mut NoNetwork);
    assert!(matches!(result, Err(Error::Protocol(_))));
}

#[test]
fn v4_builder_rejects_empty_host_before_network() {
    let result = builder("").connect(&mut NoNetwork);
    assert!(matches!(result, Err(Error::InvalidTarget(_))));
}

#[test]
fn v4_builder_rejects_zero_port_before_network() {
    let result = builder("127.0.0.1").port(0).connect(&mut NoNetwork);
    assert!(matches!(result, Err(Error::Protocol(_))));
}

#[test]
fn v4_builder_rejects_invalid_max_dir_entries_before_network() {
    let result = builder("127.0.0.1").max_dir_entries(0).connect(&mut NoNetwork);
    assert!(matches!(result, Err(Error::Protocol(_))));
}

#[test]
fn v4_builder_rejects_invalid_minor_version_before_network() {
    let result = builder("127.0.0.1").max_minor_version(0).connect(&mut NoNetwork);
    assert!(matches!(result, Err(Error::Protocol(_))));

    let result = builder("127.0.0.1").max_minor_version(3).connect(&mut NoNetwork);
    assert!(matches!(result, Err(Error::Protocol(_))));
}

#[test]
fn v4_builder_rejects_invalid_open_owner_before_network() {
    let result = builder("127.0.0.1").open_owner(vec![0; NFS4_OPAQUE_LIMIT + 1]).connect(&mut NoNetwork);
    assert!(matches!(result, Err(Error::Protocol(_))));
}

#[test]
fn builder_rejects_blank_host_and_oversized_owner_id() {
    assert!(matches!(builder(" \t").connect(&mut NoNetwork), Err(Error::InvalidTarget(_))));
    let result = builder("server").owner_id(vec![1; NFS4_OPAQUE_LIMIT + 1]).connect(&mut NoNetwork);
    assert!(matches!(result, Err(Error::Protocol(_))));
    let result = builder("server").write_size(0).connect(&mut NoNetwork);
    assert!(matches!(result, Err(Error::Protocol(_))));
    let result = builder("server").dir_size(64 * 1024 * 1024 + 1).connect(&mut NoNetwork);
    assert!(matches!(result, Err(Error::Protocol(_))));
}

#[test]
fn default_builder_settings_pass_validation() {
    let b = builder("server");
    assert!(b.validate().is_ok());
    let b = b.io_size(DEFAULT_IO_SIZE / 2).retry_policy(RetryPolicy::never()).automatic_lease_renewal(true);
    assert!(b.validate().is_ok());
}

#[test]
fn unreachable_server_reports_transport_failure() {
    let result = Client::<Unreachable>::builder("server", auth(), 77, 1)
        .retry_policy(RetryPolicy::never())
        .connect(&mut Unreachable);
    match result {
        Err(err) => assert!(err.is_transport_failure()),
        Ok(_) => panic!("an unreachable server cannot be connected"),
    }
}
