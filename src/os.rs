//! The types of mio and std that this library carries through, and the
//! call that opens a polling handle.

use vstd::prelude::*;

verus! {

#[verifier::external_type_specification]
#[verifier::external_body]
pub struct ExPoll(mio::Poll);

#[verifier::external_type_specification]
#[verifier::external_body]
pub struct ExTcpListener(mio::net::TcpListener);

#[verifier::external_type_specification]
#[verifier::external_body]
pub struct ExTcpStream(mio::net::TcpStream);

#[verifier::external_type_specification]
#[verifier::external_body]
pub struct ExUdpSocket(mio::net::UdpSocket);

#[verifier::external_type_specification]
#[verifier::external_body]
pub struct ExRegistration(mio::Registration);

#[verifier::external_type_specification]
#[verifier::external_body]
pub struct ExIoError(std::io::Error);

#[verifier::external_type_specification]
#[verifier::external_body]
pub struct ExWaker(std::task::Waker);

/// Relies on `mio::Poll::new`: opens a polling handle, or reports why not.
#[verifier::external_body]
pub(crate) fn poll_new() -> std::io::Result<mio::Poll> {
    mio::Poll::new()
}

} // verus!
