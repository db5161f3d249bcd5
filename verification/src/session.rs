//! Connection descriptors for the instance under test: a free local port,
//! the connection string, and the server option string the instance is
//! started with.

use vstd::prelude::*;
use vstd::string::*;

use crate::errors::BenchError;
use crate::names::decimal_digits;
use crate::names::u64_to_string;

verus! {

/// Relies on `port_scanner::local_port_available`: it tries to bind the
/// port and reports whether that succeeded.  The outcome depends on the
/// machine's state at the moment of the call, so nothing is promised of it.
#[verifier::external_body]
fn port_available(port: u16) -> bool {
    port_scanner::local_port_available(port)
}

/// Relies on `whoami::username`: the account name of the calling user, an
/// environment-dependent lookup that can fail.  Nothing is promised of the
/// outcome.
#[verifier::external_body]
fn system_username() -> Option<String> {
    whoami::username().ok()
}

/// Scans the registered port range upward from the server's conventional
/// port and returns the first free one.  Whether a port is free depends on
/// the machine, so success cannot be promised; a returned port always lies
/// in the scanned range.
pub fn find_free_port() -> (r: Result<u16, BenchError>)
    ensures
        r matches Ok(p) ==> 5432 <= p < 65535,
        r matches Err(e) ==> e == BenchError::ProvisioningFailure,
{
    let mut port: u16 = 5432;
    while port < 65535
        invariant
            5432 <= port <= 65535,
        decreases 65535 - port,
    {
        if port_available(port) {
            return Ok(port);
        }
        port = port + 1;
    }
    Err(BenchError::ProvisioningFailure)
}

/// The connection string for the test database on `port`, for `user`.
pub open spec fn spec_connection_string(port: nat, user: Seq<char>) -> Seq<char> {
    "host=127.0.0.1 port="@ + decimal_digits(port) + " dbname=testdb user="@ + user
}

/// Builds the connection string for the test database.
pub fn connection_string(port: u16, user: &String) -> (r: String)
    ensures
        r@ == spec_connection_string(port as nat, user@),
{
    let digits = u64_to_string(port as u64);
    let r = String::from_str("host=127.0.0.1 port=")
        .concat(digits.as_str())
        .concat(" dbname=testdb user=")
        .concat(user.as_str());
    proof {
        assert(r@ =~= spec_connection_string(port as nat, user@));
    }
    r
}

/// Builds the connection string for the calling user's own account.  Fails
/// only when the account name cannot be determined.
pub fn local_connection_string(port: u16) -> (r: Result<String, BenchError>)
    ensures
        r matches Ok(s) ==> (exists|user: Seq<char>|
            s@ == spec_connection_string(port as nat, user)),
        r matches Err(e) ==> e == BenchError::ProvisioningFailure,
{
    match system_username() {
        Some(user) => {
            let s = connection_string(port, &user);
            proof {
                assert(s@ == spec_connection_string(port as nat, user@));
            }
            Ok(s)
        },
        None => Err(BenchError::ProvisioningFailure),
    }
}

/// The option string the server is started with: the port, and the tuning
/// parameter forwarded from the command line when one was given.
pub open spec fn spec_server_options(port: nat, tuning: Option<Seq<char>>) -> Seq<char> {
    match tuning {
        Option::None => "-p "@ + decimal_digits(port),
        Option::Some(t) => "-p "@ + decimal_digits(port) + " -c notify_multicast_threshold="@ + t,
    }
}

/// Builds the server option string.
pub fn server_options(port: u16, tuning: &Option<String>) -> (r: String)
    ensures
        r@ == spec_server_options(
            port as nat,
            match *tuning {
                Option::None => Option::<Seq<char>>::None,
                Option::Some(t) => Option::Some(t@),
            },
        ),
{
    let digits = u64_to_string(port as u64);
    let base = String::from_str("-p ").concat(digits.as_str());
    match tuning {
        None => base,
        Some(t) => {
            let r = base.concat(" -c notify_multicast_threshold=").concat(t.as_str());
            proof {
                assert(r@ =~= spec_server_options(port as nat, Option::Some(t@)));
            }
            r
        },
    }
}

} // verus!
