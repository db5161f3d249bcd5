//! Error kinds of the benchmark and the rule that decides which of them
//! abort a run.

use vstd::prelude::*;

verus! {

/// Everything that can go wrong during a run.
#[derive(Clone, Copy, Debug, PartialEq, Eq, Structural)]
pub enum BenchError {
    /// A required external program is missing.
    ToolingUnavailable,
    /// Provisioning, starting or stopping the instance under test failed.
    ProvisioningFailure,
    /// A probe signal arrived on the wrong channel or carried a payload.
    ProtocolViolation,
    /// A connection could not be established or broke.
    ConnectionFailure,
    /// The command line could not be understood.
    ConfigurationError,
}

/// Where in the run an error arose.
#[derive(Clone, Copy, Debug, PartialEq, Eq, Structural)]
pub enum FailureSite {
    /// While growing the idle connection pool.
    IdlePoolGrowth,
    /// In one of the two probe endpoints.
    ProbePair,
    /// In the diagnostic monitoring connection.
    Monitoring,
    /// While provisioning or tearing down the instance under test.
    Lifecycle,
}

/// A failed connection while the idle pool grows only shortens the growth;
/// every other combination of error and site aborts the run.
pub open spec fn spec_is_fatal(e: BenchError, site: FailureSite) -> bool {
    match e {
        BenchError::ConnectionFailure => !(site is IdlePoolGrowth),
        _ => true,
    }
}

impl BenchError {
    /// Whether this error, arising at `site`, aborts the run.
    pub fn is_fatal(&self, site: FailureSite) -> (r: bool)
        ensures
            r == spec_is_fatal(*self, site),
    {
        match self {
            BenchError::ConnectionFailure => !matches!(site, FailureSite::IdlePoolGrowth),
            _ => true,
        }
    }

    /// A short diagnostic message for this error.
    pub fn describe(&self) -> (r: &'static str)
        ensures
            (*self is ToolingUnavailable) ==> r@ == "required external programs are missing"@,
            (*self is ProvisioningFailure) ==> r@ == "the instance under test could not be provisioned"@,
            (*self is ProtocolViolation) ==> r@ == "a probe signal arrived on the wrong channel or carried a payload"@,
            (*self is ConnectionFailure) ==> r@ == "a connection could not be established or broke"@,
            (*self is ConfigurationError) ==> r@ == "invalid command-line input"@,
    {
        match self {
            BenchError::ToolingUnavailable => "required external programs are missing",
            BenchError::ProvisioningFailure => "the instance under test could not be provisioned",
            BenchError::ProtocolViolation => "a probe signal arrived on the wrong channel or carried a payload",
            BenchError::ConnectionFailure => "a connection could not be established or broke",
            BenchError::ConfigurationError => "invalid command-line input",
        }
    }
}

} // verus!
