//! The decisions of the two flows of the tool. The caller performs the
//! reads, writes and commands; these functions say what to do next.
use vstd::prelude::*;
use crate::config::{schema_check, validate, Config, SchemaError};
use crate::emit::{emit, generate_dnsmasq_conf};

verus! {

/// Every way an invocation of the tool can fail.
#[derive(PartialEq, Eq, Structural, Clone, Copy, Debug)]
pub enum Failure {
    /// The declaration could not be read.
    InputUnavailable,
    /// The declaration is not a well-formed document.
    InputMalformed,
    /// The declaration breaks a structural rule.
    InputInvalid(SchemaError),
    /// The daemon's configuration file could not be written.
    OutputUnwritable,
    /// A package-manager command failed or could not be started.
    InstallFailed,
}

/// The one write of the generate flow: these contents, to this path.
pub struct WritePlan {
    pub path: String,
    pub contents: String,
}

/// Decides the write that follows a load. A failed load is passed on and no
/// write is planned, so the destination stays as it was; a declaration that
/// breaks a structural rule fails with that rule; any other declaration has
/// its file written to the path it names.
pub fn plan_write(loaded: Result<Config, Failure>) -> (r: Result<WritePlan, Failure>)
    ensures
        match loaded {
            Err(f) => r == Err::<WritePlan, Failure>(f),
            Ok(c) => match schema_check(c@) {
                Err(e) => r == Err::<WritePlan, Failure>(Failure::InputInvalid(e)),
                Ok(_) => r is Ok && r->Ok_0.path@ == c@.conf && r->Ok_0.contents@ == emit(c@),
            },
        },
{
    match loaded {
        Err(f) => Err(f),
        Ok(c) => match validate(&c) {
            Err(e) => Err(Failure::InputInvalid(e)),
            Ok(_) => {
                let contents = generate_dnsmasq_conf(&c);
                Ok(WritePlan { path: c.dhcp_config.conf, contents })
            },
        },
    }
}

/// Where the install flow stands.
#[derive(PartialEq, Eq, Structural, Clone, Copy, Debug)]
pub enum InstallStep {
    /// Refresh the package index.
    RefreshIndex,
    /// Install the daemon's package without asking.
    InstallPackage,
    /// Both commands succeeded.
    Done,
}

/// The install flow starts by refreshing the package index.
pub fn install_start() -> (r: InstallStep)
    ensures
        r == InstallStep::RefreshIndex,
{
    InstallStep::RefreshIndex
}

/// The step after the command of `step` has run, given whether it
/// succeeded: the index refresh is followed by the install, the install by
/// the end of the flow, and any failure stops the flow with
/// `InstallFailed`.
pub fn install_next(step: InstallStep, succeeded: bool) -> (r: Result<InstallStep, Failure>)
    ensures
        step == InstallStep::Done ==> r == Ok::<InstallStep, Failure>(InstallStep::Done),
        step != InstallStep::Done && !succeeded ==> r == Err::<InstallStep, Failure>(
            Failure::InstallFailed,
        ),
        step == InstallStep::RefreshIndex && succeeded ==> r == Ok::<InstallStep, Failure>(
            InstallStep::InstallPackage,
        ),
        step == InstallStep::InstallPackage && succeeded ==> r == Ok::<InstallStep, Failure>(
            InstallStep::Done,
        ),
{
    match step {
        InstallStep::Done => Ok(InstallStep::Done),
        _ if !succeeded => Err(Failure::InstallFailed),
        InstallStep::RefreshIndex => Ok(InstallStep::InstallPackage),
        InstallStep::InstallPackage => Ok(InstallStep::Done),
    }
}

} // verus!
