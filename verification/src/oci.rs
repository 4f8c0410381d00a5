//! The state of a container, as the runtime hands it to a hook.

use std::collections::HashMap;
use std::path::PathBuf;
use vstd::prelude::*;

verus! {

/// A path of the file system, as std holds it.
#[verifier::external_type_specification]
#[verifier::external_body]
pub struct ExPathBuf(PathBuf);

/// `PathBuf::clone`, of which nothing is stated.
pub assume_specification[ <PathBuf as Clone>::clone ](path: &PathBuf) -> PathBuf;

/// Where a container is in its life.
#[derive(Clone, Copy, Debug, PartialEq, Eq, Structural)]
pub enum Status {
    Creating,
    Created,
    Running,
    Stopped,
}

/// The state of a container.
#[derive(Clone, Debug)]
pub struct State {
    pub oci_version: String,
    pub id: String,
    pub status: Status,
    pub pid: Option<i32>,
    pub bundle: PathBuf,
    pub annotations: Option<HashMap<String, String>>,
    pub created: Option<String>,
}

impl Status {
    /// The name of the status in the runtime's documents.
    pub fn name(&self) -> (text: &'static str)
        ensures
            text@ == status_name(*self),
    {
        match self {
            Status::Creating => "creating",
            Status::Created => "created",
            Status::Running => "running",
            Status::Stopped => "stopped",
        }
    }
}

/// The name of a status in the runtime's documents.
pub open spec fn status_name(status: Status) -> Seq<char> {
    match status {
        Status::Creating => "creating"@,
        Status::Created => "created"@,
        Status::Running => "running"@,
        Status::Stopped => "stopped"@,
    }
}

} // verus!
