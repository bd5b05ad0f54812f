//! The uniform response envelope of the HTTP surface, and the envelope each
//! endpoint returns for a given store, handle or tool output.

use vstd::prelude::*;
use vstd::string::StringExecFns;
use crate::job::Job;
use crate::profiles::{parse_profiles, spec_profiles};
use crate::store::JobStore;
use crate::token::TokenServerHandle;

verus! {

/// The envelope every endpoint answers with: a success flag, the payload on
/// success, a human-readable message on failure.
pub struct ApiResponse<T> {
    pub success: bool,
    pub data: Option<T>,
    pub error: Option<String>,
}

impl<T> ApiResponse<T> {
    /// A successful envelope around a payload.
    pub fn ok(data: T) -> (r: ApiResponse<T>)
        ensures
            r.success,
            r.data == Some(data),
            r.error is None,
    {
        ApiResponse { success: true, data: Some(data), error: None }
    }

    /// A failure envelope around a message.
    pub fn failure(message: String) -> (r: ApiResponse<T>)
        ensures
            !r.success,
            r.data is None,
            r.error == Some(message),
    {
        ApiResponse { success: false, data: None, error: Some(message) }
    }
}

/// The health probe's answer: always a success around "OK".
pub fn health_response() -> (r: ApiResponse<String>)
    ensures
        r.success,
        r.data matches Some(s) && s@ == "OK"@,
        r.error is None,
{
    ApiResponse::ok(String::from_str("OK"))
}

/// The answer for a single job: the record when the id is known, otherwise a
/// failure with a non-empty message and no data.
pub fn get_job_response(store: &JobStore, id: u128) -> (r: ApiResponse<Job>)
    requires
        store.wf(),
    ensures
        store.spec_get(id) matches Some(j) ==> r.success && (r.data matches Some(job) && job@
            == j) && r.error is None,
        store.spec_get(id) is None ==> !r.success && r.data is None && (r.error matches Some(m)
            && m@ == "Job not found"@ && m@.len() > 0),
{
    match store.get_copy(id) {
        Some(job) => ApiResponse::ok(job),
        None => {
            proof {
                reveal_strlit("Job not found");
            }
            ApiResponse::failure(String::from_str("Job not found"))
        },
    }
}

/// The answer for the full job listing: always a success around a snapshot
/// of every record.
pub fn list_jobs_response(store: &JobStore) -> (r: ApiResponse<Vec<Job>>)
    ensures
        r.success,
        r.error is None,
        r.data matches Some(v) && v@.len() == store@.len() && (forall|k: int|
            0 <= k < store@.len() ==> v@[k]@ == store@[k]),
{
    ApiResponse::ok(store.snapshot())
}

/// The answer for the profile listing: the parsed names when the tool ran
/// and exited successfully (its raw output is the argument), otherwise a
/// failure with a non-empty message.
pub fn profiles_response(output: Option<String>) -> (r: ApiResponse<Vec<String>>)
    ensures
        output matches Some(raw) ==> r.success && (r.data matches Some(v) && v.deep_view()
            == spec_profiles(raw@)) && r.error is None,
        output is None ==> !r.success && r.data is None && (r.error matches Some(m) && m@
            == "Failed to list profiles"@ && m@.len() > 0),
{
    match output {
        Some(raw) => ApiResponse::ok(parse_profiles(raw.as_str())),
        None => {
            proof {
                reveal_strlit("Failed to list profiles");
            }
            ApiResponse::failure(String::from_str("Failed to list profiles"))
        },
    }
}

/// The answer for the token-server status probe: always a success around
/// whether a process id is recorded.
pub fn server_status_response(handle: &TokenServerHandle) -> (r: ApiResponse<bool>)
    ensures
        r.success,
        r.data == Some(handle.pid is Some),
        r.error is None,
{
    ApiResponse::ok(handle.is_recorded())
}

/// Applies an attempt to start the token server: on a started process its id
/// is recorded and a success comes back; on a failure the handle stands
/// unchanged and the message is passed on.
pub fn start_server_response(handle: &mut TokenServerHandle, spawn: Result<u32, String>) -> (r:
    ApiResponse<String>)
    ensures
        spawn matches Ok(pid) ==> final(handle).pid == Some(pid) && r.success && (r.data
            matches Some(s) && s@ == "Server started"@) && r.error is None,
        spawn matches Err(m) ==> final(handle).pid == old(handle).pid && !r.success && r.data
            is None && r.error == Some(m),
{
    match spawn {
        Ok(pid) => {
            handle.record(pid);
            ApiResponse::ok(String::from_str("Server started"))
        },
        Err(m) => ApiResponse::failure(m),
    }
}

} // verus!
