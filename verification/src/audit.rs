//! Audit events: one record per makeCredential / getAssertion operation.

use vstd::prelude::*;
use vstd::string::StringExecFns;

verus! {

/// One audit record.
pub struct AuditEvent {
    pub timestamp: String,
    pub event: &'static str,
    pub rp_id: String,
    pub user_name: Option<String>,
    pub uv_result: &'static str,
    pub credential_id: Option<String>,
    pub counter: Option<u64>,
    pub error: Option<String>,
}

/// What an optional text becomes in a record.
pub open spec fn opt_text(s: Option<&str>) -> Option<Seq<char>> {
    match s {
        Some(t) => Some(t@),
        None => None,
    }
}

/// The text of an optional field of a record.
pub open spec fn field_text(s: Option<String>) -> Option<Seq<char>> {
    match s {
        Some(t) => Some(t@),
        None => None,
    }
}

/// The `uv_result` text for a verification outcome: "pass" or "fail".
pub open spec fn uv_result_text(uv_ok: bool) -> Seq<char> {
    if uv_ok { "pass"@ } else { "fail"@ }
}

fn owned(s: Option<&str>) -> (r: Option<String>)
    ensures
        field_text(r) == opt_text(s),
{
    match s {
        Some(t) => Some(String::from_str(t)),
        None => None,
    }
}

fn uv_result(uv_ok: bool) -> (r: &'static str)
    ensures
        r@ == uv_result_text(uv_ok),
{
    if uv_ok { "pass" } else { "fail" }
}

/// Calls `chrono::Utc::now().to_rfc3339()`. The text depends on the clock;
/// all that is stated is that it is not empty (the crate always writes the
/// date, time and offset into it).
#[verifier::external_body]
fn now_rfc3339() -> (r: String)
    ensures
        r@.len() > 0,
{
    chrono::Utc::now().to_rfc3339()
}

impl AuditEvent {
    /// The record of a makeCredential operation at `timestamp`.
    pub fn make_credential(
        timestamp: String,
        rp_id: &str,
        user_name: Option<&str>,
        uv_ok: bool,
        credential_id: Option<&str>,
        error: Option<&str>,
    ) -> (e: AuditEvent)
        ensures
            e.timestamp == timestamp,
            e.event@ == "makeCredential"@,
            e.rp_id@ == rp_id@,
            field_text(e.user_name) == opt_text(user_name),
            e.uv_result@ == uv_result_text(uv_ok),
            field_text(e.credential_id) == opt_text(credential_id),
            e.counter is None,
            field_text(e.error) == opt_text(error),
    {
        AuditEvent {
            timestamp,
            event: "makeCredential",
            rp_id: String::from_str(rp_id),
            user_name: owned(user_name),
            uv_result: uv_result(uv_ok),
            credential_id: owned(credential_id),
            counter: None,
            error: owned(error),
        }
    }

    /// The record of a getAssertion operation at `timestamp`.
    pub fn get_assertion(
        timestamp: String,
        rp_id: &str,
        user_name: Option<&str>,
        uv_ok: bool,
        credential_id: Option<&str>,
        counter: Option<u64>,
        error: Option<&str>,
    ) -> (e: AuditEvent)
        ensures
            e.timestamp == timestamp,
            e.event@ == "getAssertion"@,
            e.rp_id@ == rp_id@,
            field_text(e.user_name) == opt_text(user_name),
            e.uv_result@ == uv_result_text(uv_ok),
            field_text(e.credential_id) == opt_text(credential_id),
            e.counter == counter,
            field_text(e.error) == opt_text(error),
    {
        AuditEvent {
            timestamp,
            event: "getAssertion",
            rp_id: String::from_str(rp_id),
            user_name: owned(user_name),
            uv_result: uv_result(uv_ok),
            credential_id: owned(credential_id),
            counter,
            error: owned(error),
        }
    }

    /// The record of a makeCredential operation, stamped with the current
    /// time in RFC 3339 form.
    pub fn make_credential_now(
        rp_id: &str,
        user_name: Option<&str>,
        uv_ok: bool,
        credential_id: Option<&str>,
        error: Option<&str>,
    ) -> (e: AuditEvent)
        ensures
            e.timestamp@.len() > 0,
            e.event@ == "makeCredential"@,
            e.rp_id@ == rp_id@,
            field_text(e.user_name) == opt_text(user_name),
            e.uv_result@ == uv_result_text(uv_ok),
            field_text(e.credential_id) == opt_text(credential_id),
            e.counter is None,
            field_text(e.error) == opt_text(error),
    {
        AuditEvent::make_credential(now_rfc3339(), rp_id, user_name, uv_ok, credential_id, error)
    }

    /// The record of a getAssertion operation, stamped with the current time
    /// in RFC 3339 form.
    pub fn get_assertion_now(
        rp_id: &str,
        user_name: Option<&str>,
        uv_ok: bool,
        credential_id: Option<&str>,
        counter: Option<u64>,
        error: Option<&str>,
    ) -> (e: AuditEvent)
        ensures
            e.timestamp@.len() > 0,
            e.event@ == "getAssertion"@,
            e.rp_id@ == rp_id@,
            field_text(e.user_name) == opt_text(user_name),
            e.uv_result@ == uv_result_text(uv_ok),
            field_text(e.credential_id) == opt_text(credential_id),
            e.counter == counter,
            field_text(e.error) == opt_text(error),
    {
        AuditEvent::get_assertion(now_rfc3339(), rp_id, user_name, uv_ok, credential_id, counter, error)
    }

    /// The record as it is written: an empty timestamp is replaced by
    /// `now`; everything else is kept.
    pub fn stamped(self, now: String) -> (e: AuditEvent)
        ensures
            e.timestamp@ == if self.timestamp@.len() == 0 { now@ } else { self.timestamp@ },
            e.event == self.event,
            e.rp_id == self.rp_id,
            e.user_name == self.user_name,
            e.uv_result == self.uv_result,
            e.credential_id == self.credential_id,
            e.counter == self.counter,
            e.error == self.error,
    {
        let mut entry = self;
        if entry.timestamp.as_str().unicode_len() == 0 {
            entry.timestamp = now;
        }
        entry
    }

    /// The record as it is written, an empty timestamp replaced by the
    /// current time in RFC 3339 form (never empty).
    pub fn stamped_now(self) -> (e: AuditEvent)
        ensures
            self.timestamp@.len() != 0 ==> e.timestamp == self.timestamp,
            self.timestamp@.len() == 0 ==> e.timestamp@.len() > 0,
            e.event == self.event,
            e.rp_id == self.rp_id,
            e.user_name == self.user_name,
            e.uv_result == self.uv_result,
            e.credential_id == self.credential_id,
            e.counter == self.counter,
            e.error == self.error,
    {
        if self.timestamp.as_str().unicode_len() == 0 {
            self.stamped(now_rfc3339())
        } else {
            self
        }
    }
}

} // verus!
