//! What is asked of the two collaborators, and what their answers mean.
//!
//! The verification service and the command-line tool are reached by the
//! caller. This module builds what is sent to them and decides what comes
//! back to the user.

use crate::json::{Json, JsonValue, MemberValue};
use crate::records::GovernanceResult;
use vstd::prelude::*;
use vstd::string::*;

verus! {

/// Address of the verification service where none is configured.
pub open spec fn default_api_url() -> Seq<char> {
    "https://truthgit-api-342668283383.us-central1.run.app"@
}

/// The address of the verification service: the configured one, or the
/// default.
pub open spec fn api_base_spec(configured: Option<String>) -> Seq<char> {
    match configured {
        Some(url) => url@,
        None => default_api_url(),
    }
}

pub fn api_base(configured: Option<String>) -> (r: String)
    ensures
        r@ == api_base_spec(configured),
{
    match configured {
        Some(url) => url,
        None => String::from_str("https://truthgit-api-342668283383.us-central1.run.app"),
    }
}

/// Where a verification is asked for: `<base>/api/governance/verify`.
pub fn verify_endpoint(base: &str) -> (r: String)
    ensures
        r@ == base@ + "/api/governance/verify"@,
{
    let mut url = String::from_str(base);
    url.append("/api/governance/verify");
    url
}

/// The body of a verification request.
pub open spec fn verify_request_spec(
    claim: Seq<char>,
    domain: Seq<char>,
    risk_profile: Seq<char>,
) -> JsonValue {
    JsonValue::Object(
        seq![
            MemberValue { name: "claim"@, value: JsonValue::Text(claim) },
            MemberValue { name: "domain"@, value: JsonValue::Text(domain) },
            MemberValue { name: "risk_profile"@, value: JsonValue::Text(risk_profile) },
        ],
    )
}

pub fn verify_request(claim: String, domain: String, risk_profile: String) -> (r: Json)
    ensures
        r@ == verify_request_spec(claim@, domain@, risk_profile@),
{
    let mut members: Vec<(String, Json)> = Vec::new();
    members.push((String::from_str("claim"), Json::Text(claim)));
    members.push((String::from_str("domain"), Json::Text(domain)));
    members.push((String::from_str("risk_profile"), Json::Text(risk_profile)));
    let body = Json::Object(members);
    proof {
        crate::json::lemma_object_view(members);
        assert(body@->Object_0 =~= verify_request_spec(claim@, domain@, risk_profile@)->Object_0);
    }
    body
}

/// What a caller is told once the service has answered: the verdict where
/// the answer holds one, else the service's error, else that the error is
/// unknown.
pub open spec fn governance_outcome_spec(
    data: Option<GovernanceResult>,
    error: Option<String>,
) -> Result<GovernanceResult, Seq<char>> {
    match data {
        Some(verdict) => Ok(verdict),
        None => match error {
            Some(message) => Err(message@),
            None => Err("Unknown error"@),
        },
    }
}

pub fn governance_outcome(data: Option<GovernanceResult>, error: Option<String>) -> (r: Result<
    GovernanceResult,
    String,
>)
    ensures
        match r {
            Ok(verdict) => governance_outcome_spec(data, error) == Ok::<
                GovernanceResult,
                Seq<char>,
            >(verdict),
            Err(message) => governance_outcome_spec(data, error) == Err::<
                GovernanceResult,
                Seq<char>,
            >(message@),
        },
{
    match data {
        Some(verdict) => Ok(verdict),
        None => match error {
            Some(message) => Err(message),
            None => Err(String::from_str("Unknown error")),
        },
    }
}

/// The two ways in which the command-line tool is run.
#[derive(Clone, Copy, Debug, PartialEq, Eq, Structural)]
pub enum Invocation {
    /// With arguments that the user chose.
    Command,
    /// To verify one claim.
    Verify,
}

impl Invocation {
    /// How a failed run is introduced.
    pub open spec fn failure_label_spec(self) -> Seq<char> {
        match self {
            Invocation::Command => "TruthGit error: "@,
            Invocation::Verify => "Verification failed: "@,
        }
    }

    pub fn failure_label(&self) -> (r: &'static str)
        ensures
            r@ == self.failure_label_spec(),
    {
        match self {
            Invocation::Command => "TruthGit error: ",
            Invocation::Verify => "Verification failed: ",
        }
    }
}

/// The arguments with which one claim is verified.
pub fn verify_arguments(claim: String, domain: String) -> (r: Vec<String>)
    ensures
        r@.len() == 5,
        r@[0]@ == "verify"@,
        r@[1] == claim,
        r@[2]@ == "--domain"@,
        r@[3] == domain,
        r@[4]@ == "--json"@,
{
    let mut arguments: Vec<String> = Vec::new();
    arguments.push(String::from_str("verify"));
    arguments.push(claim);
    arguments.push(String::from_str("--domain"));
    arguments.push(domain);
    arguments.push(String::from_str("--json"));
    arguments
}

/// What a finished run of the tool gave.
#[derive(Debug, PartialEq, Eq)]
pub struct Finished {
    /// Whether the tool reported success.
    pub success: bool,
    /// The standard output as text, or why it is not text.
    pub stdout: Result<String, String>,
    /// The standard error, as far as it is text.
    pub stderr: String,
}

/// What a caller is told once the tool has finished: its output where it
/// succeeded, its complaint where it did not.
pub open spec fn command_outcome_spec(how: Invocation, run: Finished) -> Result<
    Seq<char>,
    Seq<char>,
> {
    if run.success {
        match run.stdout {
            Ok(output) => Ok(output@),
            Err(cause) => Err("Invalid UTF-8 output: "@ + cause@),
        }
    } else {
        Err(how.failure_label_spec() + run.stderr@)
    }
}

pub fn command_outcome(how: Invocation, run: Finished) -> (r: Result<String, String>)
    ensures
        match r {
            Ok(output) => command_outcome_spec(how, run) == Ok::<Seq<char>, Seq<char>>(output@),
            Err(message) => command_outcome_spec(how, run) == Err::<Seq<char>, Seq<char>>(
                message@,
            ),
        },
{
    if run.success {
        match run.stdout {
            Ok(output) => Ok(output),
            Err(cause) => {
                let mut message = String::from_str("Invalid UTF-8 output: ");
                message.append(cause.as_str());
                Err(message)
            },
        }
    } else {
        let mut message = String::from_str(how.failure_label());
        message.append(run.stderr.as_str());
        Err(message)
    }
}

} // verus!
