use truth_store::json::Json;
use truth_store::proxy::{
    api_base, command_outcome, governance_outcome, verify_arguments, verify_endpoint,
    verify_request, Finished, Invocation,
};
use truth_store::records::{Claim, ClaimMetadata, GovernanceResult};

fn verdict() -> GovernanceResult {
    GovernanceResult {
        status: "PASSED".to_string(),
        action: "allow".to_string(),
        confidence: 0.75f64.to_bits(),
        reason: "consensus".to_string(),
        audit_ref: "a1".to_string(),
        ontological_type: None,
    }
}

#[test]
fn the_service_address_defaults() {
    assert_eq!(api_base(None), "https://truthgit-api-342668283383.us-central1.run.app");
    assert_eq!(api_base(Some("http://localhost:8000".to_string())), "http://localhost:8000");
}

#[test]
fn the_endpoint_lies_under_the_base() {
    assert_eq!(
        verify_endpoint("http://localhost:8000"),
        "http://localhost:8000/api/governance/verify"
    );
}

#[test]
fn the_request_names_claim_domain_and_risk() {
    let body = verify_request("c".to_string(), "d".to_string(), "r".to_string());
    assert_eq!(
        body,
        Json::Object(vec![
            ("claim".to_string(), Json::Text("c".to_string())),
            ("domain".to_string(), Json::Text("d".to_string())),
            ("risk_profile".to_string(), Json::Text("r".to_string())),
        ])
    );
}

#[test]
fn a_verdict_is_handed_on() {
    assert_eq!(governance_outcome(Some(verdict()), None), Ok(verdict()));
    assert_eq!(governance_outcome(Some(verdict()), Some("ignored".to_string())), Ok(verdict()));
}

#[test]
fn without_a_verdict_the_error_is_handed_on() {
    assert_eq!(governance_outcome(None, Some("quota".to_string())), Err("quota".to_string()));
    assert_eq!(governance_outcome(None, None), Err("Unknown error".to_string()));
}

#[test]
fn a_successful_run_gives_its_output() {
    let run = Finished { success: true, stdout: Ok("done\n".to_string()), stderr: String::new() };
    assert_eq!(command_outcome(Invocation::Command, run), Ok("done\n".to_string()));
}

#[test]
fn output_that_is_not_text_is_an_error() {
    let run = Finished {
        success: true,
        stdout: Err("invalid utf-8 sequence of 1 bytes from index 0".to_string()),
        stderr: "unused".to_string(),
    };
    assert_eq!(
        command_outcome(Invocation::Verify, run),
        Err("Invalid UTF-8 output: invalid utf-8 sequence of 1 bytes from index 0".to_string())
    );
}

#[test]
fn a_failed_run_gives_its_complaint() {
    let failed = |how| {
        let run = Finished {
            success: false,
            stdout: Ok("ignored".to_string()),
            stderr: "no such claim".to_string(),
        };
        command_outcome(how, run)
    };
    assert_eq!(failed(Invocation::Command), Err("TruthGit error: no such claim".to_string()));
    assert_eq!(failed(Invocation::Verify), Err("Verification failed: no such claim".to_string()));
}

#[test]
fn the_arguments_of_a_local_verification() {
    assert_eq!(
        verify_arguments("water is wet".to_string(), "physics".to_string()),
        vec!["verify", "water is wet", "--domain", "physics", "--json"]
    );
}

#[test]
fn records_hold_what_they_are_given() {
    let metadata = ClaimMetadata {
        language: Some("en".to_string()),
        tags: Some(vec!["t".to_string()]),
        created_at: Some("2024-01-01".to_string()),
        created_by: None,
    };
    let claim = Claim {
        content: "c".to_string(),
        confidence: 1.0f64.to_bits(),
        category: "fact".to_string(),
        domain: "d".to_string(),
        state: "draft".to_string(),
        hash: "abcdef".to_string(),
        claim_type: "claim".to_string(),
        metadata: metadata.clone(),
    };
    assert_eq!(claim.clone(), claim);
    assert_eq!(claim.metadata, metadata);
    assert_eq!(f64::from_bits(claim.confidence), 1.0);
}
