use tupl_dp::bridge::installation::{encoding_request, EncodingRefusal, InstallTally};
use tupl_dp::bridge::types::RuleFamilyId;

#[test]
fn encoding_goes_to_the_family_path() {
    assert_eq!(encoding_request(RuleFamilyId::ToolWhitelist, false), Ok("/encode/rule/tool_whitelist"));
    assert_eq!(
        encoding_request(RuleFamilyId::ToolParamConstraint, false),
        Ok("/encode/rule/tool_param_constraint")
    );
}

#[test]
fn encoding_fails_closed() {
    assert_eq!(encoding_request(RuleFamilyId::ToolWhitelist, true), Err(EncodingRefusal::MissingPayload));
    assert_eq!(
        encoding_request(RuleFamilyId::InputSchema, false),
        Err(EncodingRefusal::UnsupportedFamily(RuleFamilyId::InputSchema))
    );
}

#[test]
fn tally_counts_per_layer() {
    let mut t = InstallTally::new();
    t.record_installed("L4");
    t.record_installed("L1");
    t.record_installed("L4");
    assert_eq!(t.installed, 3);
    assert_eq!(t.by_layer, vec![("L4".to_string(), 2), ("L1".to_string(), 1)]);
    let total: usize = t.by_layer.iter().map(|p| p.1).sum();
    assert_eq!(total, t.installed);
    assert_eq!(t.finish(), Ok(3));
}

#[test]
fn tally_with_a_failure_reports_it() {
    let mut t = InstallTally::new();
    t.record_installed("L4");
    t.record_failure("Failed to encode rule r2: down".to_string());
    assert_eq!(t.finish(), Err(vec!["Failed to encode rule r2: down".to_string()]));
}
