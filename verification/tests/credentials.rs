use grafana_watch_dog::credentials::{access_failure, deletion_outcome, password_or_empty, save_plan, write_outcome, KeychainFailure, SecretStep, AI_KEY, GRAFANA_TOKEN};

#[test]
fn failures_name_the_operation() {
    assert_eq!(access_failure("locked"), "无法访问系统 Keychain：locked");
    let missing = KeychainFailure { missing: true, detail: "no entry".to_string() };
    assert_eq!(deletion_outcome(Err(missing)), Ok(()));
    let denied = KeychainFailure { missing: false, detail: "denied".to_string() };
    assert_eq!(deletion_outcome(Err(denied)), Err("无法删除系统凭据：denied".to_string()));
    let denied = KeychainFailure { missing: false, detail: "denied".to_string() };
    assert_eq!(write_outcome(Err(denied)), Err("无法写入系统 Keychain：denied".to_string()));
    assert_eq!(write_outcome(Ok(())), Ok(()));
}

#[test]
fn unreadable_secret_reads_as_empty() {
    assert_eq!(password_or_empty(Ok("secret".to_string())), "secret");
    let failed = KeychainFailure { missing: false, detail: "denied".to_string() };
    assert_eq!(password_or_empty(Err(failed)), "");
}

#[test]
fn saving_writes_the_token_then_the_key() {
    let plan = save_plan("glsa_token", "");
    assert_eq!(plan.len(), 2);
    match &plan[0] {
        SecretStep::Write { name, value } => {
            assert_eq!(name, GRAFANA_TOKEN);
            assert_eq!(value, "glsa_token");
        }
        other => panic!("unexpected step {:?}", other),
    }
    match &plan[1] {
        SecretStep::Remove { name } => assert_eq!(name, AI_KEY),
        other => panic!("unexpected step {:?}", other),
    }
}
