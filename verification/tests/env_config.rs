use codebench::Config;
use codebench::Environment;

#[test]
fn create_server_address() {
    let cfg = Config {
        server_host: "foo".to_owned(),
        server_port: "1234".to_owned(),
    };
    assert_eq!(cfg.server_address(), "foo:1234");
}

#[test]
fn first_present_nonempty_candidate_wins() {
    let commit = vec![
        None,
        Some("".to_string()),
        Some("this-is-a-sha1".to_string()),
        Some("later".to_string()),
    ];
    let branch = vec![None, None];
    let env = Environment::from_candidates(&commit, &branch);
    assert_eq!(env.commit_hash, Some("this-is-a-sha1".to_string()));
    assert_eq!(env.branch_name, None);
}

#[test]
fn with_commit_hash_overrides_only_when_present() {
    let env = Environment {
        commit_hash: Some("old".to_string()),
        branch_name: Some("main".to_string()),
    };
    let kept = env.with_commit_hash(None);
    assert_eq!(kept.commit_hash, Some("old".to_string()));
    let replaced = kept.with_commit_hash(Some("new".to_string()));
    assert_eq!(replaced.commit_hash, Some("new".to_string()));
    assert_eq!(replaced.branch_name, Some("main".to_string()));
}

#[test]
fn with_branch_name_overrides_only_when_present() {
    let env = Environment {
        commit_hash: None,
        branch_name: None,
    };
    let kept = env.with_branch_name(None);
    assert_eq!(kept.branch_name, None);
    let replaced = kept.with_branch_name(Some("this-is-a-branch".to_string()));
    assert_eq!(replaced.branch_name, Some("this-is-a-branch".to_string()));
    assert_eq!(replaced.commit_hash, None);
}
