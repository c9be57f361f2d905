use ssh_agent_mux::known_keys::KnownKeys;
use ssh_agent_mux::logging::SuppressExtensionFailure;
use ssh_agent_mux::mux::{
    latest_reply, ExtensionAction, Identity, Listing, MuxAgent, MuxError, SignAction,
};

fn id(key: &[u8], comment: &str) -> Identity {
    Identity { key: key.to_vec(), comment: comment.to_string() }
}

/// SSH wire encoding of an Ed25519 public key with the given 32 key bytes.
fn ed25519_blob(fill: u8) -> Vec<u8> {
    let mut blob = Vec::new();
    blob.extend_from_slice(&11u32.to_be_bytes());
    blob.extend_from_slice(b"ssh-ed25519");
    blob.extend_from_slice(&32u32.to_be_bytes());
    blob.extend_from_slice(&[fill; 32]);
    blob
}

/// Run a whole refresh with the given answers, one per agent; returns the
/// offered identities or the first error.
fn refresh(mux: &mut MuxAgent, mut answers: Vec<Listing<String>>) -> Result<Vec<Identity>, String> {
    let mut r = mux.begin_refresh();
    answers.reverse();
    while let Some(agent) = mux.refresh_next(&r) {
        let listing = answers.pop().expect("an answer for every agent asked");
        let _ = agent;
        mux.refresh_record(&mut r, listing)?;
    }
    assert!(answers.is_empty());
    Ok(mux.finish_refresh(r))
}

fn keys_of(ids: &[Identity]) -> Vec<Vec<u8>> {
    ids.iter().map(|i| i.key.clone()).collect()
}

#[test]
fn empty_mux_agent() {
    let mut mux = MuxAgent::new(vec![]);
    assert_eq!(mux.agent_count(), 0);
    let keys_in_agent = refresh(&mut mux, vec![]).unwrap();
    assert!(keys_in_agent.is_empty());
}

#[test]
fn mux_with_one_agent() {
    let mut mux = MuxAgent::new(vec!["/tmp/agent0.sock".to_string()]);
    let ids = refresh(
        &mut mux,
        vec![Listing::Listed(vec![id(b"rsa", "a rsa key"), id(b"ecdsa", "an ecdsa key")])],
    )
    .unwrap();
    assert_eq!(keys_of(&ids), vec![b"rsa".to_vec(), b"ecdsa".to_vec()]);
    assert_eq!(ids[1].comment, "an ecdsa key");
    assert!(matches!(mux.sign_action(&b"rsa".to_vec(), false), SignAction::Forward(0)));
    assert!(matches!(mux.sign_action(&b"ecdsa".to_vec(), true), SignAction::Forward(0)));
    assert_eq!(mux.socket_path(0), "/tmp/agent0.sock");
}

#[test]
fn mux_with_three_agents() {
    let paths = vec!["/a.sock".to_string(), "/b.sock".to_string(), "/c.sock".to_string()];
    let mut mux = MuxAgent::new(paths);
    let ids = refresh(
        &mut mux,
        vec![
            Listing::Listed(vec![id(b"rsa", "rsa")]),
            Listing::Listed(vec![id(b"ecdsa", "ecdsa")]),
            Listing::Listed(vec![id(b"ed25519", "ed25519")]),
        ],
    )
    .unwrap();
    assert_eq!(keys_of(&ids), vec![b"rsa".to_vec(), b"ecdsa".to_vec(), b"ed25519".to_vec()]);
    assert!(matches!(mux.sign_action(&b"rsa".to_vec(), false), SignAction::Forward(0)));
    assert!(matches!(mux.sign_action(&b"ecdsa".to_vec(), false), SignAction::Forward(1)));
    assert!(matches!(mux.sign_action(&b"ed25519".to_vec(), false), SignAction::Forward(2)));
}

#[test]
fn unreachable_agent_is_skipped() {
    let mut mux = MuxAgent::new(vec!["/a".to_string(), "/b".to_string()]);
    let ids = refresh(&mut mux, vec![Listing::Unreachable, Listing::Listed(vec![id(b"k", "k")])]).unwrap();
    assert_eq!(keys_of(&ids), vec![b"k".to_vec()]);
    assert!(matches!(mux.sign_action(&b"k".to_vec(), false), SignAction::Forward(1)));
}

#[test]
fn failed_agent_ends_the_refresh_keeping_earlier_keys() {
    let mut mux = MuxAgent::new(vec!["/a".to_string(), "/b".to_string(), "/c".to_string()]);
    let res = refresh(
        &mut mux,
        vec![
            Listing::Listed(vec![id(b"k0", "")]),
            Listing::Failed("agent b broke".to_string()),
            Listing::Listed(vec![id(b"k2", "")]),
        ],
    );
    // the refresh stops at the failure: the third answer is never asked for
    assert!(matches!(res, Err(ref e) if e == "agent b broke"));
    assert!(matches!(mux.sign_action(&b"k0".to_vec(), false), SignAction::Forward(0)));
    assert!(matches!(mux.sign_action(&b"k2".to_vec(), false), SignAction::Refresh));
}

#[test]
fn duplicate_key_signs_with_first_agent_and_is_offered_twice() {
    let mut mux = MuxAgent::new(vec!["/a".to_string(), "/b".to_string()]);
    let ids = refresh(
        &mut mux,
        vec![Listing::Listed(vec![id(b"same", "first")]), Listing::Listed(vec![id(b"same", "second")])],
    )
    .unwrap();
    assert_eq!(ids.len(), 2);
    assert_eq!(ids[0].comment, "first");
    assert!(matches!(mux.sign_action(&b"same".to_vec(), false), SignAction::Forward(0)));
}

#[test]
fn refresh_forgets_keys_no_longer_offered() {
    let mut mux = MuxAgent::new(vec!["/a".to_string()]);
    refresh(&mut mux, vec![Listing::Listed(vec![id(b"old", "")])]).unwrap();
    assert!(matches!(mux.sign_action(&b"old".to_vec(), false), SignAction::Forward(0)));
    refresh(&mut mux, vec![Listing::Listed(vec![id(b"new", "")])]).unwrap();
    assert!(matches!(mux.sign_action(&b"old".to_vec(), false), SignAction::Refresh));
    assert!(matches!(mux.sign_action(&b"new".to_vec(), false), SignAction::Forward(0)));
}

#[test]
fn unknown_key_is_refreshed_then_refused_with_fingerprint() {
    let mux = MuxAgent::new(vec!["/a".to_string()]);
    let blob = ed25519_blob(7);
    assert!(matches!(mux.sign_action(&blob, false), SignAction::Refresh));
    let expected = ssh_key::PublicKey::from_bytes(&blob)
        .unwrap()
        .fingerprint(ssh_key::HashAlg::default())
        .to_string();
    assert!(expected.starts_with("SHA256:"));
    match mux.sign_action(&blob, true) {
        SignAction::Reject(e) => {
            assert!(matches!(&e, MuxError::NoAgentForKey { fingerprint: Some(f) } if *f == expected));
            assert_eq!(e.message(), format!("No agent found for public key: {expected}"));
        },
        _ => panic!("expected a refusal"),
    }
}

#[test]
fn undecodable_key_is_refused_without_fingerprint() {
    let mux = MuxAgent::new(vec![]);
    match mux.sign_action(&b"not a key".to_vec(), true) {
        SignAction::Reject(e) => {
            assert!(matches!(e, MuxError::NoAgentForKey { fingerprint: None }));
            assert_eq!(e.message(), "No agent found for public key");
        },
        _ => panic!("expected a refusal"),
    }
}

#[test]
fn extension_requests() {
    assert!(matches!(MuxAgent::extension_action("query"), ExtensionAction::AnswerQuery));
    assert!(matches!(
        MuxAgent::extension_action("session-bind@openssh.com"),
        ExtensionAction::Broadcast
    ));
    assert!(matches!(
        MuxAgent::extension_action("restrict-destination-v00@openssh.com"),
        ExtensionAction::Reject(MuxError::ExtensionFailure)
    ));
    assert!(matches!(MuxAgent::extension_action(""), ExtensionAction::Reject(MuxError::ExtensionFailure)));
}

#[test]
fn broadcast_extension_keeps_last_reply() {
    assert!(matches!(MuxAgent::settle_extension(vec![None, Some(1), None, Some(2), None]), Ok(2)));
    assert!(matches!(MuxAgent::settle_extension(vec![Some(5)]), Ok(5)));
    assert!(matches!(
        MuxAgent::settle_extension::<u8>(vec![None, None]),
        Err(MuxError::ExtensionFailure)
    ));
    assert!(matches!(MuxAgent::settle_extension::<u8>(vec![]), Err(MuxError::ExtensionFailure)));
    assert_eq!(latest_reply(vec![Some("a"), None, Some("b")]), Some("b"));
}

#[test]
fn add_constrained_key_to_mux() {
    assert!(MuxAgent::settle_add(&vec![true]).is_ok());
    assert!(MuxAgent::settle_add(&vec![false, true, false]).is_ok());
    assert!(matches!(MuxAgent::settle_add(&vec![false, false]), Err(MuxError::Failure)));
    assert!(matches!(MuxAgent::settle_add(&vec![]), Err(MuxError::Failure)));
    assert_eq!(MuxError::Failure.message(), "Generic agent failure");
    assert_eq!(MuxError::ExtensionFailure.message(), "Generic agent extension failure");
}

#[test]
fn known_keys_read_after_write() {
    let mut t = KnownKeys::new();
    assert_eq!(t.get(&b"k".to_vec()), None);
    t.insert(b"k".to_vec(), 3);
    t.insert(b"j".to_vec(), 1);
    assert_eq!(t.get(&b"k".to_vec()), Some(3));
    t.insert(b"k".to_vec(), 4);
    assert_eq!(t.get(&b"k".to_vec()), Some(4));
    assert_eq!(t.get(&b"j".to_vec()), Some(1));
    t.clear();
    assert_eq!(t.get(&b"j".to_vec()), None);
}

#[test]
fn log_filter_drops_extension_failures() {
    assert!(SuppressExtensionFailure::log_matches("Request: signature with key"));
    assert!(!SuppressExtensionFailure::log_matches("Extension failure handling message"));
    assert!(!SuppressExtensionFailure::log_matches(
        "Error: Extension failure handling message: query"
    ));
    assert!(SuppressExtensionFailure::log_matches("Extension failure"));
    assert!(SuppressExtensionFailure::log_matches(""));
}

#[test]
fn broadcast_goes_to_every_agent_in_order() {
    let mux = MuxAgent::new(vec!["/a".to_string(), "/b".to_string(), "/c".to_string()]);
    assert_eq!(mux.broadcast_targets(), vec![0, 1, 2]);
    assert!(MuxAgent::new(vec![]).broadcast_targets().is_empty());
}
