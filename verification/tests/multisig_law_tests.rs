use bllvm_sdk::governance::{GovernanceError, GovernanceKeypair, Multisig, Signature};
use bllvm_sdk::sign_message;

fn keypairs(count: u8) -> Vec<GovernanceKeypair> {
    (1..=count).map(|seed| GovernanceKeypair::from_secret_key(&[seed; 32]).unwrap()).collect()
}

fn policy(threshold: usize, pairs: &[GovernanceKeypair]) -> Multisig {
    Multisig::new(threshold, pairs.len(), pairs.iter().map(|p| p.public_key()).collect()).unwrap()
}

fn sign_all(pairs: &[GovernanceKeypair], message: &[u8]) -> Vec<Signature> {
    pairs.iter().map(|p| sign_message(&p.secret_key, message).unwrap()).collect()
}

#[test]
fn test_construction_succeeds_for_every_threshold_in_range() {
    let pairs = keypairs(6);
    let keys: Vec<_> = pairs.iter().map(|p| p.public_key()).collect();
    for total in 1..=6usize {
        for threshold in 1..=total {
            let built = Multisig::new(threshold, total, keys[..total].to_vec()).unwrap();
            assert_eq!(built.threshold(), threshold);
            assert_eq!(built.total(), total);
            assert_eq!(built.public_keys(), &keys[..total]);
        }
    }
}

#[test]
fn test_construction_errors() {
    let pairs = keypairs(3);
    let keys: Vec<_> = pairs.iter().map(|p| p.public_key()).collect();
    assert!(matches!(
        Multisig::new(0, 3, keys.clone()),
        Err(GovernanceError::InvalidThreshold { threshold: 0, total: 3 })
    ));
    assert!(matches!(
        Multisig::new(4, 3, keys.clone()),
        Err(GovernanceError::InvalidThreshold { threshold: 4, total: 3 })
    ));
    // the threshold is looked at before the keys
    assert!(matches!(
        Multisig::new(0, 2, keys.clone()),
        Err(GovernanceError::InvalidThreshold { threshold: 0, total: 2 })
    ));
    match Multisig::new(2, 12, keys.clone()) {
        Err(GovernanceError::InvalidMultisig(text)) => {
            assert_eq!(text, "Expected 12 public keys, got 3")
        }
        other => panic!("unexpected outcome: {:?}", other),
    }
    match Multisig::new(1, 2, keys.clone()) {
        Err(GovernanceError::InvalidMultisig(text)) => {
            assert_eq!(text, "Expected 2 public keys, got 3")
        }
        other => panic!("unexpected outcome: {:?}", other),
    }
    let repeated = vec![keys[0], keys[1], keys[0]];
    match Multisig::new(2, 3, repeated) {
        Err(GovernanceError::InvalidMultisig(text)) => {
            assert_eq!(text, "Duplicate public keys not allowed")
        }
        other => panic!("unexpected outcome: {:?}", other),
    }
}

#[test]
fn test_two_of_two_with_one_key_twice_is_refused() {
    let pair = &keypairs(1)[0];
    let result = Multisig::new(2, 2, vec![pair.public_key(), pair.public_key()]);
    assert!(matches!(result, Err(GovernanceError::InvalidMultisig(_))));
}

#[test]
fn test_threshold_signatures_from_distinct_keys_pass() {
    let pairs = keypairs(5);
    let message = b"RELEASE:v1.0.0:abc123";
    for threshold in 1..=5usize {
        let policy = policy(threshold, &pairs);
        // the last `threshold` keys sign, in reverse order
        let mut signatures = sign_all(&pairs[5 - threshold..], message);
        signatures.reverse();
        assert_eq!(policy.verify(message, &signatures).unwrap(), true);
        assert_eq!(policy.verify(message, &sign_all(&pairs, message)).unwrap(), true);
        let too_few = &signatures[..threshold - 1];
        match policy.verify(message, too_few) {
            Err(GovernanceError::InsufficientSignatures { got, need }) => {
                assert_eq!(got, threshold - 1);
                assert_eq!(need, threshold);
            }
            other => panic!("unexpected outcome: {:?}", other),
        }
    }
}

#[test]
fn test_release_scenario_three_of_five() {
    let pairs: Vec<_> = (0..5).map(|_| GovernanceKeypair::generate().unwrap()).collect();
    let policy = policy(3, &pairs);
    let message = b"RELEASE:v1.0.0:abc123";
    assert_eq!(policy.verify(message, &sign_all(&pairs[0..3], message)).unwrap(), true);
    match policy.verify(message, &sign_all(&pairs[0..2], message)) {
        Err(GovernanceError::InsufficientSignatures { got: 2, need: 3 }) => {}
        other => panic!("unexpected outcome: {:?}", other),
    }
}

#[test]
fn test_one_key_signing_twice_counts_once() {
    let pairs = keypairs(3);
    let policy = policy(2, &pairs);
    let message = b"m";
    let once = sign_message(&pairs[1].secret_key, message).unwrap();
    let signatures = vec![once, once, once];
    assert_eq!(policy.collect_valid_signatures(message, &signatures).unwrap(), vec![1, 1, 1]);
    assert_eq!(policy.verify(message, &signatures).unwrap(), false);
    let with_another = vec![once, once, sign_message(&pairs[0].secret_key, message).unwrap()];
    assert_eq!(policy.verify(message, &with_another).unwrap(), true);
}

#[test]
fn test_enough_signatures_but_too_few_valid() {
    let pairs = keypairs(3);
    let outsider = GovernanceKeypair::from_secret_key(&[77u8; 32]).unwrap();
    let policy = policy(2, &pairs);
    let message = b"m";
    let signatures = vec![
        sign_message(&pairs[0].secret_key, message).unwrap(),
        sign_message(&outsider.secret_key, message).unwrap(),
        sign_message(&pairs[1].secret_key, b"other").unwrap(),
    ];
    assert_eq!(policy.collect_valid_signatures(message, &signatures).unwrap(), vec![0]);
    assert_eq!(policy.verify(message, &signatures).unwrap(), false);
}

#[test]
fn test_is_valid_signature_names_the_key() {
    let pairs = keypairs(4);
    let policy = policy(2, &pairs);
    let message = b"m";
    for (index, pair) in pairs.iter().enumerate() {
        let signature = sign_message(&pair.secret_key, message).unwrap();
        assert_eq!(policy.is_valid_signature(&signature, message).unwrap(), Some(index));
        assert_eq!(policy.is_valid_signature(&signature, b"other").unwrap(), None);
    }
    let outsider = GovernanceKeypair::from_secret_key(&[77u8; 32]).unwrap();
    let signature = sign_message(&outsider.secret_key, message).unwrap();
    assert_eq!(policy.is_valid_signature(&signature, message).unwrap(), None);
}

#[test]
fn test_clone_is_the_same_policy() {
    let pairs = keypairs(3);
    let source = policy(2, &pairs);
    let copy = source.clone();
    assert_eq!(copy.threshold(), 2);
    assert_eq!(copy.total(), 3);
    assert_eq!(copy.public_keys(), source.public_keys());
}
