//! Flat N-of-M threshold policies.

use vstd::prelude::*;
use vstd::string::StringExecFns;
use crate::governance::curve::{sha256, sha256_digest};
use crate::governance::error::{GovernanceError, GovernanceResult};
use crate::governance::keys::PublicKey;
use crate::governance::signatures::{signature_verifies, Signature};
use crate::text::{decimal_text, push_decimal};

verus! {

/// A threshold policy: `threshold` of the `total` listed keys must sign.
/// The keys are pairwise distinct.
#[derive(Debug)]
pub struct Multisig {
    threshold: usize,
    total: usize,
    public_keys: Vec<PublicKey>,
}

/// No two keys of the list have the same encoding.
pub open spec fn distinct_keys(keys: Seq<PublicKey>) -> bool {
    forall|i: int, j: int| 0 <= i < j < keys.len() ==> keys[i]@ != keys[j]@
}

/// `j` is the first key of the list under which the signature verifies.
pub open spec fn is_first_match(
    keys: Seq<PublicKey>,
    signature: Signature,
    message: Seq<u8>,
    j: int,
) -> bool {
    &&& 0 <= j < keys.len()
    &&& signature_verifies(signature@, message, keys[j]@)
    &&& forall|k: int| 0 <= k < j ==> !signature_verifies(signature@, message, #[trigger] keys[k]@)
}

/// The index of the first key under which the signature verifies, if there
/// is one.
pub open spec fn first_match(keys: Seq<PublicKey>, signature: Signature, message: Seq<u8>) -> Option<
    int,
> {
    if exists|j: int| is_first_match(keys, signature, message, j) {
        Some(choose|j: int| is_first_match(keys, signature, message, j))
    } else {
        None
    }
}

/// For each signature in order, the index of the first key under which it
/// verifies; a signature that verifies under no key adds nothing.
pub open spec fn matched_keys(keys: Seq<PublicKey>, message: Seq<u8>, signatures: Seq<Signature>) -> Seq<
    int,
>
    decreases signatures.len(),
{
    if signatures.len() == 0 {
        Seq::empty()
    } else {
        let before = matched_keys(keys, message, signatures.drop_last());
        match first_match(keys, signatures.last(), message) {
            Some(j) => before.push(j),
            None => before,
        }
    }
}

/// The keys that approve: those that are the first match of at least one
/// signature.  A key is in the set once, however many signatures match it.
pub open spec fn approving_keys(keys: Seq<PublicKey>, message: Seq<u8>, signatures: Seq<Signature>) -> Set<
    int,
> {
    matched_keys(keys, message, signatures).to_set()
}

/// A list of indices as mathematical integers.
pub open spec fn as_ints(indices: Seq<usize>) -> Seq<int> {
    indices.map_values(|j: usize| j as int)
}

/// The first match is the one index that `is_first_match` holds of.
pub proof fn lemma_first_match_unique(
    keys: Seq<PublicKey>,
    signature: Signature,
    message: Seq<u8>,
    j: int,
)
    requires
        is_first_match(keys, signature, message, j),
    ensures
        first_match(keys, signature, message) == Some(j),
{
    let chosen = choose|c: int| is_first_match(keys, signature, message, c);
    assert(is_first_match(keys, signature, message, chosen));
    if chosen < j {
        assert(!signature_verifies(signature@, message, keys[chosen]@));
    }
    if j < chosen {
        assert(!signature_verifies(signature@, message, keys[j]@));
    }
}

/// Where no key verifies the signature, there is no first match.
pub proof fn lemma_no_match(keys: Seq<PublicKey>, signature: Signature, message: Seq<u8>)
    requires
        forall|k: int|
            0 <= k < keys.len() ==> !signature_verifies(signature@, message, #[trigger] keys[k]@),
    ensures
        first_match(keys, signature, message) is None,
{
}

/// Every matched index is the index of a key, and there are no more matched
/// indices than signatures.
pub proof fn lemma_matched_keys_in_range(
    keys: Seq<PublicKey>,
    message: Seq<u8>,
    signatures: Seq<Signature>,
)
    ensures
        matched_keys(keys, message, signatures).len() <= signatures.len(),
        forall|i: int|
            0 <= i < matched_keys(keys, message, signatures).len() ==> 0 <= #[trigger] matched_keys(
                keys,
                message,
                signatures,
            )[i] < keys.len(),
    decreases signatures.len(),
{
    if signatures.len() > 0 {
        lemma_matched_keys_in_range(keys, message, signatures.drop_last());
    }
}

/// Each approving key is counted once: there are no more approving keys than
/// keys, and no more than signatures.
pub proof fn lemma_approving_keys_bounded(
    keys: Seq<PublicKey>,
    message: Seq<u8>,
    signatures: Seq<Signature>,
)
    ensures
        approving_keys(keys, message, signatures).finite(),
        approving_keys(keys, message, signatures).len() <= keys.len(),
        approving_keys(keys, message, signatures).len() <= signatures.len(),
{
    let matched = matched_keys(keys, message, signatures);
    lemma_matched_keys_in_range(keys, message, signatures);
    vstd::seq_lib::seq_to_set_is_finite(matched);
    matched.lemma_cardinality_of_set();
    let all = Set::new(|j: int| 0 <= j < keys.len());
    vstd::set_lib::lemma_int_range(0, keys.len() as int);
    assert(all =~= vstd::set_lib::set_int_range(0, keys.len() as int));
    assert(matched.to_set().subset_of(all)) by {
        assert forall|j: int| matched.to_set().contains(j) implies all.contains(j) by {
            let i = choose|i: int| 0 <= i < matched.len() && matched[i] == j;
            assert(0 <= matched[i] < keys.len());
        }
    }
    vstd::set_lib::lemma_len_subset(matched.to_set(), all);
}

/// Where every signature has a first match and no two signatures share
/// theirs, there are as many approving keys as signatures.
pub proof fn lemma_distinct_matches_all_count(
    keys: Seq<PublicKey>,
    message: Seq<u8>,
    signatures: Seq<Signature>,
)
    requires
        forall|i: int|
            0 <= i < signatures.len() ==> first_match(keys, #[trigger] signatures[i], message)
                is Some,
        forall|i: int, j: int|
            0 <= i < j < signatures.len() ==> first_match(keys, signatures[i], message)
                != first_match(keys, signatures[j], message),
    ensures
        matched_keys(keys, message, signatures).len() == signatures.len(),
        forall|i: int|
            0 <= i < signatures.len() ==> Some(
                #[trigger] matched_keys(keys, message, signatures)[i],
            ) == first_match(keys, signatures[i], message),
        approving_keys(keys, message, signatures).len() == signatures.len(),
    decreases signatures.len(),
{
    let matched = matched_keys(keys, message, signatures);
    if signatures.len() > 0 {
        let rest = signatures.drop_last();
        assert forall|i: int| 0 <= i < rest.len() implies first_match(
            keys,
            #[trigger] rest[i],
            message,
        ) is Some by {
            assert(rest[i] == signatures[i]);
        }
        assert forall|i: int, j: int| 0 <= i < j < rest.len() implies first_match(
            keys,
            rest[i],
            message,
        ) != first_match(keys, rest[j], message) by {
            assert(rest[i] == signatures[i]);
            assert(rest[j] == signatures[j]);
        }
        lemma_distinct_matches_all_count(keys, message, rest);
        let before = matched_keys(keys, message, rest);
        let last = first_match(keys, signatures.last(), message)->0;
        assert(matched == before.push(last));
        assert forall|i: int| 0 <= i < signatures.len() implies Some(#[trigger] matched[i])
            == first_match(keys, signatures[i], message) by {
            if i < rest.len() {
                assert(matched[i] == before[i]);
                assert(rest[i] == signatures[i]);
            }
        }
        assert(matched.no_duplicates()) by {
            assert forall|a: int, b: int|
                0 <= a < matched.len() && 0 <= b < matched.len() && a != b implies matched[a]
                != matched[b] by {
                assert(Some(matched[a]) == first_match(keys, signatures[a], message));
                assert(Some(matched[b]) == first_match(keys, signatures[b], message));
                if a < b {
                    assert(first_match(keys, signatures[a], message) != first_match(
                        keys,
                        signatures[b],
                        message,
                    ));
                } else {
                    assert(first_match(keys, signatures[b], message) != first_match(
                        keys,
                        signatures[a],
                        message,
                    ));
                }
            }
        }
        matched.unique_seq_to_set();
    } else {
        assert(matched.to_set() =~= Set::<int>::empty());
    }
}

/// The number of different indices in a list of key indices.
fn count_distinct(indices: &Vec<usize>, bound: usize) -> (count: usize)
    requires
        forall|i: int| 0 <= i < indices@.len() ==> indices@[i] < bound,
    ensures
        count == as_ints(indices@).to_set().len(),
{
    let mut seen: Vec<bool> = vec![false; bound];
    let mut count: usize = 0;
    let mut i: usize = 0;
    proof {
        assert(as_ints(indices@.take(0)) =~= Seq::<int>::empty());
        assert(as_ints(indices@.take(0)).to_set() =~= Set::<int>::empty());
    }
    while i < indices.len()
        invariant
            i <= indices@.len(),
            seen@.len() == bound,
            forall|k: int| 0 <= k < indices@.len() ==> indices@[k] < bound,
            forall|j: int|
                0 <= j < bound ==> (#[trigger] seen@[j] <==> as_ints(indices@.take(i as int)).contains(
                    j,
                )),
            count == as_ints(indices@.take(i as int)).to_set().len(),
            count <= i,
        decreases indices@.len() - i,
    {
        let j = indices[i];
        proof {
            let before = as_ints(indices@.take(i as int));
            let after = as_ints(indices@.take(i + 1));
            assert(after =~= before.push(j as int));
            before.lemma_push_to_set_commute(j as int);
            vstd::seq_lib::seq_to_set_is_finite(before);
            vstd::set::axiom_set_insert_len(before.to_set(), j as int);
            assert forall|k: int| 0 <= k < bound implies (k == j || before.contains(k)
                <==> after.contains(k)) by {
                if after.contains(k) {
                    let w = choose|w: int| 0 <= w < after.len() && after[w] == k;
                    if w < before.len() {
                        assert(before[w] == k);
                    }
                }
                if before.contains(k) {
                    let w = choose|w: int| 0 <= w < before.len() && before[w] == k;
                    assert(after[w] == k);
                }
                if k == j {
                    assert(after[i as int] == k);
                }
            }
        }
        if !seen[j] {
            seen.set(j, true);
            count += 1;
        }
        i += 1;
    }
    assert(indices@.take(indices@.len() as int) =~= indices@);
    count
}

impl Clone for Multisig {
    fn clone(&self) -> (copy: Self)
        ensures
            copy.spec_threshold() == self.spec_threshold(),
            copy.spec_total() == self.spec_total(),
            copy.keys() == self.keys(),
    {
        proof {
            use_type_invariant(self);
        }
        let mut public_keys: Vec<PublicKey> = Vec::new();
        let mut i: usize = 0;
        while i < self.public_keys.len()
            invariant
                i <= self.public_keys@.len(),
                public_keys@ == self.public_keys@.take(i as int),
            decreases self.public_keys@.len() - i,
        {
            public_keys.push(self.public_keys[i]);
            assert(self.public_keys@.take(i + 1) =~= self.public_keys@.take(i as int).push(
                self.public_keys@[i as int],
            ));
            i += 1;
        }
        assert(self.public_keys@.take(self.public_keys@.len() as int) =~= self.public_keys@);
        Multisig { threshold: self.threshold, total: self.total, public_keys }
    }
}

impl Multisig {
    #[verifier::type_invariant]
    spec fn well_formed(&self) -> bool {
        &&& 0 < self.threshold <= self.total
        &&& self.total == self.public_keys@.len()
        &&& distinct_keys(self.public_keys@)
    }

    /// The number of signatures the policy asks for.
    pub closed spec fn spec_threshold(&self) -> usize {
        self.threshold
    }

    /// The number of keys of the policy.
    pub closed spec fn spec_total(&self) -> usize {
        self.total
    }

    /// The keys of the policy, in the order they were given.
    pub closed spec fn keys(&self) -> Seq<PublicKey> {
        self.public_keys@
    }

    /// Every policy that exists at run time satisfies this.
    pub open spec fn valid(&self) -> bool {
        &&& 0 < self.spec_threshold() <= self.spec_total()
        &&& self.spec_total() == self.keys().len()
        &&& distinct_keys(self.keys())
    }

    /// What `verify` returns.
    pub open spec fn verify_spec(&self, message: Seq<u8>, signatures: Seq<Signature>) -> Result<
        bool,
        GovernanceError,
    > {
        if signatures.len() < self.spec_threshold() {
            Err(
                GovernanceError::InsufficientSignatures {
                    got: signatures.len() as usize,
                    need: self.spec_threshold(),
                },
            )
        } else {
            Ok(approving_keys(self.keys(), message, signatures).len() >= self.spec_threshold())
        }
    }

    /// Builds a policy.  The threshold must be at least one and at most
    /// `total`; there must be exactly `total` keys, no two of them equal.
    pub fn new(threshold: usize, total: usize, public_keys: Vec<PublicKey>) -> (r: GovernanceResult<
        Multisig,
    >)
        ensures
            threshold == 0 || threshold > total ==> r == GovernanceResult::<Multisig>::Err(
                GovernanceError::InvalidThreshold { threshold, total },
            ),
            0 < threshold <= total && public_keys@.len() != total ==> (r matches Err(
                GovernanceError::InvalidMultisig(text),
            ) && text@ == "Expected "@ + decimal_text(total as nat) + " public keys, got "@
                + decimal_text(public_keys@.len())),
            0 < threshold <= total && public_keys@.len() == total && !distinct_keys(public_keys@)
                ==> (r matches Err(GovernanceError::InvalidMultisig(text)) && text@
                == "Duplicate public keys not allowed"@),
            0 < threshold <= total && public_keys@.len() == total && distinct_keys(public_keys@)
                ==> (r matches Ok(policy) && policy.valid() && policy.spec_threshold() == threshold
                && policy.spec_total() == total && policy.keys() == public_keys@),
    {
        if threshold == 0 {
            return Err(GovernanceError::InvalidThreshold { threshold, total });
        }
        if threshold > total {
            return Err(GovernanceError::InvalidThreshold { threshold, total });
        }
        if public_keys.len() != total {
            let mut text = "Expected ".to_owned();
            push_decimal(&mut text, total as u64);
            text.append(" public keys, got ");
            push_decimal(&mut text, public_keys.len() as u64);
            return Err(GovernanceError::InvalidMultisig(text));
        }
        let mut i: usize = 0;
        while i < public_keys.len()
            invariant
                0 < threshold <= total,
                public_keys@.len() == total,
                i <= public_keys@.len(),
                forall|a: int, b: int| 0 <= a < b < i ==> public_keys@[a]@ != public_keys@[b]@,
            decreases public_keys@.len() - i,
        {
            let mut j: usize = 0;
            while j < i
                invariant
                    0 < threshold <= total,
                    public_keys@.len() == total,
                    j <= i < public_keys@.len(),
                    forall|a: int| 0 <= a < j ==> public_keys@[a]@ != public_keys@[i as int]@,
                decreases i - j,
            {
                if public_keys[j] == public_keys[i] {
                    return Err(
                        GovernanceError::InvalidMultisig(
                            "Duplicate public keys not allowed".to_owned(),
                        ),
                    );
                }
                j += 1;
            }
            i += 1;
        }
        Ok(Multisig { threshold, total, public_keys })
    }

    /// The index of the first key that accepts the signature over `digest`.
    fn first_accepting_key(&self, signature: &Signature, digest: &[u8; 32], Ghost(message): Ghost<
        Seq<u8>,
    >) -> (found: Option<usize>)
        requires
            digest@ == sha256(message),
        ensures
            found matches Some(j) ==> first_match(self.keys(), *signature, message) == Some(
                j as int,
            ),
            found is None ==> first_match(self.keys(), *signature, message) is None,
    {
        let mut j: usize = 0;
        while j < self.public_keys.len()
            invariant
                j <= self.public_keys@.len(),
                digest@ == sha256(message),
                forall|k: int|
                    0 <= k < j ==> !signature_verifies(
                        signature@,
                        message,
                        #[trigger] self.public_keys@[k]@,
                    ),
            decreases self.public_keys@.len() - j,
        {
            if signature.accepted_over(digest, &self.public_keys[j]) {
                proof {
                    lemma_first_match_unique(self.public_keys@, *signature, message, j as int);
                }
                return Some(j);
            }
            j += 1;
        }
        proof {
            lemma_no_match(self.public_keys@, *signature, message);
        }
        None
    }

    /// Checks a set of signatures against the policy.  Fewer signatures than
    /// the threshold are refused before any of them is checked.  Otherwise
    /// the answer is whether at least `threshold` different keys approve.
    pub fn verify(&self, message: &[u8], signatures: &[Signature]) -> (r: GovernanceResult<bool>)
        ensures
            r == self.verify_spec(message@, signatures@),
            self.valid(),
    {
        proof {
            use_type_invariant(self);
        }
        if signatures.len() < self.threshold {
            return Err(
                GovernanceError::InsufficientSignatures {
                    got: signatures.len(),
                    need: self.threshold,
                },
            );
        }
        match self.collect_valid_signatures(message, signatures) {
            Ok(valid_indices) => {
                let approving = count_distinct(&valid_indices, self.total);
                Ok(approving >= self.threshold)
            },
            Err(error) => Err(error),
        }
    }

    /// For each signature in order, the index of the first key under which it
    /// verifies.  A signature that verifies under no key adds nothing.
    pub fn collect_valid_signatures(&self, message: &[u8], signatures: &[Signature]) -> (r:
        GovernanceResult<Vec<usize>>)
        ensures
            r matches Ok(indices) && as_ints(indices@) == matched_keys(
                self.keys(),
                message@,
                signatures@,
            ) && indices@.len() <= signatures@.len() && forall|i: int|
                0 <= i < indices@.len() ==> #[trigger] indices@[i] < self.spec_total(),
    {
        proof {
            use_type_invariant(self);
            lemma_matched_keys_in_range(self.keys(), message@, signatures@);
        }
        let digest = sha256_digest(message);
        let mut valid_indices: Vec<usize> = Vec::new();
        let mut i: usize = 0;
        proof {
            assert(signatures@.take(0) =~= Seq::<Signature>::empty());
            assert(as_ints(valid_indices@) =~= Seq::<int>::empty());
        }
        while i < signatures.len()
            invariant
                i <= signatures@.len(),
                digest@ == sha256(message@),
                as_ints(valid_indices@) == matched_keys(
                    self.keys(),
                    message@,
                    signatures@.take(i as int),
                ),
            decreases signatures@.len() - i,
        {
            let ghost before = as_ints(valid_indices@);
            let found = self.first_accepting_key(&signatures[i], &digest, Ghost(message@));
            proof {
                assert(signatures@.take(i + 1).drop_last() =~= signatures@.take(i as int));
                assert(signatures@.take(i + 1).last() == signatures@[i as int]);
            }
            if let Some(j) = found {
                valid_indices.push(j);
                proof {
                    assert(as_ints(valid_indices@) =~= before.push(j as int));
                }
            }
            i += 1;
        }
        proof {
            assert(signatures@.take(signatures@.len() as int) =~= signatures@);
            assert forall|i: int| 0 <= i < valid_indices@.len() implies #[trigger] valid_indices@[i]
                < self.total by {
                assert(as_ints(valid_indices@)[i] == valid_indices@[i] as int);
            }
        }
        Ok(valid_indices)
    }

    /// The number of signatures the policy asks for.
    #[verifier::when_used_as_spec(spec_threshold)]
    pub fn threshold(&self) -> (threshold: usize)
        ensures
            threshold == self.spec_threshold(),
            self.valid(),
    {
        proof {
            use_type_invariant(self);
        }
        self.threshold
    }

    /// The number of keys of the policy.
    #[verifier::when_used_as_spec(spec_total)]
    pub fn total(&self) -> (total: usize)
        ensures
            total == self.spec_total(),
            self.valid(),
    {
        proof {
            use_type_invariant(self);
        }
        self.total
    }

    /// The keys of the policy, in the order they were given.
    pub fn public_keys(&self) -> (keys: &[PublicKey])
        ensures
            keys@ == self.keys(),
            self.valid(),
    {
        proof {
            use_type_invariant(self);
        }
        self.public_keys.as_slice()
    }

    /// The index of the first key under which the signature verifies for the
    /// message, if there is one.
    pub fn is_valid_signature(&self, signature: &Signature, message: &[u8]) -> (r: GovernanceResult<
        Option<usize>,
    >)
        ensures
            r matches Ok(found) && match found {
                Some(j) => first_match(self.keys(), *signature, message@) == Some(j as int),
                None => first_match(self.keys(), *signature, message@) is None,
            },
    {
        let digest = sha256_digest(message);
        Ok(self.first_accepting_key(signature, &digest, Ghost(message@)))
    }
}

/// With at least `threshold` signatures, each with a first-matching key of
/// its own, the policy is met.
pub proof fn lemma_signatures_from_distinct_keys_pass(
    policy: Multisig,
    message: Seq<u8>,
    signatures: Seq<Signature>,
)
    requires
        policy.valid(),
        policy.spec_threshold() <= signatures.len() <= usize::MAX,
        forall|i: int|
            0 <= i < signatures.len() ==> first_match(
                policy.keys(),
                #[trigger] signatures[i],
                message,
            ) is Some,
        forall|i: int, j: int|
            0 <= i < j < signatures.len() ==> first_match(policy.keys(), signatures[i], message)
                != first_match(policy.keys(), signatures[j], message),
    ensures
        policy.verify_spec(message, signatures) == GovernanceResult::<bool>::Ok(true),
{
    lemma_distinct_matches_all_count(policy.keys(), message, signatures);
}

/// With at least `threshold` signatures, each made by a key of the policy of
/// its own: it verifies under the key of its signer and under no other key of
/// the policy, and no two signatures have the same signer.  Then the policy
/// is met.
pub proof fn lemma_signatures_of_distinct_signers_pass(
    policy: Multisig,
    message: Seq<u8>,
    signatures: Seq<Signature>,
    signers: Seq<int>,
)
    requires
        policy.valid(),
        signers.len() == signatures.len(),
        policy.spec_threshold() <= signatures.len() <= usize::MAX,
        forall|i: int|
            0 <= i < signatures.len() ==> 0 <= #[trigger] signers[i] < policy.keys().len(),
        forall|i: int, j: int|
            0 <= i < signatures.len() && 0 <= j < policy.keys().len() ==> (signature_verifies(
                signatures[i]@,
                message,
                #[trigger] policy.keys()[j]@,
            ) <==> j == #[trigger] signers[i]),
        forall|i: int, j: int| 0 <= i < j < signatures.len() ==> signers[i] != signers[j],
    ensures
        policy.verify_spec(message, signatures) == GovernanceResult::<bool>::Ok(true),
{
    assert forall|i: int| 0 <= i < signatures.len() implies first_match(
        policy.keys(),
        #[trigger] signatures[i],
        message,
    ) == Some(signers[i]) by {
        let j = signers[i];
        assert(signature_verifies(signatures[i]@, message, policy.keys()[j]@));
        assert forall|k: int| 0 <= k < j implies !signature_verifies(
            signatures[i]@,
            message,
            #[trigger] policy.keys()[k]@,
        ) by {
            assert(k != signers[i]);
        }
        lemma_first_match_unique(policy.keys(), signatures[i], message, j);
    }
    lemma_signatures_from_distinct_keys_pass(policy, message, signatures);
}

/// With fewer signatures than the threshold, whatever they are, the policy
/// refuses them and says how many it got and how many it needs.
pub proof fn lemma_too_few_signatures_fail(
    policy: Multisig,
    message: Seq<u8>,
    signatures: Seq<Signature>,
)
    requires
        policy.valid(),
        signatures.len() < policy.spec_threshold(),
    ensures
        policy.verify_spec(message, signatures) == GovernanceResult::<bool>::Err(
            GovernanceError::InsufficientSignatures {
                got: signatures.len() as usize,
                need: policy.spec_threshold(),
            },
        ),
{
}

} // verus!
