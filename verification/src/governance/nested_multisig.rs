//! Two-level threshold policies: a threshold of teams, each with a threshold
//! of its own maintainers.

use vstd::prelude::*;
use vstd::string::StringExecFns;
use crate::governance::curve::{sha256, sha256_digest};
use crate::governance::error::{GovernanceError, GovernanceResult};
use crate::governance::keys::PublicKey;
use crate::governance::signatures::{signature_verifies, Signature};
use crate::text::{decimal_text, push_decimal};

verus! {

/// A maintainer: an outside identity and the key it signs with.
#[derive(Debug)]
pub struct TeamMaintainer {
    pub github: String,
    pub public_key: PublicKey,
}

/// A team of maintainers.
#[derive(Debug)]
pub struct Team {
    pub id: String,
    pub name: String,
    pub maintainers: Vec<TeamMaintainer>,
}

/// A two-level policy: `teams_required` teams must approve, and a team
/// approves with `maintainers_per_team_required` valid signatures of its own
/// maintainers.
#[derive(Debug)]
pub struct NestedMultisig {
    teams: Vec<Team>,
    teams_required: usize,
    maintainers_per_team_required: usize,
}

/// How one team stands after a verification.
#[derive(Debug)]
pub struct TeamApprovalStatus {
    pub team_id: String,
    pub team_name: String,
    pub maintainers_signed: usize,
    pub maintainers_required: usize,
    pub approved: bool,
}

/// The outcome of a verification.
#[derive(Debug)]
pub struct NestedMultisigResult {
    pub teams_approved: usize,
    pub teams_required: usize,
    pub maintainers_approved: usize,
    pub maintainers_required: usize,
    pub inter_team_approved: bool,
    pub team_details: Vec<TeamApprovalStatus>,
}

/// `m` is the first maintainer of the team with the given identity.  A
/// signature handed in under an identity is checked against this
/// maintainer's key and no other.
pub open spec fn is_member(team: Team, identity: Seq<char>, m: int) -> bool {
    &&& 0 <= m < team.maintainers@.len()
    &&& team.maintainers@[m].github@ == identity
    &&& forall|k: int| 0 <= k < m ==> (#[trigger] team.maintainers@[k]).github@ != identity
}

/// Whether the team has a maintainer with the given identity.
pub open spec fn has_member(team: Team, identity: Seq<char>) -> bool {
    exists|m: int| 0 <= m < team.maintainers@.len() && (#[trigger] team.maintainers@[m]).github@
        == identity
}

/// `t` is the team of the identity: the first team that has a maintainer
/// with it.
pub open spec fn is_team_of(teams: Seq<Team>, identity: Seq<char>, t: int) -> bool {
    &&& 0 <= t < teams.len()
    &&& has_member(teams[t], identity)
    &&& forall|u: int| 0 <= u < t ==> !has_member(#[trigger] teams[u], identity)
}

/// Whether a submission counts for team `t`: the identity belongs to that
/// team, and the signature verifies under the key of the maintainer it names.
pub open spec fn counts_for(
    teams: Seq<Team>,
    t: int,
    message: Seq<u8>,
    submission: (String, Signature),
) -> bool {
    &&& is_team_of(teams, submission.0@, t)
    &&& exists|m: int|
        is_member(teams[t], submission.0@, m) && signature_verifies(
            submission.1@,
            message,
            (#[trigger] teams[t].maintainers@[m]).public_key@,
        )
}

/// The number of submissions that count for team `t`.
pub open spec fn valid_count(
    teams: Seq<Team>,
    t: int,
    message: Seq<u8>,
    submissions: Seq<(String, Signature)>,
) -> nat
    decreases submissions.len(),
{
    if submissions.len() == 0 {
        0
    } else {
        valid_count(teams, t, message, submissions.drop_last()) + if counts_for(
            teams,
            t,
            message,
            submissions.last(),
        ) {
            1nat
        } else {
            0nat
        }
    }
}

/// Among the first `n` teams, the number of those whose count of valid
/// signatures reaches `per_team`.
pub open spec fn approved_teams(
    teams: Seq<Team>,
    per_team: nat,
    message: Seq<u8>,
    submissions: Seq<(String, Signature)>,
    n: nat,
) -> nat
    decreases n,
{
    if n == 0 {
        0
    } else {
        approved_teams(teams, per_team, message, submissions, (n - 1) as nat) + if valid_count(
            teams,
            n - 1,
            message,
            submissions,
        ) >= per_team {
            1nat
        } else {
            0nat
        }
    }
}

/// Among the first `n` teams, the valid signatures of those that approve.
pub open spec fn approved_signatures(
    teams: Seq<Team>,
    per_team: nat,
    message: Seq<u8>,
    submissions: Seq<(String, Signature)>,
    n: nat,
) -> nat
    decreases n,
{
    if n == 0 {
        0
    } else {
        approved_signatures(teams, per_team, message, submissions, (n - 1) as nat) + if valid_count(
            teams,
            n - 1,
            message,
            submissions,
        ) >= per_team {
            valid_count(teams, n - 1, message, submissions)
        } else {
            0nat
        }
    }
}

/// The sum of a list of counts.
pub open spec fn total(counts: Seq<usize>) -> nat
    decreases counts.len(),
{
    if counts.len() == 0 {
        0
    } else {
        total(counts.drop_last()) + counts.last() as nat
    }
}

proof fn lemma_total_update(counts: Seq<usize>, t: int, value: usize)
    requires
        0 <= t < counts.len(),
    ensures
        total(counts.update(t, value)) == total(counts) - counts[t] + value,
    decreases counts.len(),
{
    if t == counts.len() - 1 {
        assert(counts.update(t, value).drop_last() =~= counts.drop_last());
    } else {
        lemma_total_update(counts.drop_last(), t, value);
        assert(counts.update(t, value).drop_last() =~= counts.drop_last().update(t, value));
    }
}

proof fn lemma_total_prefix(counts: Seq<usize>, n: int)
    requires
        0 <= n <= counts.len(),
    ensures
        total(counts.take(n)) <= total(counts),
    decreases counts.len(),
{
    if n == counts.len() {
        assert(counts.take(n) =~= counts);
    } else {
        lemma_total_prefix(counts.drop_last(), n);
        assert(counts.drop_last().take(n) =~= counts.take(n));
    }
}

/// An identity has one team, and a team one maintainer per identity: a
/// submission counts for at most one team.
pub proof fn lemma_counts_for_one_team(
    teams: Seq<Team>,
    message: Seq<u8>,
    submission: (String, Signature),
    t: int,
    u: int,
)
    requires
        counts_for(teams, t, message, submission),
        counts_for(teams, u, message, submission),
    ensures
        t == u,
{
    if t < u {
        assert(!has_member(teams[t], submission.0@));
    }
    if u < t {
        assert(!has_member(teams[u], submission.0@));
    }
}

impl Clone for TeamApprovalStatus {
    fn clone(&self) -> (copy: Self)
        ensures
            copy == *self,
    {
        TeamApprovalStatus {
            team_id: self.team_id.clone(),
            team_name: self.team_name.clone(),
            maintainers_signed: self.maintainers_signed,
            maintainers_required: self.maintainers_required,
            approved: self.approved,
        }
    }
}

impl Clone for NestedMultisigResult {
    fn clone(&self) -> (copy: Self)
        ensures
            copy.teams_approved == self.teams_approved,
            copy.teams_required == self.teams_required,
            copy.maintainers_approved == self.maintainers_approved,
            copy.maintainers_required == self.maintainers_required,
            copy.inter_team_approved == self.inter_team_approved,
            copy.team_details@ == self.team_details@,
    {
        let mut team_details: Vec<TeamApprovalStatus> = Vec::new();
        let mut i: usize = 0;
        while i < self.team_details.len()
            invariant
                i <= self.team_details@.len(),
                team_details@ == self.team_details@.take(i as int),
            decreases self.team_details@.len() - i,
        {
            team_details.push(self.team_details[i].clone());
            assert(self.team_details@.take(i + 1) =~= self.team_details@.take(i as int).push(
                self.team_details@[i as int],
            ));
            i += 1;
        }
        assert(self.team_details@.take(self.team_details@.len() as int) =~= self.team_details@);
        NestedMultisigResult {
            teams_approved: self.teams_approved,
            teams_required: self.teams_required,
            maintainers_approved: self.maintainers_approved,
            maintainers_required: self.maintainers_required,
            inter_team_approved: self.inter_team_approved,
            team_details,
        }
    }
}

/// Whether two teams have the same id, name and maintainers.
pub open spec fn same_team(a: Team, b: Team) -> bool {
    a.id == b.id && a.name == b.name && a.maintainers@ == b.maintainers@
}

impl Clone for NestedMultisig {
    fn clone(&self) -> (copy: Self)
        ensures
            copy.teams().len() == self.teams().len(),
            forall|t: int|
                0 <= t < self.teams().len() ==> same_team(
                    #[trigger] copy.teams()[t],
                    self.teams()[t],
                ),
            copy.teams_required() == self.teams_required(),
            copy.maintainers_per_team_required() == self.maintainers_per_team_required(),
    {
        proof {
            use_type_invariant(self);
        }
        let mut teams: Vec<Team> = Vec::new();
        let mut i: usize = 0;
        while i < self.teams.len()
            invariant
                i <= self.teams@.len(),
                teams@.len() == i,
                forall|t: int| 0 <= t < i ==> same_team(#[trigger] teams@[t], self.teams@[t]),
            decreases self.teams@.len() - i,
        {
            teams.push(self.teams[i].clone());
            i += 1;
        }
        NestedMultisig {
            teams,
            teams_required: self.teams_required,
            maintainers_per_team_required: self.maintainers_per_team_required,
        }
    }
}

impl Clone for TeamMaintainer {
    fn clone(&self) -> (copy: Self)
        ensures
            copy == *self,
    {
        TeamMaintainer { github: self.github.clone(), public_key: self.public_key }
    }
}

impl Clone for Team {
    fn clone(&self) -> (copy: Self)
        ensures
            same_team(copy, *self),
    {
        let mut maintainers: Vec<TeamMaintainer> = Vec::new();
        let mut i: usize = 0;
        while i < self.maintainers.len()
            invariant
                i <= self.maintainers@.len(),
                maintainers@ == self.maintainers@.take(i as int),
            decreases self.maintainers@.len() - i,
        {
            maintainers.push(self.maintainers[i].clone());
            assert(self.maintainers@.take(i + 1) =~= self.maintainers@.take(i as int).push(
                self.maintainers@[i as int],
            ));
            i += 1;
        }
        assert(self.maintainers@.take(self.maintainers@.len() as int) =~= self.maintainers@);
        Team { id: self.id.clone(), name: self.name.clone(), maintainers }
    }
}

/// The index of the first maintainer of the team with the given identity.
fn find_member(team: &Team, github: &String) -> (found: Option<usize>)
    ensures
        found matches Some(m) ==> is_member(*team, github@, m as int),
        found is None ==> !has_member(*team, github@),
{
    let mut m: usize = 0;
    while m < team.maintainers.len()
        invariant
            m <= team.maintainers@.len(),
            forall|k: int| 0 <= k < m ==> (#[trigger] team.maintainers@[k]).github@ != github@,
        decreases team.maintainers@.len() - m,
    {
        if team.maintainers[m].github == *github {
            return Some(m);
        }
        m += 1;
    }
    None
}

impl NestedMultisig {
    #[verifier::type_invariant]
    spec fn well_formed(&self) -> bool {
        &&& 0 < self.teams_required <= self.teams@.len()
        &&& 0 < self.maintainers_per_team_required
        &&& self.teams_required * self.maintainers_per_team_required <= usize::MAX
        &&& forall|t: int|
            0 <= t < self.teams@.len() ==> (#[trigger] self.teams@[t]).maintainers@.len()
                >= self.maintainers_per_team_required
    }

    /// The teams of the policy, in the order they were given.
    pub closed spec fn teams(&self) -> Seq<Team> {
        self.teams@
    }

    /// The number of teams that must approve.
    pub closed spec fn teams_required(&self) -> usize {
        self.teams_required
    }

    /// The number of valid signatures with which a team approves.
    pub closed spec fn maintainers_per_team_required(&self) -> usize {
        self.maintainers_per_team_required
    }

    /// Every policy that exists at run time satisfies this.
    pub open spec fn valid(&self) -> bool {
        &&& 0 < self.teams_required() <= self.teams().len()
        &&& 0 < self.maintainers_per_team_required()
        &&& self.teams_required() * self.maintainers_per_team_required() <= usize::MAX
        &&& forall|t: int|
            0 <= t < self.teams().len() ==> (#[trigger] self.teams()[t]).maintainers@.len()
                >= self.maintainers_per_team_required()
    }

    /// Whether a team has fewer maintainers than the policy asks of it.
    pub open spec fn too_small(team: Team, per_team: usize) -> bool {
        team.maintainers@.len() < per_team
    }

    /// Whether team `t` is the first that has too few maintainers.
    pub open spec fn first_too_small(teams: Seq<Team>, per_team: usize, t: int) -> bool {
        &&& 0 <= t < teams.len()
        &&& Self::too_small(teams[t], per_team)
        &&& forall|u: int| 0 <= u < t ==> !Self::too_small(#[trigger] teams[u], per_team)
    }

    /// What `verify` reports of team `t`.
    pub open spec fn status_of(
        &self,
        t: int,
        message: Seq<u8>,
        submissions: Seq<(String, Signature)>,
        status: TeamApprovalStatus,
    ) -> bool {
        let signed = valid_count(self.teams(), t, message, submissions);
        &&& status.team_id@ == self.teams()[t].id@
        &&& status.team_name@ == self.teams()[t].name@
        &&& status.maintainers_signed == signed
        &&& status.maintainers_required == self.maintainers_per_team_required()
        &&& status.approved == (signed >= self.maintainers_per_team_required())
    }

    /// What `verify` reports.
    pub open spec fn outcome_of(
        &self,
        message: Seq<u8>,
        submissions: Seq<(String, Signature)>,
        outcome: NestedMultisigResult,
    ) -> bool {
        let per_team = self.maintainers_per_team_required() as nat;
        let teams = self.teams();
        &&& outcome.teams_approved == approved_teams(
            teams,
            per_team,
            message,
            submissions,
            teams.len(),
        )
        &&& outcome.teams_required == self.teams_required()
        &&& outcome.maintainers_approved == approved_signatures(
            teams,
            per_team,
            message,
            submissions,
            teams.len(),
        )
        &&& outcome.maintainers_required == self.teams_required() * per_team
        &&& outcome.inter_team_approved == (outcome.teams_approved >= self.teams_required())
        &&& outcome.team_details@.len() == teams.len()
        &&& forall|t: int|
            0 <= t < teams.len() ==> self.status_of(
                t,
                message,
                submissions,
                #[trigger] outcome.team_details@[t],
            )
    }

    /// Builds a policy.  `teams_required` must be at least one and at most
    /// the number of teams, `maintainers_per_team_required` at least one, and
    /// every team must have that many maintainers; the error names the first
    /// team that has not.  `verify` reports the product of the two
    /// thresholds, so where all of this holds the product must fit the
    /// machine word.
    pub fn new(teams: Vec<Team>, teams_required: usize, maintainers_per_team_required: usize) -> (r:
        GovernanceResult<NestedMultisig>)
        requires
            (0 < teams_required <= teams@.len() && maintainers_per_team_required > 0 && forall|
                t: int,
            |
                0 <= t < teams@.len() ==> !Self::too_small(
                    #[trigger] teams@[t],
                    maintainers_per_team_required,
                )) ==> teams_required * maintainers_per_team_required <= usize::MAX,
        ensures
            teams_required == 0 || teams_required > teams@.len() ==> r == GovernanceResult::<
                NestedMultisig,
            >::Err(
                GovernanceError::InvalidThreshold {
                    threshold: teams_required,
                    total: teams@.len() as usize,
                },
            ),
            0 < teams_required <= teams@.len() && maintainers_per_team_required == 0 ==> r
                == GovernanceResult::<NestedMultisig>::Err(
                GovernanceError::InvalidThreshold { threshold: 0, total: 7 },
            ),
            0 < teams_required <= teams@.len() && maintainers_per_team_required > 0 && (exists|
                t: int,
            |
                0 <= t < teams@.len() && Self::too_small(
                    #[trigger] teams@[t],
                    maintainers_per_team_required,
                )) ==> r matches Err(GovernanceError::InvalidMultisig(_)),
            0 < teams_required <= teams@.len() && maintainers_per_team_required > 0 ==> forall|
                t: int,
            |
                Self::first_too_small(teams@, maintainers_per_team_required, t) ==> (r matches Err(
                    GovernanceError::InvalidMultisig(text),
                ) && text@ == Self::too_small_text(teams@[t], maintainers_per_team_required)),
            0 < teams_required <= teams@.len() && maintainers_per_team_required > 0 && (forall|
                t: int,
            |
                0 <= t < teams@.len() ==> !Self::too_small(
                    #[trigger] teams@[t],
                    maintainers_per_team_required,
                )) ==> (r matches Ok(policy) && policy.valid() && policy.teams() == teams@
                && policy.teams_required() == teams_required
                && policy.maintainers_per_team_required() == maintainers_per_team_required),
    {
        if teams_required == 0 || teams_required > teams.len() {
            return Err(
                GovernanceError::InvalidThreshold { threshold: teams_required, total: teams.len() },
            );
        }
        if maintainers_per_team_required == 0 {
            return Err(
                GovernanceError::InvalidThreshold {
                    threshold: maintainers_per_team_required,
                    total: 7,
                },
            );
        }
        let mut t: usize = 0;
        while t < teams.len()
            invariant
                0 < teams_required <= teams@.len(),
                maintainers_per_team_required > 0,
                (forall|u: int|
                    0 <= u < teams@.len() ==> !Self::too_small(
                        #[trigger] teams@[u],
                        maintainers_per_team_required,
                    )) ==> teams_required * maintainers_per_team_required <= usize::MAX,
                t <= teams@.len(),
                forall|u: int|
                    0 <= u < t ==> !Self::too_small(
                        #[trigger] teams@[u],
                        maintainers_per_team_required,
                    ),
            decreases teams@.len() - t,
        {
            let team = &teams[t];
            if team.maintainers.len() < maintainers_per_team_required {
                let mut text = "Team ".to_owned();
                text.append(team.id.as_str());
                text.append(" has ");
                push_decimal(&mut text, team.maintainers.len() as u64);
                text.append(" maintainers, but ");
                push_decimal(&mut text, maintainers_per_team_required as u64);
                text.append(" required");
                return Err(GovernanceError::InvalidMultisig(text));
            }
            t += 1;
        }
        Ok(NestedMultisig { teams, teams_required, maintainers_per_team_required })
    }

    /// The message for a team with too few maintainers.
    pub open spec fn too_small_text(team: Team, per_team: usize) -> Seq<char> {
        "Team "@ + team.id@ + " has "@ + decimal_text(team.maintainers@.len()) + " maintainers, but "@
            + decimal_text(per_team as nat) + " required"@
    }

    /// The index of the identity's team: the first team that has a maintainer
    /// with it.
    fn find_maintainer_team(&self, github: &String) -> (found: Option<usize>)
        ensures
            found matches Some(t) ==> is_team_of(self.teams(), github@, t as int),
            found is None ==> forall|t: int|
                0 <= t < self.teams().len() ==> !has_member(#[trigger] self.teams()[t], github@),
    {
        let mut t: usize = 0;
        while t < self.teams.len()
            invariant
                t <= self.teams@.len(),
                forall|u: int| 0 <= u < t ==> !has_member(#[trigger] self.teams@[u], github@),
            decreases self.teams@.len() - t,
        {
            if find_member(&self.teams[t], github).is_some() {
                return Some(t);
            }
            t += 1;
        }
        None
    }

    /// The team for which a submission counts, if it counts for one.
    fn counted_team(&self, submission: &(String, Signature), digest: &[u8; 32], Ghost(message): Ghost<
        Seq<u8>,
    >) -> (found: Option<usize>)
        requires
            digest@ == sha256(message),
        ensures
            found matches Some(t) ==> counts_for(self.teams(), t as int, message, *submission),
            found is None ==> forall|t: int| !counts_for(self.teams(), t, message, *submission),
    {
        match self.find_maintainer_team(&submission.0) {
            Some(t) => {
                let team = &self.teams[t];
                match find_member(team, &submission.0) {
                    Some(m) => {
                        if submission.1.accepted_over(digest, &team.maintainers[m].public_key) {
                            Some(t)
                        } else {
                            proof {
                                assert forall|u: int| !counts_for(
                                    self.teams(),
                                    u,
                                    message,
                                    *submission,
                                ) by {
                                    if counts_for(self.teams(), u, message, *submission) {
                                        assert(u == t) by {
                                            if u < t {
                                                assert(!has_member(self.teams()[u], submission.0@));
                                            }
                                            if t < u {
                                                assert(!has_member(
                                                    self.teams()[t as int],
                                                    submission.0@,
                                                ));
                                            }
                                        }
                                        let other = choose|other: int|
                                            is_member(self.teams()[u], submission.0@, other)
                                                && signature_verifies(
                                                submission.1@,
                                                message,
                                                (#[trigger] self.teams()[u].maintainers@[other]).public_key@,
                                            );
                                        if other < m {
                                            assert(self.teams()[u].maintainers@[other].github@
                                                != submission.0@);
                                        }
                                        if m < other {
                                            assert(self.teams()[u].maintainers@[m as int].github@
                                                != submission.0@);
                                        }
                                    }
                                }
                            }
                            None
                        }
                    },
                    None => None,
                }
            },
            None => None,
        }
    }

    /// Checks submissions, each an identity with a signature, against the
    /// policy.  A submission under an identity that no team has is dropped;
    /// every other one is checked against the key of the maintainer it names
    /// and counts for that maintainer's team each time it is handed in.  Lack
    /// of a quorum is reported in the outcome, never as an error.
    pub fn verify(&self, message: &[u8], signatures: &[(String, Signature)]) -> (r:
        GovernanceResult<NestedMultisigResult>)
        ensures
            r matches Ok(outcome) && self.outcome_of(message@, signatures@, outcome),
            self.valid(),
    {
        proof {
            use_type_invariant(self);
        }
        let digest = sha256_digest(message);
        let mut counts: Vec<usize> = vec![0usize; self.teams.len()];
        let mut i: usize = 0;
        proof {
            assert(signatures@.take(0) =~= Seq::<(String, Signature)>::empty());
            lemma_total_zero(counts@);
        }
        while i < signatures.len()
            invariant
                i <= signatures@.len(),
                digest@ == sha256(message@),
                counts@.len() == self.teams@.len(),
                forall|t: int|
                    0 <= t < counts@.len() ==> #[trigger] counts@[t] == valid_count(
                        self.teams(),
                        t,
                        message@,
                        signatures@.take(i as int),
                    ),
                total(counts@) <= i,
            decreases signatures@.len() - i,
        {
            let found = self.counted_team(&signatures[i], &digest, Ghost(message@));
            proof {
                assert(signatures@.take(i + 1).drop_last() =~= signatures@.take(i as int));
                assert(signatures@.take(i + 1).last() == signatures@[i as int]);
            }
            if let Some(t) = found {
                let ghost before = counts@;
                proof {
                    lemma_total_at_least(before, t as int);
                }
                let bumped = counts[t] + 1;
                proof {
                    lemma_total_update(before, t as int, bumped);
                }
                counts.set(t, bumped);
                proof {
                    assert forall|u: int| 0 <= u < counts@.len() implies #[trigger] counts@[u]
                        == valid_count(self.teams(), u, message@, signatures@.take(i + 1)) by {
                        if u != t && counts_for(self.teams(), u, message@, signatures@[i as int]) {
                            lemma_counts_for_one_team(
                                self.teams(),
                                message@,
                                signatures@[i as int],
                                t as int,
                                u,
                            );
                        }
                    }
                }
            }
            i += 1;
        }
        proof {
            assert(signatures@.take(signatures@.len() as int) =~= signatures@);
        }
        let submitted = signatures.len();
        let mut teams_approved: usize = 0;
        let mut total_maintainers_approved: usize = 0;
        let mut team_details: Vec<TeamApprovalStatus> = Vec::new();
        let mut t: usize = 0;
        while t < self.teams.len()
            invariant
                t <= self.teams@.len(),
                counts@.len() == self.teams@.len(),
                0 < self.maintainers_per_team_required,
                forall|u: int|
                    0 <= u < counts@.len() ==> #[trigger] counts@[u] == valid_count(
                        self.teams(),
                        u,
                        message@,
                        signatures@,
                    ),
                total(counts@) <= submitted,
                teams_approved == approved_teams(
                    self.teams(),
                    self.maintainers_per_team_required as nat,
                    message@,
                    signatures@,
                    t as nat,
                ),
                teams_approved <= t,
                total_maintainers_approved == approved_signatures(
                    self.teams(),
                    self.maintainers_per_team_required as nat,
                    message@,
                    signatures@,
                    t as nat,
                ),
                total_maintainers_approved <= total(counts@.take(t as int)),
                team_details@.len() == t,
                forall|u: int|
                    0 <= u < t ==> self.status_of(
                        u,
                        message@,
                        signatures@,
                        #[trigger] team_details@[u],
                    ),
            decreases self.teams@.len() - t,
        {
            let team = &self.teams[t];
            let valid_sigs = counts[t];
            let team_approved = valid_sigs >= self.maintainers_per_team_required;
            proof {
                assert(counts@.take(t + 1).drop_last() =~= counts@.take(t as int));
                assert(total(counts@.take(t + 1)) == total(counts@.take(t as int)) + valid_sigs);
                lemma_total_prefix(counts@, t + 1);
            }
            if team_approved {
                teams_approved += 1;
                total_maintainers_approved += valid_sigs;
            }
            team_details.push(
                TeamApprovalStatus {
                    team_id: team.id.clone(),
                    team_name: team.name.clone(),
                    maintainers_signed: valid_sigs,
                    maintainers_required: self.maintainers_per_team_required,
                    approved: team_approved,
                },
            );
            t += 1;
        }
        let inter_team_approved = teams_approved >= self.teams_required;
        let total_maintainers_required = self.teams_required * self.maintainers_per_team_required;
        Ok(
            NestedMultisigResult {
                teams_approved,
                teams_required: self.teams_required,
                maintainers_approved: total_maintainers_approved,
                maintainers_required: total_maintainers_required,
                inter_team_approved,
                team_details,
            },
        )
    }
}

proof fn lemma_total_zero(counts: Seq<usize>)
    requires
        forall|t: int| 0 <= t < counts.len() ==> counts[t] == 0,
    ensures
        total(counts) == 0,
    decreases counts.len(),
{
    if counts.len() > 0 {
        lemma_total_zero(counts.drop_last());
    }
}

proof fn lemma_total_at_least(counts: Seq<usize>, t: int)
    requires
        0 <= t < counts.len(),
    ensures
        counts[t] <= total(counts),
    decreases counts.len(),
{
    if t < counts.len() - 1 {
        lemma_total_at_least(counts.drop_last(), t);
    }
}

} // verus!
