//! The committee, and the rule by which its signatures certify an action.
//!
//! A set of signatures certifies an action when the signers are members of
//! the committee, no member signed twice, and the voting power of the
//! signers together reaches the threshold asked for. Whether a signature is
//! a member's true signature is for the holder of the public keys to say;
//! this module only counts.

use crate::types::{
    signature_views, AuthoritySignature, AuthoritySignatureView, BridgeAction,
    CertifiedBridgeActionView, VerifiedCertifiedBridgeAction,
};
use vstd::prelude::*;

verus! {

/// Compares two byte strings.
pub fn bytes_eq(a: &Vec<u8>, b: &Vec<u8>) -> (same: bool)
    ensures
        same == (a@ == b@),
{
    if a.len() != b.len() {
        return false;
    }
    let mut i: usize = 0;
    while i < a.len()
        invariant
            i <= a@.len(),
            a@.len() == b@.len(),
            forall|k: int| 0 <= k < i ==> a@[k] == b@[k],
        decreases a@.len() - i,
    {
        if a[i] != b[i] {
            return false;
        }
        i = i + 1;
    }
    assert(a@ =~= b@);
    true
}

/// A member of the committee: its public key and its voting power.
#[derive(Clone, Debug, PartialEq, Eq)]
pub struct BridgeAuthority {
    pub pubkey: Vec<u8>,
    pub voting_power: u64,
}

/// The public keys of a list of members, in the same order.
pub open spec fn pubkeys_of(members: Seq<BridgeAuthority>) -> Seq<Seq<u8>> {
    Seq::new(members.len(), |i: int| members[i].pubkey@)
}

/// The signers of a list of signatures, in the same order.
pub open spec fn signers_of(signatures: Seq<AuthoritySignatureView>) -> Seq<Seq<u8>> {
    Seq::new(signatures.len(), |i: int| signatures[i].authority)
}

/// The voting power that `signers` have together in a committee; who is
/// no member has none.
pub open spec fn voting_power_of(committee: Map<Seq<u8>, u64>, signers: Seq<Seq<u8>>) -> nat
    decreases signers.len(),
{
    if signers.len() == 0 {
        0
    } else {
        let power: nat = if committee.contains_key(signers.last()) {
            committee[signers.last()] as nat
        } else {
            0
        };
        voting_power_of(committee, signers.drop_last()) + power
    }
}

/// Whether the signers certify an action under this committee: each is a
/// member, none occurs twice, and together they reach the threshold.
pub open spec fn certifies(
    committee: Map<Seq<u8>, u64>,
    signers: Seq<Seq<u8>>,
    threshold: u64,
) -> bool {
    &&& signers.no_duplicates()
    &&& forall|i: int| 0 <= i < signers.len() ==> committee.contains_key(#[trigger] signers[i])
    &&& voting_power_of(committee, signers) >= threshold
}

/// The committee: its members, each with a public key of its own.
#[derive(Debug)]
pub struct BridgeCommittee {
    members: Vec<BridgeAuthority>,
}

impl View for BridgeCommittee {
    type V = Map<Seq<u8>, u64>;

    /// The voting power of each member, by public key.
    closed spec fn view(&self) -> Map<Seq<u8>, u64> {
        Map::new(
            |pubkey: Seq<u8>| pubkeys_of(self.members@).contains(pubkey),
            |pubkey: Seq<u8>| self.members@[pubkeys_of(self.members@).index_of(pubkey)].voting_power,
        )
    }
}

impl BridgeCommittee {
    /// No two members share a public key.
    #[verifier::type_invariant]
    closed spec fn distinct_members(&self) -> bool {
        pubkeys_of(self.members@).no_duplicates()
    }

    /// Member `i` has its voting power under its public key.
    proof fn lemma_member_is_mapped(&self, i: int)
        requires
            self.distinct_members(),
            0 <= i < self.members@.len(),
        ensures
            self@.contains_key(self.members@[i].pubkey@),
            self@[self.members@[i].pubkey@] == self.members@[i].voting_power,
    {
        let pubkey = self.members@[i].pubkey@;
        assert(pubkeys_of(self.members@)[i] == pubkey);
        let j = pubkeys_of(self.members@).index_of(pubkey);
        assert(pubkeys_of(self.members@)[j] == pubkey);
    }

    /// Where the member with this public key is held, if there is one.
    fn position(members: &Vec<BridgeAuthority>, pubkey: &Vec<u8>) -> (found: Option<usize>)
        ensures
            match found {
                Some(i) => i < members@.len() && members@[i as int].pubkey@ == pubkey@,
                None => !pubkeys_of(members@).contains(pubkey@),
            },
    {
        let mut i: usize = 0;
        while i < members.len()
            invariant
                i <= members@.len(),
                forall|k: int| 0 <= k < i ==> members@[k].pubkey@ != pubkey@,
            decreases members@.len() - i,
        {
            if bytes_eq(&members[i].pubkey, pubkey) {
                return Some(i);
            }
            i = i + 1;
        }
        None
    }

    /// Forms a committee of these members. There is none where two of
    /// them share a public key.
    pub fn new(members: Vec<BridgeAuthority>) -> (committee: Option<Self>)
        ensures
            committee is Some <==> pubkeys_of(members@).no_duplicates(),
            committee matches Some(formed) ==> forall|i: int|
                0 <= i < members@.len() ==> formed@.contains_key(
                    #[trigger] pubkeys_of(members@)[i],
                ) && formed@[pubkeys_of(members@)[i]] == members@[i].voting_power,
            committee matches Some(formed) ==> forall|pubkey: Seq<u8>|
                formed@.contains_key(pubkey) ==> pubkeys_of(members@).contains(pubkey),
    {
        let mut i: usize = 0;
        while i < members.len()
            invariant
                i <= members@.len(),
                forall|a: int, b: int|
                    0 <= a < b < i ==> pubkeys_of(members@)[a] != pubkeys_of(members@)[b],
            decreases members@.len() - i,
        {
            let mut j: usize = 0;
            while j < i
                invariant
                    j <= i < members@.len(),
                    forall|a: int| 0 <= a < j ==> pubkeys_of(members@)[a] != pubkeys_of(members@)[i as int],
                decreases i - j,
            {
                if bytes_eq(&members[j].pubkey, &members[i].pubkey) {
                    assert(pubkeys_of(members@)[j as int] == pubkeys_of(members@)[i as int]);
                    return None;
                }
                j = j + 1;
            }
            i = i + 1;
        }
        let formed = BridgeCommittee { members };
        proof {
            assert forall|k: int| 0 <= k < members@.len() implies formed@.contains_key(
                #[trigger] pubkeys_of(members@)[k],
            ) && formed@[pubkeys_of(members@)[k]] == members@[k].voting_power by {
                formed.lemma_member_is_mapped(k);
            }
        }
        Some(formed)
    }

    /// The voting power of the member with this public key.
    pub fn voting_power(&self, pubkey: &Vec<u8>) -> (power: Option<u64>)
        ensures
            power == if self@.contains_key(pubkey@) {
                Some(self@[pubkey@])
            } else {
                None
            },
    {
        proof {
            use_type_invariant(self);
        }
        match Self::position(&self.members, pubkey) {
            Some(i) => {
                proof {
                    self.lemma_member_is_mapped(i as int);
                }
                Some(self.members[i].voting_power)
            },
            None => None,
        }
    }

    /// Whether these signatures certify an action under this committee
    /// with this threshold.
    pub fn reaches_threshold(&self, signatures: &Vec<AuthoritySignature>, threshold: u64) -> (reached:
        bool)
        ensures
            reached == certifies(self@, signers_of(signature_views(signatures@)), threshold),
    {
        let ghost signers = signers_of(signature_views(signatures@));
        let mut power: u128 = 0;
        let mut i: usize = 0;
        assert(signers.take(0) =~= Seq::<Seq<u8>>::empty());
        while i < signatures.len()
            invariant
                i <= signatures@.len(),
                signers == signers_of(signature_views(signatures@)),
                signers.len() == signatures@.len(),
                power == voting_power_of(self@, signers.take(i as int)),
                power <= i * 0x1_0000_0000_0000_0000,
                forall|k: int| 0 <= k < i ==> self@.contains_key(#[trigger] signers[k]),
                forall|a: int, b: int| 0 <= a < b < i ==> signers[a] != signers[b],
            decreases signatures@.len() - i,
        {
            assert(signers[i as int] == signatures@[i as int].authority@);
            let member_power = match self.voting_power(&signatures[i].authority) {
                Some(member_power) => member_power,
                None => {
                    return false;
                },
            };
            let mut j: usize = 0;
            while j < i
                invariant
                    j <= i < signatures@.len(),
                    signers == signers_of(signature_views(signatures@)),
                    forall|a: int| 0 <= a < j ==> signers[a] != signers[i as int],
                decreases i - j,
            {
                assert(signers[j as int] == signatures@[j as int].authority@);
                assert(signers[i as int] == signatures@[i as int].authority@);
                if bytes_eq(&signatures[j].authority, &signatures[i].authority) {
                    return false;
                }
                j = j + 1;
            }
            proof {
                assert(signers.take(i + 1).drop_last() =~= signers.take(i as int));
                assert(signers.take(i + 1).last() == signers[i as int]);
                assert((i + 1) * 0x1_0000_0000_0000_0000 == i * 0x1_0000_0000_0000_0000
                    + 0x1_0000_0000_0000_0000) by (nonlinear_arith);
                assert(i * 0x1_0000_0000_0000_0000 <= 0xffff_ffff_ffff_ffff
                    * 0x1_0000_0000_0000_0000) by (nonlinear_arith)
                    requires
                        i <= 0xffff_ffff_ffff_ffff,
                ;
            }
            power = power + member_power as u128;
            i = i + 1;
        }
        assert(signers.take(i as int) =~= signers);
        power >= threshold as u128
    }

    /// Joins an action with the signatures that certify it. There is no
    /// certificate where the signatures do not certify the action under
    /// this committee with this threshold.
    pub fn certify(
        &self,
        action: BridgeAction,
        signatures: Vec<AuthoritySignature>,
        threshold: u64,
    ) -> (certificate: Option<VerifiedCertifiedBridgeAction>)
        ensures
            certificate is Some <==> certifies(
                self@,
                signers_of(signature_views(signatures@)),
                threshold,
            ),
            certificate matches Some(certified) ==> certified@ == (CertifiedBridgeActionView {
                action: action@,
                signatures: signature_views(signatures@),
            }),
    {
        if self.reaches_threshold(&signatures, threshold) {
            Some(VerifiedCertifiedBridgeAction::new_from_verified(action, signatures))
        } else {
            None
        }
    }
}

} // verus!
