//! Plain data that the executor reads: identifiers, actions, certificates,
//! on-chain statuses, gas objects and execution effects.
//!
//! Identifiers are thirty-two bytes each and are compared as a whole. The
//! content of an action and the signatures of a certificate are carried
//! along untouched; the executor only ever reads an action's digest.

use vstd::prelude::*;

verus! {

/// Compares two blocks of thirty-two bytes.
pub fn bytes32_eq(a: &[u8; 32], b: &[u8; 32]) -> (same: bool)
    ensures
        same == (*a == *b),
{
    let mut i: usize = 0;
    while i < 32
        invariant
            i <= 32,
            forall|k: int| 0 <= k < i ==> a[k] == b[k],
        decreases 32 - i,
    {
        if a[i] != b[i] {
            return false;
        }
        i = i + 1;
    }
    assert(*a =~= *b);
    true
}

/// The digest of a bridge action: the key under which it is logged.
#[derive(Clone, Copy, Debug, PartialEq, Eq, Hash)]
pub struct BridgeActionDigest {
    pub bytes: [u8; 32],
}

impl BridgeActionDigest {
    pub fn new(bytes: [u8; 32]) -> (digest: Self)
        ensures
            digest.bytes == bytes,
    {
        BridgeActionDigest { bytes }
    }

    /// Whether both digests hold the same bytes.
    pub fn equals(&self, other: &Self) -> (same: bool)
        ensures
            same == (*self == *other),
    {
        bytes32_eq(&self.bytes, &other.bytes)
    }
}

/// An account address on the destination chain.
#[derive(Clone, Copy, Debug, PartialEq, Eq, Hash)]
pub struct MgoAddress {
    pub bytes: [u8; 32],
}

impl MgoAddress {
    pub fn new(bytes: [u8; 32]) -> (address: Self)
        ensures
            address.bytes == bytes,
    {
        MgoAddress { bytes }
    }

    /// Whether both addresses hold the same bytes.
    pub fn equals(&self, other: &Self) -> (same: bool)
        ensures
            same == (*self == *other),
    {
        bytes32_eq(&self.bytes, &other.bytes)
    }
}

/// The identifier of an on-chain object.
#[derive(Clone, Copy, Debug, PartialEq, Eq, Hash)]
pub struct ObjectID {
    pub bytes: [u8; 32],
}

impl ObjectID {
    pub fn new(bytes: [u8; 32]) -> (id: Self)
        ensures
            id.bytes == bytes,
    {
        ObjectID { bytes }
    }
}

/// The digest of one version of an on-chain object.
#[derive(Clone, Copy, Debug, PartialEq, Eq, Hash)]
pub struct ObjectDigest {
    pub bytes: [u8; 32],
}

impl ObjectDigest {
    pub fn new(bytes: [u8; 32]) -> (digest: Self)
        ensures
            digest.bytes == bytes,
    {
        ObjectDigest { bytes }
    }
}

/// A reference to one version of an on-chain object.
#[derive(Clone, Copy, Debug, PartialEq, Eq, Hash)]
pub struct ObjectRef {
    pub object_id: ObjectID,
    pub version: u64,
    pub digest: ObjectDigest,
}

impl ObjectRef {
    pub fn new(object_id: ObjectID, version: u64, digest: ObjectDigest) -> (object_ref: Self)
        ensures
            object_ref == (ObjectRef { object_id, version, digest }),
    {
        ObjectRef { object_id, version, digest }
    }
}

/// Who owns an on-chain object.
#[derive(Clone, Copy, Debug, PartialEq, Eq, Hash)]
pub enum Owner {
    /// Owned by one address, which alone may spend it.
    AddressOwner(MgoAddress),
    /// Owned by another object.
    ObjectOwner(MgoAddress),
    /// Shared among all addresses.
    Shared { initial_shared_version: u64 },
    /// Frozen: nobody may change or spend it.
    Immutable,
}

impl Owner {
    /// Whether the object belongs to `address` and to nobody else.
    pub fn is_address_owner(&self, address: &MgoAddress) -> (owned: bool)
        ensures
            owned == (*self == Owner::AddressOwner(*address)),
    {
        match self {
            Owner::AddressOwner(owner) => owner.equals(address),
            _ => false,
        }
    }
}

/// A coin that pays for gas.
#[derive(Clone, Copy, Debug, PartialEq, Eq, Hash)]
pub struct GasCoin {
    pub value: u64,
}

impl GasCoin {
    pub fn new(value: u64) -> (coin: Self)
        ensures
            coin.value == value,
    {
        GasCoin { value }
    }

    pub fn value(&self) -> (value: u64)
        ensures
            value == self.value,
    {
        self.value
    }
}

/// What the chain reports of the gas object at the moment it is fetched.
#[derive(Clone, Copy, Debug, PartialEq, Eq, Hash)]
pub struct GasData {
    pub coin: GasCoin,
    pub object_ref: ObjectRef,
    pub owner: Owner,
}

impl GasData {
    pub fn new(coin: GasCoin, object_ref: ObjectRef, owner: Owner) -> (gas: Self)
        ensures
            gas == (GasData { coin, object_ref, owner }),
    {
        GasData { coin, object_ref, owner }
    }
}

/// What the chain knows of a bridge action.
#[derive(Clone, Copy, Debug, PartialEq, Eq, Hash)]
pub enum BridgeActionStatus {
    /// Recorded, not yet approved.
    Pending,
    /// Approved by the committee on chain.
    Approved,
    /// Approved and claimed by the recipient.
    Claimed,
    /// The chain holds no record of the action.
    RecordNotFound,
}

impl BridgeActionStatus {
    /// Whether the action needs no more work from this node.
    pub open spec fn finalized(self) -> bool {
        self is Approved || self is Claimed
    }

    /// Whether the action is already approved or claimed on chain.
    pub fn is_finalized(&self) -> (done: bool)
        ensures
            done == self.finalized(),
    {
        match self {
            BridgeActionStatus::Approved | BridgeActionStatus::Claimed => true,
            BridgeActionStatus::Pending | BridgeActionStatus::RecordNotFound => false,
        }
    }
}

/// A request to settle a cross-chain transfer: its digest and its content.
#[derive(Debug, PartialEq, Eq)]
pub struct BridgeAction {
    digest: BridgeActionDigest,
    payload: Vec<u8>,
}

/// The mathematical value of a [`BridgeAction`].
pub struct BridgeActionView {
    pub digest: BridgeActionDigest,
    pub payload: Seq<u8>,
}

impl View for BridgeAction {
    type V = BridgeActionView;

    closed spec fn view(&self) -> BridgeActionView {
        BridgeActionView { digest: self.digest, payload: self.payload@ }
    }
}

impl Clone for BridgeAction {
    fn clone(&self) -> (copy: Self)
        ensures
            copy@ == self@,
    {
        BridgeAction { digest: self.digest, payload: self.payload.clone() }
    }
}

impl BridgeAction {
    pub fn new(digest: BridgeActionDigest, payload: Vec<u8>) -> (action: Self)
        ensures
            action@ == (BridgeActionView { digest, payload: payload@ }),
    {
        BridgeAction { digest, payload }
    }

    /// The key under which the action is logged.
    pub fn digest(&self) -> (digest: BridgeActionDigest)
        ensures
            digest == self@.digest,
    {
        self.digest
    }

    /// The content of the action, as it was given.
    pub fn payload(&self) -> (payload: &Vec<u8>)
        ensures
            payload@ == self@.payload,
    {
        &self.payload
    }
}

/// One committee member's signature over an action.
#[derive(Clone, Debug, PartialEq, Eq)]
pub struct AuthoritySignature {
    pub authority: Vec<u8>,
    pub signature: Vec<u8>,
}

/// The mathematical value of an [`AuthoritySignature`].
pub struct AuthoritySignatureView {
    pub authority: Seq<u8>,
    pub signature: Seq<u8>,
}

impl View for AuthoritySignature {
    type V = AuthoritySignatureView;

    open spec fn view(&self) -> AuthoritySignatureView {
        AuthoritySignatureView { authority: self.authority@, signature: self.signature@ }
    }
}

/// The values of a list of signatures, in the same order.
pub open spec fn signature_views(signatures: Seq<AuthoritySignature>) -> Seq<
    AuthoritySignatureView,
> {
    Seq::new(signatures.len(), |i: int| signatures[i]@)
}

/// A bridge action with the committee signatures that certify it: they
/// come from members of the committee, no two from the same, whose voting
/// power together reaches the validity threshold. Whoever collects the
/// signatures sees to that before the certificate is made, and the
/// executor never looks at them again.
#[derive(Clone, Debug, PartialEq, Eq)]
pub struct VerifiedCertifiedBridgeAction {
    action: BridgeAction,
    signatures: Vec<AuthoritySignature>,
}

/// The mathematical value of a [`VerifiedCertifiedBridgeAction`].
pub struct CertifiedBridgeActionView {
    pub action: BridgeActionView,
    pub signatures: Seq<AuthoritySignatureView>,
}

impl View for VerifiedCertifiedBridgeAction {
    type V = CertifiedBridgeActionView;

    closed spec fn view(&self) -> CertifiedBridgeActionView {
        CertifiedBridgeActionView {
            action: self.action@,
            signatures: signature_views(self.signatures@),
        }
    }
}

impl VerifiedCertifiedBridgeAction {
    /// Joins an action with signatures that were verified already, by
    /// the committee's own count or elsewhere.
    pub fn new_from_verified(action: BridgeAction, signatures: Vec<AuthoritySignature>) -> (certificate:
        Self)
        ensures
            certificate@ == (CertifiedBridgeActionView {
                action: action@,
                signatures: signature_views(signatures@),
            }),
    {
        VerifiedCertifiedBridgeAction { action, signatures }
    }

    /// The certified action.
    pub fn data(&self) -> (action: &BridgeAction)
        ensures
            action@ == self@.action,
    {
        &self.action
    }

    /// The signatures that certify the action.
    pub fn signatures(&self) -> (signatures: &Vec<AuthoritySignature>)
        ensures
            signature_views(signatures@) == self@.signatures,
    {
        &self.signatures
    }
}

/// A settlement transaction as it is handed to the signer: bytes that the
/// executor passes on without reading them.
#[derive(Clone, Debug, PartialEq, Eq)]
pub struct TransactionData {
    pub bytes: Vec<u8>,
}

impl View for TransactionData {
    type V = Seq<u8>;

    open spec fn view(&self) -> Seq<u8> {
        self.bytes@
    }
}

impl TransactionData {
    pub fn new(bytes: Vec<u8>) -> (tx_data: Self)
        ensures
            tx_data@ == bytes@,
    {
        TransactionData { bytes }
    }
}

/// How the chain executed a transaction that it accepted.
#[derive(Clone, Debug, PartialEq, Eq)]
pub enum MgoExecutionStatus {
    /// The transaction took effect.
    Success,
    /// The transaction was executed and failed.
    Failure { error: String },
}

/// The mathematical value of an [`MgoExecutionStatus`].
pub enum ExecutionStatusView {
    Success,
    Failure { error: Seq<char> },
}

impl View for MgoExecutionStatus {
    type V = ExecutionStatusView;

    open spec fn view(&self) -> ExecutionStatusView {
        match self {
            MgoExecutionStatus::Success => ExecutionStatusView::Success,
            MgoExecutionStatus::Failure { error } => ExecutionStatusView::Failure {
                error: error@,
            },
        }
    }
}

/// A bridge action waiting to be signed, with the number of the attempt.
#[derive(Clone, Debug, PartialEq, Eq)]
pub struct BridgeActionExecutionWrapper(pub BridgeAction, pub u64);

impl View for BridgeActionExecutionWrapper {
    type V = (BridgeActionView, u64);

    open spec fn view(&self) -> (BridgeActionView, u64) {
        (self.0@, self.1)
    }
}

/// A certified bridge action waiting to be submitted, with the number of
/// the attempt.
#[derive(Clone, Debug, PartialEq, Eq)]
pub struct CertifiedBridgeActionExecutionWrapper(pub VerifiedCertifiedBridgeAction, pub u64);

impl View for CertifiedBridgeActionExecutionWrapper {
    type V = (CertifiedBridgeActionView, u64);

    open spec fn view(&self) -> (CertifiedBridgeActionView, u64) {
        (self.0@, self.1)
    }
}

} // verus!
