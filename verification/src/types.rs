//! The types that the registry stores and returns.

use crate::value::Address;
use vstd::prelude::*;

verus! {

/// Why a storage operation was refused.
#[derive(Clone, Copy, Debug, PartialEq, Eq, Structural)]
pub enum ContractError {
    /// The contract has no admin yet.
    NotInitialized,
    /// The contract is paused.
    Paused,
    /// The username is on the reserved list already.
    AlreadyReserved,
    /// The reserved list holds as many usernames as it may.
    ReservedListFull,
    /// The username is not on the reserved list.
    NotReserved,
}

/// A role that the admin has granted to an address.
#[derive(Clone, Copy, Debug, PartialEq, Eq, Structural)]
pub enum Role {
    Admin,
    Upgrader,
    Verifier,
}

impl Role {
    /// The code under which a role is stored.
    pub open spec fn spec_code(self) -> u32 {
        match self {
            Role::Admin => 1,
            Role::Upgrader => 2,
            Role::Verifier => 3,
        }
    }

    /// The role that is stored under a code, if there is one.
    pub open spec fn spec_from_code(code: u32) -> Option<Role> {
        match code {
            1 => Some(Role::Admin),
            2 => Some(Role::Upgrader),
            3 => Some(Role::Verifier),
            _ => None,
        }
    }

    /// The code under which a role is stored.
    pub fn code(self) -> (r: u32)
        ensures
            r == self.spec_code(),
    {
        match self {
            Role::Admin => 1,
            Role::Upgrader => 2,
            Role::Verifier => 3,
        }
    }

    /// The role that is stored under a code, if there is one.
    pub fn from_code(code: u32) -> (r: Option<Role>)
        ensures
            r == Role::spec_from_code(code),
    {
        match code {
            1 => Some(Role::Admin),
            2 => Some(Role::Upgrader),
            3 => Some(Role::Verifier),
            _ => None,
        }
    }
}

/// Typed reason code for pausing and unpausing the contract.
///
/// It is stored beside the pause flag, so that a maintenance pause can be told
/// from a security freeze without replaying events.
///
/// | Code | Name | When to use |
/// |------|------|-------------|
/// | 1 | `Maintenance` | Planned upgrade window or admin maintenance |
/// | 2 | `SecurityIncident` | Freeze after a detected exploit or suspicious activity |
/// | 3 | `RegulatoryHold` | Compliance or legal hold requirement |
/// | 4 | `Unpause` | Resuming normal operation |
/// | 99 | `Other` | Any reason not covered above |
#[derive(Clone, Copy, Debug, PartialEq, Eq, Structural)]
pub enum PauseReason {
    Maintenance,
    SecurityIncident,
    RegulatoryHold,
    Unpause,
    Other,
}

impl PauseReason {
    /// The code of a reason.
    pub open spec fn spec_code(self) -> u32 {
        match self {
            PauseReason::Maintenance => 1,
            PauseReason::SecurityIncident => 2,
            PauseReason::RegulatoryHold => 3,
            PauseReason::Unpause => 4,
            PauseReason::Other => 99,
        }
    }

    /// The reason of a code, if there is one.
    pub open spec fn spec_from_code(code: u32) -> Option<PauseReason> {
        match code {
            1 => Some(PauseReason::Maintenance),
            2 => Some(PauseReason::SecurityIncident),
            3 => Some(PauseReason::RegulatoryHold),
            4 => Some(PauseReason::Unpause),
            99 => Some(PauseReason::Other),
            _ => None,
        }
    }

    /// Returns `true` if `code` is the code of a reason.
    #[must_use]
    pub fn is_valid(code: u32) -> (r: bool)
        ensures
            r == (exists|reason: PauseReason| #[trigger] reason.spec_code() == code),
            r == PauseReason::spec_from_code(code).is_some(),
    {
        proof {
            law_pause_reason_codes(code);
        }
        matches!(code, 1 | 2 | 3 | 4 | 99)
    }

    /// Converts a code to its reason, or `None` for an unknown code.
    #[must_use]
    pub fn from_code(code: u32) -> (r: Option<PauseReason>)
        ensures
            r == PauseReason::spec_from_code(code),
    {
        match code {
            1 => Some(PauseReason::Maintenance),
            2 => Some(PauseReason::SecurityIncident),
            3 => Some(PauseReason::RegulatoryHold),
            4 => Some(PauseReason::Unpause),
            99 => Some(PauseReason::Other),
            _ => None,
        }
    }

    /// The code of a reason.
    pub fn code(self) -> (r: u32)
        ensures
            r == self.spec_code(),
    {
        match self {
            PauseReason::Maintenance => 1,
            PauseReason::SecurityIncident => 2,
            PauseReason::RegulatoryHold => 3,
            PauseReason::Unpause => 4,
            PauseReason::Other => 99,
        }
    }
}

/// Codes and pause reasons match one to one: a code is converted to the reason
/// that has it, and only codes of reasons are converted at all.
pub proof fn law_pause_reason_codes(code: u32)
    ensures
        forall|reason: PauseReason|
            #[trigger] reason.spec_code() == code <==> PauseReason::spec_from_code(code) == Some(
                reason,
            ),
        PauseReason::spec_from_code(code).is_some() <==> exists|reason: PauseReason|
            #[trigger] reason.spec_code() == code,
{
    if PauseReason::spec_from_code(code).is_some() {
        assert(PauseReason::spec_from_code(code).unwrap().spec_code() == code);
    }
}

/// Codes and roles match one to one.
pub proof fn law_role_codes(role: Role, code: u32)
    ensures
        role.spec_code() == code <==> Role::spec_from_code(code) == Some(role),
{
}

/// An on-chain record for a registered contributor.
///
/// It is a persistent entry under the contributor's username. Its lifetime is
/// extended on every read and write.
#[derive(Clone, Debug, PartialEq, Eq)]
pub struct ContributorRecord {
    /// The address that owns this registration.
    pub stellar_address: Address,
    /// Ledger timestamp when this record was last written, in seconds. It fits
    /// in 32 bits until 2106.
    pub registered_at: u32,
    /// Whether the contributor has been verified by an admin or verifier.
    pub verified: bool,
}

/// A semantic version.
#[derive(Clone, Copy, Debug, PartialEq, Eq, Structural)]
pub struct VersionTriple {
    pub major: u32,
    pub minor: u32,
    pub patch: u32,
}

/// Provenance of the WASM executable that is deployed.
///
/// Each provenance names the hash that it replaced, so that the lineage can be
/// walked backwards though only its head is stored.
#[derive(Clone, Debug, PartialEq, Eq)]
pub struct WasmProvenance {
    /// Hash of the WASM currently executing.
    pub wasm_hash: [u8; 32],
    /// Hash this one replaced. `None` for the first upgrade after deployment.
    pub previous_wasm_hash: Option<[u8; 32]>,
    /// Address that authorised the upgrade.
    pub upgraded_by: Address,
    /// Ledger timestamp the upgrade was applied.
    pub upgraded_at: u64,
    /// Contract version recorded at upgrade time. Empty if it is unset.
    pub version: Vec<u32>,
    /// Whether the hash had been attested before it was applied.
    pub attested: bool,
}

/// What a `WasmProvenance` says.
#[verifier::ext_equal]
pub struct WasmProvenanceView {
    pub wasm_hash: [u8; 32],
    pub previous_wasm_hash: Option<[u8; 32]>,
    pub upgraded_by: Address,
    pub upgraded_at: u64,
    pub version: Seq<u32>,
    pub attested: bool,
}

impl View for WasmProvenance {
    type V = WasmProvenanceView;

    open spec fn view(&self) -> WasmProvenanceView {
        WasmProvenanceView {
            wasm_hash: self.wasm_hash,
            previous_wasm_hash: self.previous_wasm_hash,
            upgraded_by: self.upgraded_by,
            upgraded_at: self.upgraded_at,
            version: self.version@,
            attested: self.attested,
        }
    }
}

/// An admin's advance declaration of the WASM hash they intend to deploy.
///
/// While an attestation is live, only the hash that it names is to be
/// deployed. It expires, for one that never lapsed would be a standing
/// authorisation.
#[derive(Clone, Debug, PartialEq, Eq)]
pub struct WasmAttestation {
    /// Hash the admin has declared they intend to deploy.
    pub wasm_hash: [u8; 32],
    /// Ledger timestamp after which this attestation is no longer valid.
    pub expires_at: u64,
    /// Address that published the attestation.
    pub attested_by: Address,
    /// Ledger timestamp the attestation was published.
    pub attested_at: u64,
}

/// Aggregate registry statistics.
#[derive(Clone, Copy, Debug, PartialEq, Eq, Structural)]
pub struct Stats {
    /// Total number of registered contributors.
    pub total: u32,
    /// Number of contributors who have been verified.
    pub verified: u32,
}

/// A single page of registry records.
///
/// `next_cursor` is `None` when this is the last page; otherwise it is the
/// cursor of the next page. `has_more` mirrors it.
#[derive(Clone, Debug, PartialEq, Eq)]
pub struct ExportPage {
    /// Records in this page: pairs of a username and its record.
    pub records: Vec<(Vec<u8>, ContributorRecord)>,
    /// Cursor to pass to the next call, or `None` if this is the last page.
    pub next_cursor: Option<u32>,
    /// Total number of records in the registry at query time.
    pub total: u32,
    /// `true` if there are more records after this page.
    pub has_more: bool,
}

/// What an `ExportPage` says.
#[verifier::ext_equal]
pub struct ExportPageView {
    pub records: Seq<(Seq<u8>, ContributorRecord)>,
    pub next_cursor: Option<u32>,
    pub total: u32,
    pub has_more: bool,
}

impl View for ExportPage {
    type V = ExportPageView;

    open spec fn view(&self) -> ExportPageView {
        ExportPageView {
            records: Seq::new(
                self.records@.len(),
                |i: int| (self.records@[i].0@, self.records@[i].1),
            ),
            next_cursor: self.next_cursor,
            total: self.total,
            has_more: self.has_more,
        }
    }
}

/// How contributors are verified.
#[derive(Clone, Debug, PartialEq, Eq)]
pub struct VerificationConfig {
    /// The kind of attestation that is asked for, a symbol.
    pub attestation: String,
    pub expires_in: u64,
    pub threshold: u32,
}

/// What a `VerificationConfig` says.
#[verifier::ext_equal]
pub struct VerificationConfigView {
    pub attestation: Seq<char>,
    pub expires_in: u64,
    pub threshold: u32,
}

impl View for VerificationConfig {
    type V = VerificationConfigView;

    open spec fn view(&self) -> VerificationConfigView {
        VerificationConfigView {
            attestation: self.attestation@,
            expires_in: self.expires_in,
            threshold: self.threshold,
        }
    }
}

} // verus!
