//! A snapshot of the store: is it there, how much does it hold, where does
//! its head point, can it sign.

use crate::reader::{count_objects, objects_found, WalkEntry};
use vstd::prelude::*;

verus! {

/// What a probe of the store root found.
#[derive(Debug, PartialEq, Eq)]
pub struct RootProbe {
    /// Whether the root exists.
    pub exists: bool,
    /// A walk of the claims directory; `None` where the directory is absent.
    pub claims: Option<Vec<WalkEntry>>,
    /// The raw content of the head reference; `None` where it could not be
    /// read.
    pub head: Option<String>,
    /// Whether the private key file exists.
    pub has_private_key: bool,
    /// Whether the public key file exists.
    pub has_public_key: bool,
}

/// The state of the store at one moment.
#[derive(Debug, PartialEq, Eq)]
pub struct TruthRepoStatus {
    pub exists: bool,
    pub path: String,
    pub claims_count: usize,
    pub head_ref: Option<String>,
    pub has_keys: bool,
}

/// The store can sign when both halves of the key pair are there.
pub open spec fn keys_present(probe: RootProbe) -> bool {
    probe.has_private_key && probe.has_public_key
}

/// The status that a probe gives. A root that does not exist holds nothing,
/// whatever else the probe says.
pub open spec fn status_spec(path: String, probe: RootProbe) -> TruthRepoStatus {
    if probe.exists {
        TruthRepoStatus {
            exists: true,
            path,
            claims_count: objects_found(probe.claims).len() as usize,
            head_ref: probe.head,
            has_keys: keys_present(probe),
        }
    } else {
        TruthRepoStatus { exists: false, path, claims_count: 0, head_ref: None, has_keys: false }
    }
}

/// The status of the store at `path`, from what a probe of it found.
pub fn status(path: String, probe: RootProbe) -> (r: TruthRepoStatus)
    ensures
        r == status_spec(path, probe),
{
    if !probe.exists {
        return TruthRepoStatus {
            exists: false,
            path,
            claims_count: 0,
            head_ref: None,
            has_keys: false,
        };
    }
    let claims_count = count_objects(&probe.claims);
    let has_keys = probe.has_private_key && probe.has_public_key;
    TruthRepoStatus { exists: true, path, claims_count, head_ref: probe.head, has_keys }
}

/// A store that is not there has no claims, no head and no keys.
pub proof fn lemma_absent_store_is_empty(path: String, probe: RootProbe)
    requires
        !probe.exists,
    ensures
        !status_spec(path, probe).exists,
        status_spec(path, probe).claims_count == 0,
        status_spec(path, probe).head_ref is None,
        !status_spec(path, probe).has_keys,
        status_spec(path, probe).path == path,
{
}

/// Keys are reported exactly when the store exists and both key files do.
pub proof fn lemma_keys_need_both_files(path: String, probe: RootProbe)
    ensures
        status_spec(path, probe).has_keys <==> probe.exists && probe.has_private_key
            && probe.has_public_key,
{
}

/// Taking either key file away from a store leaves it without keys.
pub proof fn lemma_removing_a_key_file_removes_keys(path: String, probe: RootProbe)
    ensures
        !status_spec(path, RootProbe { has_private_key: false, ..probe }).has_keys,
        !status_spec(path, RootProbe { has_public_key: false, ..probe }).has_keys,
{
}

} // verus!
