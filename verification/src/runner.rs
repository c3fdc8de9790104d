use vstd::prelude::*;
use crate::account_type::AccountType;
use crate::error::Error;
use crate::storage_helper::{
    capitalized_bytes, key_variant_models, lower_bytes, possible_keys, upper_bytes, wrap_eoa,
    AddressModel, AddressType, KeyModel, KeySet, KeyVariant, StorageValue, StorageValueModel,
};

verus! {

use vstd::string::StringSliceAdditionalSpecFns;

/// The resolution target: an externally-owned account or a contract, by its
/// text id.
#[derive(Debug, PartialEq, Eq)]
pub enum TargetAddress {
    Account(String),
    Contract(String),
}

/// Mathematical shape of a [`TargetAddress`].
pub enum TargetModel {
    Account(Seq<char>),
    Contract(Seq<char>),
}

impl View for TargetAddress {
    type V = TargetModel;

    open spec fn view(&self) -> TargetModel {
        match self {
            TargetAddress::Account(id) => TargetModel::Account(id@),
            TargetAddress::Contract(id) => TargetModel::Contract(id@),
        }
    }
}

/// The text id of a target, whichever kind it is.
pub open spec fn target_text(t: TargetModel) -> Seq<char> {
    match t {
        TargetModel::Account(id) => id,
        TargetModel::Contract(id) => id,
    }
}

/// Durability class of a ledger-entry query.
#[derive(Clone, Copy, Debug, PartialEq, Eq, Structural)]
pub enum Durability {
    Persistent,
    Temporary,
}

/// One key/value entry of a contract's instance storage, as the resolver
/// sees it: the key reduced to a candidate shape if it has one, the value
/// reduced to what the address decoder reads.
#[derive(Debug, PartialEq, Eq)]
pub struct StorageEntry {
    pub key: Option<KeyVariant>,
    pub val: StorageValue,
}

/// Mathematical shape of a [`StorageEntry`].
pub struct StorageEntryModel {
    pub key: Option<KeyModel>,
    pub val: StorageValueModel,
}

impl View for StorageEntry {
    type V = StorageEntryModel;

    open spec fn view(&self) -> StorageEntryModel {
        StorageEntryModel {
            key: match self.key {
                Some(k) => Some(k@),
                None => None,
            },
            val: self.val@,
        }
    }
}

/// A decoded persistent-storage ledger entry: contract data carrying a
/// value, or some other entry kind.
#[derive(Debug, PartialEq, Eq)]
pub enum LedgerPayload {
    ContractData(StorageValue),
    Other,
}

/// Mathematical shape of a [`LedgerPayload`].
pub enum LedgerPayloadModel {
    ContractData(StorageValueModel),
    Other,
}

impl View for LedgerPayload {
    type V = LedgerPayloadModel;

    open spec fn view(&self) -> LedgerPayloadModel {
        match self {
            LedgerPayload::ContractData(v) => LedgerPayloadModel::ContractData(v@),
            LedgerPayload::Other => LedgerPayloadModel::Other,
        }
    }
}

/// One ledger-entry query sent to the RPC collaborator: contract, candidate
/// key, durability class.
#[derive(Debug, PartialEq, Eq)]
pub struct LedgerQuery {
    pub contract: String,
    pub key: KeyVariant,
    pub durability: Durability,
}

/// Mathematical shape of a [`LedgerQuery`].
pub struct LedgerQueryModel {
    pub contract: Seq<char>,
    pub key: KeyModel,
    pub durability: Durability,
}

impl View for LedgerQuery {
    type V = LedgerQueryModel;

    open spec fn view(&self) -> LedgerQueryModel {
        LedgerQueryModel { contract: self.contract@, key: self.key@, durability: self.durability }
    }
}

/// Generates the three case transforms of the admin key that the storage
/// lookup will try: lowercase, uppercase, and first-letter-capitalized with
/// the rest lowercased.
pub fn mutate_input(key: &str) -> (r: Vec<Vec<u8>>)
    ensures
        r@.len() == 3,
        r@[0]@ == lower_bytes(key.spec_bytes()),
        r@[1]@ == upper_bytes(key.spec_bytes()),
        r@[2]@ == capitalized_bytes(key.spec_bytes()),
{
    let bytes = key.as_bytes();
    let mut lower: Vec<u8> = Vec::new();
    let mut upper: Vec<u8> = Vec::new();
    let mut capitalized: Vec<u8> = Vec::new();
    let mut i: usize = 0;
    while i < bytes.len()
        invariant
            i <= bytes@.len(),
            lower@ =~= lower_bytes(bytes@.take(i as int)),
            upper@ =~= upper_bytes(bytes@.take(i as int)),
            capitalized@ =~= capitalized_bytes(bytes@.take(i as int)),
        decreases bytes@.len() - i,
    {
        let b = bytes[i];
        lower.push(if 65 <= b && b <= 90 { b + 32 } else { b });
        upper.push(if 97 <= b && b <= 122 { b - 32 } else { b });
        capitalized.push(
            if i == 0 {
                if 97 <= b && b <= 122 { b - 32 } else { b }
            } else {
                if 65 <= b && b <= 90 { b + 32 } else { b }
            },
        );
        proof {
            assert(lower@ =~= lower_bytes(bytes@.take(i + 1)));
            assert(upper@ =~= upper_bytes(bytes@.take(i + 1)));
            assert(capitalized@ =~= capitalized_bytes(bytes@.take(i + 1)));
        }
        i += 1;
    }
    proof {
        assert(bytes@.take(bytes@.len() as int) =~= bytes@);
    }
    let mut r: Vec<Vec<u8>> = Vec::new();
    r.push(lower);
    r.push(upper);
    r.push(capitalized);
    r
}

/// Whether an instance-storage entry's key is one of the candidate admin
/// keys.
pub open spec fn entry_matches(e: StorageEntryModel, keys: Set<KeyModel>) -> bool {
    match e.key {
        Some(k) => keys.contains(k),
        None => false,
    }
}

/// The value of the first entry, from position `i` on, whose key is a
/// candidate admin key; `None` when no entry matches.
pub open spec fn first_match_from(
    entries: Seq<StorageEntryModel>,
    keys: Set<KeyModel>,
    i: int,
) -> Option<StorageValueModel>
    decreases entries.len() - i,
{
    if i < 0 || i >= entries.len() {
        None
    } else if entry_matches(entries[i], keys) {
        Some(entries[i].val)
    } else {
        first_match_from(entries, keys, i + 1)
    }
}

/// Holds the resolution state: the historical-data index endpoint, the
/// target, and the candidate admin keys. The network transports hand its
/// methods the fetched data as plain values.
#[derive(Debug)]
pub struct Runner {
    pub horizon: String,
    pub contract_id: TargetAddress,
    pub keys: KeySet,
}

impl Runner {
    /// Builds a runner: the candidate key set is every case transform of the
    /// admin key in every wire-encoding shape.
    pub fn new(horizon: String, contract_id: TargetAddress, key: &str) -> (r: Runner)
        ensures
            r.horizon == horizon,
            r.contract_id == contract_id,
            r.keys.wf(),
            r.keys@ == key_variant_models(key.spec_bytes()),
    {
        let texts = mutate_input(key);
        let ghost text_views = texts@.map_values(|v: Vec<u8>| v@);
        let keys = possible_keys(texts);
        proof {
            assert(text_views =~= seq![
                lower_bytes(key.spec_bytes()),
                upper_bytes(key.spec_bytes()),
                capitalized_bytes(key.spec_bytes()),
            ]);
        }
        Runner { horizon, contract_id, keys }
    }

    /// The shortcut for a target that is itself an externally-owned account:
    /// it is its own admin, and no storage lookup happens.
    pub fn account_target(&self) -> (r: Option<AddressType>)
        ensures
            match self.contract_id@ {
                TargetModel::Account(id) => r matches Some(a) && a@ == AddressModel::EOA(id),
                TargetModel::Contract(_) => r is None,
            },
    {
        match &self.contract_id {
            TargetAddress::Account(id) => Some(wrap_eoa(id.clone())),
            TargetAddress::Contract(_) => None,
        }
    }

    /// Scans the fetched instance storage for an entry whose key is one of
    /// the candidate admin keys; the first match in iteration order wins.
    pub fn find_instance_admin(&self, entries: &Vec<StorageEntry>) -> (r: Option<StorageValue>)
        ensures
            match r {
                Some(v) => first_match_from(
                    entries@.map_values(|e: StorageEntry| e@),
                    self.keys@,
                    0,
                ) == Some(v@),
                None => first_match_from(entries@.map_values(|e: StorageEntry| e@), self.keys@, 0)
                    is None,
            },
    {
        let ghost ms = entries@.map_values(|e: StorageEntry| e@);
        let mut i: usize = 0;
        while i < entries.len()
            invariant
                i <= entries@.len(),
                ms == entries@.map_values(|e: StorageEntry| e@),
                first_match_from(ms, self.keys@, 0) == first_match_from(ms, self.keys@, i as int),
            decreases entries@.len() - i,
        {
            let hit = match &entries[i].key {
                Some(k) => self.keys.contains(k),
                None => false,
            };
            if hit {
                assert(entry_matches(ms[i as int], self.keys@));
                return Some(entries[i].val.clone());
            }
            i += 1;
        }
        None
    }

    /// Settles the persistent-storage fallback from the fetched ledger
    /// entries: zero matches is admin-not-found, two or more is an ambiguity
    /// error, and exactly one succeeds when it is a contract-data entry.
    pub fn persistent_storage_lookup(&self, entries: &Vec<LedgerPayload>) -> (r: Result<
        StorageValue,
        Error,
    >)
        ensures
            entries@.len() == 0 ==> (r matches Err(e) && e == Error::AdminNotFound),
            entries@.len() > 1 ==> (r matches Err(e) && e == Error::MultipleAdminsFound),
            entries@.len() == 1 ==> match entries@[0]@ {
                LedgerPayloadModel::ContractData(v) => r matches Ok(x) && x@ == v,
                LedgerPayloadModel::Other => r matches Err(e) && e == Error::AdminNotFound,
            },
    {
        if entries.len() == 0 {
            return Err(Error::AdminNotFound);
        }
        if entries.len() > 1 {
            return Err(Error::MultipleAdminsFound);
        }
        match &entries[0] {
            LedgerPayload::ContractData(v) => Ok(v.clone()),
            LedgerPayload::Other => Err(Error::AdminNotFound),
        }
    }

    /// Builds one persistent-durability ledger-entry query per candidate
    /// admin key, all against the target's id.
    pub fn persistent_storage_keys(&self) -> (r: Vec<LedgerQuery>)
        ensures
            r@.len() == self.keys.variants@.len(),
            forall|i: int| 0 <= i < r@.len() ==> {
                &&& (#[trigger] r@[i])@.key == self.keys.variants@[i]@
                &&& r@[i]@.durability == Durability::Persistent
                &&& r@[i]@.contract == target_text(self.contract_id@)
            },
    {
        let contract = match &self.contract_id {
            TargetAddress::Account(id) => id.clone(),
            TargetAddress::Contract(id) => id.clone(),
        };
        let mut r: Vec<LedgerQuery> = Vec::new();
        let mut i: usize = 0;
        while i < self.keys.variants.len()
            invariant
                i <= self.keys.variants@.len(),
                r@.len() == i,
                contract@ == target_text(self.contract_id@),
                forall|j: int| 0 <= j < i ==> {
                    &&& (#[trigger] r@[j])@.key == self.keys.variants@[j]@
                    &&& r@[j]@.durability == Durability::Persistent
                    &&& r@[j]@.contract == target_text(self.contract_id@)
                },
            decreases self.keys.variants@.len() - i,
        {
            r.push(
                LedgerQuery {
                    contract: contract.clone(),
                    key: self.keys.variants[i].clone(),
                    durability: Durability::Persistent,
                },
            );
            i += 1;
        }
        r
    }

    /// Re-examines a tentative hot-wallet verdict against the observed
    /// transaction cadence: a minimum gap of at most twelve ledgers between
    /// consecutive transactions is consistent with unattended signing and
    /// keeps the hot-wallet verdict; a larger or unbounded gap points to a
    /// mediated, human-paced signing process. Any other verdict passes
    /// through unchanged.
    pub fn is_hot_wallet(&self, account_type: AccountType, min_ledger_diff_between_txs: u64) -> (r:
        AccountType)
        ensures
            account_type is HotWallet ==> r == (if min_ledger_diff_between_txs <= 12 {
                AccountType::HotWallet
            } else {
                AccountType::MPC
            }),
            !(account_type is HotWallet) ==> r == account_type,
    {
        match account_type {
            AccountType::HotWallet => {
                if min_ledger_diff_between_txs <= 12 {
                    AccountType::HotWallet
                } else {
                    AccountType::MPC
                }
            },
            other => other,
        }
    }
}

/// Whether a tentative verdict still needs the transaction-frequency stage:
/// only a tentative hot wallet does.
pub fn needs_frequency_check(account_type: &AccountType) -> (r: bool)
    ensures
        r == (account_type is HotWallet),
{
    matches!(account_type, AccountType::HotWallet)
}

} // verus!
