use vstd::prelude::*;
use crate::error::Error;
use crate::network_config::bytes_eq;

verus! {

/// What a decoded storage value points at: an externally-owned account,
/// identified by its text id, or a contract.
#[derive(Debug, PartialEq, Eq)]
pub enum AddressType {
    EOA(String),
    Contract,
}

/// Mathematical shape of an [`AddressType`].
pub enum AddressModel {
    EOA(Seq<char>),
    Contract,
}

impl View for AddressType {
    type V = AddressModel;

    open spec fn view(&self) -> AddressModel {
        match self {
            AddressType::EOA(id) => AddressModel::EOA(id@),
            AddressType::Contract => AddressModel::Contract,
        }
    }
}

/// The three wire-encoding shapes an admin storage key may take: a
/// single-element sequence wrapping a symbolic tag, a bare symbol, or a
/// general text string.
#[derive(Clone, Copy, Debug, PartialEq, Eq, Structural)]
pub enum KeyShape {
    EnumVariant,
    Symbol,
    Text,
}

/// One candidate admin storage key: an encoding shape together with the key
/// text, held as its bytes.
#[derive(Debug, PartialEq, Eq)]
pub struct KeyVariant {
    pub shape: KeyShape,
    pub text: Vec<u8>,
}

impl Clone for KeyVariant {
    fn clone(&self) -> (r: Self)
        ensures
            r@ == self@,
    {
        KeyVariant { shape: self.shape, text: copy_bytes(&self.text) }
    }
}

/// Mathematical shape of a [`KeyVariant`].
#[verifier::ext_equal]
pub struct KeyModel {
    pub shape: KeyShape,
    pub text: Seq<u8>,
}

impl View for KeyVariant {
    type V = KeyModel;

    open spec fn view(&self) -> KeyModel {
        KeyModel { shape: self.shape, text: self.text@ }
    }
}

/// A key model from its two parts.
pub open spec fn km(shape: KeyShape, text: Seq<u8>) -> KeyModel {
    KeyModel { shape, text }
}

impl KeyVariant {
    /// Two key variants stand for the same wire value exactly when both the
    /// shape and the text agree.
    pub fn matches(&self, other: &KeyVariant) -> (r: bool)
        ensures
            r == (self@ == other@),
    {
        let r = self.shape == other.shape && bytes_eq(self.text.as_slice(), other.text.as_slice());
        proof {
            if r {
                assert(self@ =~= other@);
            }
        }
        r
    }
}

/// A set of candidate admin keys. Insertion silently deduplicates identical
/// wire values, so the abstract content is a set of key models.
#[derive(Debug, PartialEq, Eq)]
pub struct KeySet {
    pub variants: Vec<KeyVariant>,
}

impl View for KeySet {
    type V = Set<KeyModel>;

    open spec fn view(&self) -> Set<KeyModel> {
        self.variants@.map_values(|k: KeyVariant| k@).to_set()
    }
}

impl KeySet {
    /// The concrete list holds each wire value at most once.
    pub open spec fn wf(&self) -> bool {
        self.variants@.map_values(|k: KeyVariant| k@).no_duplicates()
    }

    pub fn empty() -> (r: KeySet)
        ensures
            r.wf(),
            r@ == Set::<KeyModel>::empty(),
    {
        let r = KeySet { variants: Vec::new() };
        proof {
            assert(r.variants@.map_values(|k: KeyVariant| k@) =~= Seq::<KeyModel>::empty());
            assert(r@ =~= Set::<KeyModel>::empty());
        }
        r
    }

    pub fn contains(&self, key: &KeyVariant) -> (r: bool)
        ensures
            r == self@.contains(key@),
    {
        let ghost models = self.variants@.map_values(|k: KeyVariant| k@);
        let mut i: usize = 0;
        while i < self.variants.len()
            invariant
                i <= self.variants@.len(),
                models == self.variants@.map_values(|k: KeyVariant| k@),
                forall|j: int| 0 <= j < i ==> models[j] != key@,
            decreases self.variants@.len() - i,
        {
            if self.variants[i].matches(key) {
                assert(models[i as int] == key@);
                return true;
            }
            i += 1;
        }
        proof {
            assert(!models.contains(key@));
        }
        false
    }

    /// Inserts one candidate key; a wire value already present is dropped.
    pub fn insert(&mut self, key: KeyVariant)
        requires
            old(self).wf(),
        ensures
            final(self).wf(),
            final(self)@ == old(self)@.insert(key@),
    {
        let ghost old_models = self.variants@.map_values(|k: KeyVariant| k@);
        if !self.contains(&key) {
            let ghost kv = key@;
            self.variants.push(key);
            proof {
                let models = self.variants@.map_values(|k: KeyVariant| k@);
                assert(models =~= old_models.push(kv));
                old_models.lemma_push_to_set_commute(kv);
                assert(final(self)@ =~= old(self)@.insert(kv));
            }
        } else {
            proof {
                assert(final(self)@ =~= old(self)@.insert(key@));
            }
        }
    }

    /// How many distinct wire values the set holds.
    pub fn len(&self) -> (n: usize)
        requires
            self.wf(),
        ensures
            n == self@.len(),
    {
        proof {
            self.variants@.map_values(|k: KeyVariant| k@).unique_seq_to_set();
        }
        self.variants.len()
    }
}

/// Lowercases one byte as ASCII; other bytes pass through unchanged.
pub open spec fn lower_byte(b: u8) -> u8 {
    if 65 <= b && b <= 90 {
        (b + 32) as u8
    } else {
        b
    }
}

/// Uppercases one byte as ASCII; other bytes pass through unchanged.
pub open spec fn upper_byte(b: u8) -> u8 {
    if 97 <= b && b <= 122 {
        (b - 32) as u8
    } else {
        b
    }
}

/// The whole key lowercased.
pub open spec fn lower_bytes(s: Seq<u8>) -> Seq<u8> {
    s.map_values(|b: u8| lower_byte(b))
}

/// The whole key uppercased.
pub open spec fn upper_bytes(s: Seq<u8>) -> Seq<u8> {
    s.map_values(|b: u8| upper_byte(b))
}

/// First byte uppercased, the rest lowercased.
pub open spec fn capitalized_bytes(s: Seq<u8>) -> Seq<u8> {
    Seq::new(s.len(), |i: int| if i == 0 { upper_byte(s[i]) } else { lower_byte(s[i]) })
}

/// All candidate key models for a list of key texts: every encoding shape of
/// every text. This is the abstract content that `possible_keys` realizes.
pub open spec fn variant_set_of(texts: Seq<Seq<u8>>) -> Set<KeyModel> {
    Set::new(|m: KeyModel| exists|i: int| 0 <= i < texts.len() && texts[i] == m.text)
}

/// All candidate key models generated from one input key: the three case
/// transforms crossed with the three encoding shapes.
pub open spec fn key_variant_models(k: Seq<u8>) -> Set<KeyModel> {
    variant_set_of(seq![lower_bytes(k), upper_bytes(k), capitalized_bytes(k)])
}

/// Builds the set of possible admin storage keys for the given key texts:
/// each text in each of the three wire-encoding shapes, deduplicated by wire
/// value.
pub fn possible_keys(keys: Vec<Vec<u8>>) -> (r: KeySet)
    ensures
        r.wf(),
        r@ == variant_set_of(keys@.map_values(|v: Vec<u8>| v@)),
{
    let ghost texts = keys@.map_values(|v: Vec<u8>| v@);
    let mut r = KeySet::empty();
    let mut i: usize = 0;
    proof {
        assert(r@ =~= variant_set_of(texts.take(0)));
    }
    while i < keys.len()
        invariant
            i <= keys@.len(),
            texts == keys@.map_values(|v: Vec<u8>| v@),
            r.wf(),
            r@ == variant_set_of(texts.take(i as int)),
        decreases keys@.len() - i,
    {
        let ghost t = texts[i as int];
        let text_enum = copy_bytes(&keys[i]);
        let text_sym = copy_bytes(&keys[i]);
        let text_str = copy_bytes(&keys[i]);
        r.insert(KeyVariant { shape: KeyShape::EnumVariant, text: text_enum });
        r.insert(KeyVariant { shape: KeyShape::Symbol, text: text_sym });
        r.insert(KeyVariant { shape: KeyShape::Text, text: text_str });
        proof {
            let prev = variant_set_of(texts.take(i as int));
            let next = variant_set_of(texts.take(i + 1));
            assert forall|m: KeyModel| next.contains(m) implies r@.contains(m) by {
                let j = choose|j: int|
                    0 <= j < texts.take(i + 1).len() && #[trigger] texts.take(i + 1)[j] == m.text;
                if j < i {
                    assert(prev.contains(m));
                } else {
                    match m.shape {
                        KeyShape::EnumVariant => {
                            assert(m =~= km(KeyShape::EnumVariant, t));
                        },
                        KeyShape::Symbol => {
                            assert(m =~= km(KeyShape::Symbol, t));
                        },
                        KeyShape::Text => {
                            assert(m =~= km(KeyShape::Text, t));
                        },
                    }
                }
            };
            assert forall|m: KeyModel| r@.contains(m) implies next.contains(m) by {
                if prev.contains(m) {
                    let j = choose|j: int|
                        0 <= j < texts.take(i as int).len() && #[trigger] texts.take(i as int)[j]
                            == m.text;
                    assert(texts.take(i + 1)[j] == m.text);
                } else {
                    assert(texts.take(i + 1)[i as int] == m.text);
                }
            };
            assert(r@ =~= next);
        }
        i += 1;
    }
    proof {
        assert(texts.take(texts.len() as int) =~= texts);
    }
    r
}

/// Copies a byte vector.
pub fn copy_bytes(v: &Vec<u8>) -> (r: Vec<u8>)
    ensures
        r@ == v@,
{
    let mut r: Vec<u8> = Vec::new();
    let mut i: usize = 0;
    while i < v.len()
        invariant
            i <= v@.len(),
            r@ == v@.take(i as int),
        decreases v@.len() - i,
    {
        r.push(v[i]);
        proof {
            assert(v@.take(i + 1) =~= v@.take(i as int).push(v@[i as int]));
        }
        i += 1;
    }
    proof {
        assert(v@.take(v@.len() as int) =~= v@);
    }
    r
}

/// Helper for the variant-count law: whenever a sequence of key models holds
/// exactly the models whose text is one of the three case transforms of `k`,
/// its set is the variant set of `k`.
proof fn lemma_models_to_seq(k: Seq<u8>, q: Seq<KeyModel>)
    requires
        forall|j: int| 0 <= j < q.len() ==> (#[trigger] q[j].text == lower_bytes(k) || q[j].text
            == upper_bytes(k) || q[j].text == capitalized_bytes(k)),
        q.contains(km(KeyShape::EnumVariant, lower_bytes(k))),
        q.contains(km(KeyShape::Symbol, lower_bytes(k))),
        q.contains(km(KeyShape::Text, lower_bytes(k))),
        q.contains(km(KeyShape::EnumVariant, upper_bytes(k))),
        q.contains(km(KeyShape::Symbol, upper_bytes(k))),
        q.contains(km(KeyShape::Text, upper_bytes(k))),
        q.contains(km(KeyShape::EnumVariant, capitalized_bytes(k))),
        q.contains(km(KeyShape::Symbol, capitalized_bytes(k))),
        q.contains(km(KeyShape::Text, capitalized_bytes(k))),
    ensures
        key_variant_models(k) == q.to_set(),
{
    let texts = seq![lower_bytes(k), upper_bytes(k), capitalized_bytes(k)];
    assert forall|m: KeyModel| key_variant_models(k).contains(m) implies q.to_set().contains(m) by {
        let i = choose|i: int| 0 <= i < texts.len() && texts[i] == m.text;
        match m.shape {
            KeyShape::EnumVariant => {
                assert(m =~= km(KeyShape::EnumVariant, texts[i]));
            },
            KeyShape::Symbol => {
                assert(m =~= km(KeyShape::Symbol, texts[i]));
            },
            KeyShape::Text => {
                assert(m =~= km(KeyShape::Text, texts[i]));
            },
        }
        assert(texts[i] == texts[0] || texts[i] == texts[1] || texts[i] == texts[2]);
    };
    assert forall|m: KeyModel| q.to_set().contains(m) implies key_variant_models(k).contains(m) by {
        let j = choose|j: int| 0 <= j < q.len() && q[j] == m;
        if m.text == lower_bytes(k) {
            assert(texts[0] == m.text);
        } else if m.text == upper_bytes(k) {
            assert(texts[1] == m.text);
        } else {
            assert(texts[2] == m.text);
        }
    };
    assert(key_variant_models(k) =~= q.to_set());
}

/// LAW: for any input key, the variant generator yields at most nine
/// distinct wire values, and yields fewer than nine exactly when at least two
/// of the three case transforms of the key coincide (for instance an empty,
/// single-letter or non-alphabetic key).
pub proof fn lemma_variant_count(k: Seq<u8>)
    ensures
        key_variant_models(k).finite(),
        key_variant_models(k).len() <= 9,
        (key_variant_models(k).len() < 9) <==> (lower_bytes(k) == upper_bytes(k) || lower_bytes(k)
            == capitalized_bytes(k) || upper_bytes(k) == capitalized_bytes(k)),
{
    let l = lower_bytes(k);
    let u = upper_bytes(k);
    let c = capitalized_bytes(k);
    let e = KeyShape::EnumVariant;
    let s = KeyShape::Symbol;
    let t = KeyShape::Text;
    if l == u && l == c {
        let q = seq![km(e, l), km(s, l), km(t, l)];
        lemma_models_to_seq(k, q);
        assert(q.no_duplicates());
        q.unique_seq_to_set();
    } else if l == u {
        let q = seq![km(e, l), km(s, l), km(t, l), km(e, c), km(s, c), km(t, c)];
        lemma_models_to_seq(k, q);
        assert(q.no_duplicates());
        q.unique_seq_to_set();
    } else if l == c || u == c {
        let q = seq![km(e, l), km(s, l), km(t, l), km(e, u), km(s, u), km(t, u)];
        lemma_models_to_seq(k, q);
        assert(q.no_duplicates());
        q.unique_seq_to_set();
    } else {
        let q = seq![
            km(e, l),
            km(s, l),
            km(t, l),
            km(e, u),
            km(s, u),
            km(t, u),
            km(e, c),
            km(s, c),
            km(t, c),
        ];
        lemma_models_to_seq(k, q);
        assert(q.no_duplicates());
        q.unique_seq_to_set();
    }
}

/// LAW: variant generation is deterministic and independent of encoding
/// order. Any two sets generated for the same key texts are one and the same
/// set; in particular, generating variants twice for the same key yields
/// identical sets.
pub proof fn lemma_variants_deterministic(a: Set<KeyModel>, b: Set<KeyModel>, texts: Seq<Seq<u8>>)
    requires
        a == variant_set_of(texts),
        b == variant_set_of(texts),
    ensures
        a == b,
{
}

/// What a storage value can look like to the resolver: an address of an
/// externally-owned account, an address of a contract, or anything else.
#[derive(Debug, PartialEq, Eq)]
pub enum StorageValue {
    Account(String),
    Contract,
    Other,
}

impl Clone for StorageValue {
    fn clone(&self) -> (r: Self)
        ensures
            r@ == self@,
    {
        match self {
            StorageValue::Account(id) => StorageValue::Account(id.clone()),
            StorageValue::Contract => StorageValue::Contract,
            StorageValue::Other => StorageValue::Other,
        }
    }
}

/// Mathematical shape of a [`StorageValue`].
pub enum StorageValueModel {
    Account(Seq<char>),
    Contract,
    Other,
}

impl View for StorageValue {
    type V = StorageValueModel;

    open spec fn view(&self) -> StorageValueModel {
        match self {
            StorageValue::Account(id) => StorageValueModel::Account(id@),
            StorageValue::Contract => StorageValueModel::Contract,
            StorageValue::Other => StorageValueModel::Other,
        }
    }
}

/// Wraps an externally-owned account id into a control-target descriptor.
pub fn wrap_eoa(id: String) -> (r: AddressType)
    ensures
        r@ == AddressModel::EOA(id@),
{
    AddressType::EOA(id)
}

/// Decodes a storage value into a control target. A value that is not an
/// address is rejected as the wrong storage type; an account address becomes
/// an externally-owned target, a contract address a contract target.
pub fn decode_admin_value(val: &StorageValue) -> (r: Result<AddressType, Error>)
    ensures
        match val@ {
            StorageValueModel::Account(id) => r matches Ok(a) && a@ == AddressModel::EOA(id),
            StorageValueModel::Contract => r matches Ok(a) && a@ == AddressModel::Contract,
            StorageValueModel::Other => r matches Err(e) && e == Error::WrongStorageType,
        },
{
    match val {
        StorageValue::Account(id) => Ok(wrap_eoa(id.clone())),
        StorageValue::Contract => Ok(AddressType::Contract),
        StorageValue::Other => Err(Error::WrongStorageType),
    }
}

} // verus!
