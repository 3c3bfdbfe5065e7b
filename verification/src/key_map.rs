//! Resolution of the key references that host commands carry to APC keys.

use vstd::hash_map::StringHashMap;
use vstd::prelude::*;
use vstd::string::*;

use crate::error::{Failure, ProxyError};
#[allow(unused_imports)]
use crate::error;
#[allow(unused_imports)]
use crate::text;
use crate::text::{char_text, owned, same_text, text_before, text_begins_with, upper_text};

verus! {

/// What the header of a TR-31 (`S` prefix) key block says of the key.
#[derive(Debug)]
pub struct KeyBlockMeta<T = String> {
    /// TR-31 key usage code, such as `P0`, `B0` or `M6`.
    pub key_usage: T,
    /// TR-31 algorithm character: `A` AES, `D` DES, `T` TDES, `H` HMAC.
    pub algorithm: char,
    /// The key check value of the block's `KC` optional block, if it has one.
    pub kcv: Option<T>,
}

/// The view of an optional text.
pub open spec fn maybe(t: Option<String>) -> Option<Seq<char>> {
    match t {
        Some(s) => Some(s@),
        None => None,
    }
}

impl View for KeyBlockMeta<String> {
    type V = KeyBlockMeta<Seq<char>>;

    open spec fn view(&self) -> KeyBlockMeta<Seq<char>> {
        KeyBlockMeta {
            key_usage: self.key_usage@,
            algorithm: self.algorithm,
            kcv: maybe(self.kcv),
        }
    }
}

/// A key field as it stood in the wire frame, parsed but not yet resolved.
#[derive(Debug)]
pub struct KeyDescriptor<T = String> {
    /// The field itself, which `key_mappings` is keyed by.
    pub raw: T,
    /// For a wrapped key block, what its header says.
    pub block: Option<KeyBlockMeta<T>>,
}

impl View for KeyDescriptor<String> {
    type V = KeyDescriptor<Seq<char>>;

    open spec fn view(&self) -> KeyDescriptor<Seq<char>> {
        KeyDescriptor {
            raw: self.raw@,
            block: match self.block {
                Some(b) => Some(b@),
                None => None,
            },
        }
    }
}

/// A key field as contracts speak of it.
pub type KeyField = KeyDescriptor<Seq<char>>;

impl<T> KeyDescriptor<T> {
    /// A descriptor without key block metadata.
    pub open spec fn plain(raw: T) -> KeyDescriptor<T> {
        KeyDescriptor { raw, block: None }
    }
}

impl KeyDescriptor<String> {
    /// Build a descriptor for a label, a hex form or an identifier, which has no
    /// key block metadata.
    pub fn label(raw: String) -> (r: KeyDescriptor)
        ensures
            r@ == KeyField::plain(raw@),
    {
        KeyDescriptor { raw, block: None }
    }
}

/// What a key is found by in the APC inventory. The usage and the algorithm
/// stand beside the check value so that two keys that share a check value by
/// chance stay apart.
pub struct KcvKey<T = String> {
    pub key_usage: T,
    pub algorithm: T,
    pub kcv: T,
}

impl View for KcvKey<String> {
    type V = KcvKey<Seq<char>>;

    open spec fn view(&self) -> KcvKey<Seq<char>> {
        KcvKey { key_usage: self.key_usage@, algorithm: self.algorithm@, kcv: self.kcv@ }
    }
}

/// An inventory key as contracts speak of it.
pub type KcvId = KcvKey<Seq<char>>;

/// One key of the APC inventory, as `list_keys` reports it.
pub struct ApcKey<T = String> {
    pub arn: T,
    /// Usage and algorithm, where APC reports key attributes.
    pub attributes: Option<(T, T)>,
    pub kcv: T,
    pub enabled: bool,
}

impl View for ApcKey<String> {
    type V = ApcKey<Seq<char>>;

    open spec fn view(&self) -> ApcKey<Seq<char>> {
        ApcKey {
            arn: self.arn@,
            attributes: match self.attributes {
                Some((u, a)) => Some((u@, a@)),
                None => None,
            },
            kcv: self.kcv@,
            enabled: self.enabled,
        }
    }
}

impl ApcKey<String> {
    /// Whether the key is passed over only because it is disabled.
    pub fn is_disabled(&self) -> (r: bool)
        ensures
            r == self@.disabled(),
    {
        self.attributes.is_some() && !self.enabled
    }
}

impl ApcKey<Seq<char>> {
    /// A key that data-plane calls can use: enabled, with attributes.
    pub open spec fn usable(self) -> bool {
        self.attributes is Some && self.enabled
    }

    /// What the key is found by.
    pub open spec fn id(self) -> KcvId {
        KcvKey {
            key_usage: (self.attributes->0).0,
            algorithm: (self.attributes->0).1,
            kcv: text::upper(self.kcv),
        }
    }

    /// A key that is passed over only because it is disabled.
    pub open spec fn disabled(self) -> bool {
        self.attributes is Some && !self.enabled
    }
}

/// The keys of an inventory by their views.
pub open spec fn inventory(keys: Seq<ApcKey>) -> Seq<ApcKey<Seq<char>>> {
    keys.map_values(|k: ApcKey| k@)
}

/// The index that an inventory gives: each usage, algorithm and check value of a
/// usable key leads to the smallest ARN among the usable keys that share them.
pub open spec fn scan_index(keys: Seq<ApcKey<Seq<char>>>) -> Map<KcvId, Seq<char>>
    decreases keys.len(),
{
    if keys.len() == 0 {
        Map::empty()
    } else {
        let m = scan_index(keys.drop_last());
        let k = keys.last();
        if !k.usable() || (m.contains_key(k.id()) && !text::text_less(k.arn, m[k.id()])) {
            m
        } else {
            m.insert(k.id(), k.arn)
        }
    }
}

/// The number of keys that are passed over because they are disabled.
pub open spec fn disabled_count(keys: Seq<ApcKey<Seq<char>>>) -> nat
    decreases keys.len(),
{
    if keys.len() == 0 {
        0
    } else {
        disabled_count(keys.drop_last()) + if keys.last().disabled() {
            1nat
        } else {
            0
        }
    }
}

/// What a scan of the inventory came to.
pub struct ScanSummary {
    /// How many keys were looked at.
    pub scanned: usize,
    /// How many of them were passed over because they are disabled.
    pub skipped_disabled: usize,
    /// How many entries the inventory index holds now.
    pub indexed: usize,
    /// How many labels are mapped.
    pub labels: usize,
}

/// Several keys that are found by the same usage, algorithm and check value. The type
/// parameters are how the parts are held.
pub struct Collision<K = KcvKey, A = Vec<String>> {
    pub key: K,
    /// The ARNs in ascending order; the first is the one that the keys resolve to.
    pub arns: A,
}

/// A collision as contracts speak of it.
pub type CollisionView = Collision<KcvId, Seq<Seq<char>>>;

impl View for Collision<KcvKey, Vec<String>> {
    type V = CollisionView;

    open spec fn view(&self) -> CollisionView {
        Collision { key: self.key@, arns: text::views(self.arns@) }
    }
}

/// Collisions by their views.
pub open spec fn collision_views(cs: Seq<Collision>) -> Seq<CollisionView> {
    cs.map_values(|c: Collision| c@)
}

/// `arns` with `arn` put behind those that it does not come before.
pub open spec fn placed(arns: Seq<Seq<char>>, arn: Seq<char>) -> Seq<Seq<char>>
    decreases arns.len(),
{
    if arns.len() == 0 || !text::text_less(arn, arns.last()) {
        arns.push(arn)
    } else {
        placed(arns.drop_last(), arn).push(arns.last())
    }
}

/// The ARNs of the usable keys that are found by `id`, in ascending order.
pub open spec fn sharing(keys: Seq<ApcKey<Seq<char>>>, id: KcvId) -> Seq<Seq<char>>
    decreases keys.len(),
{
    if keys.len() == 0 {
        Seq::empty()
    } else {
        let arns = sharing(keys.drop_last(), id);
        let k = keys.last();
        if k.usable() && k.id() == id {
            placed(arns, k.arn)
        } else {
            arns
        }
    }
}

/// What the usable keys are found by, each once, in the order in which they come.
pub open spec fn identities(keys: Seq<ApcKey<Seq<char>>>) -> Seq<KcvId>
    decreases keys.len(),
{
    if keys.len() == 0 {
        Seq::empty()
    } else {
        let ids = identities(keys.drop_last());
        let k = keys.last();
        if k.usable() && !ids.contains(k.id()) {
            ids.push(k.id())
        } else {
            ids
        }
    }
}

/// What each identity of the inventory is shared by.
pub open spec fn shares(keys: Seq<ApcKey<Seq<char>>>) -> Seq<CollisionView> {
    identities(keys).map_values(|id: KcvId| Collision { key: id, arns: sharing(keys, id) })
}

/// Those of `all` that more than one key has a share in.
pub open spec fn several(all: Seq<CollisionView>) -> Seq<CollisionView>
    decreases all.len(),
{
    if all.len() == 0 {
        Seq::empty()
    } else if all.last().arns.len() > 1 {
        several(all.drop_last()).push(all.last())
    } else {
        several(all.drop_last())
    }
}

/// The two tables that keys are resolved by.
pub struct KeyTable {
    /// `key_mappings`: label or wire form to APC key.
    pub labels: Map<Seq<char>, Seq<char>>,
    /// The scanned inventory.
    pub index: Map<KcvId, Seq<char>>,
}

/// The mapping that a list of pairs gives; of two pairs with one label the later
/// holds.
pub open spec fn label_table(pairs: Seq<(String, String)>) -> Map<Seq<char>, Seq<char>>
    decreases pairs.len(),
{
    if pairs.len() == 0 {
        Map::empty()
    } else {
        label_table(pairs.drop_last()).insert(pairs.last().0@, pairs.last().1@)
    }
}

/// An APC key ARN or alias, which needs no resolution.
pub open spec fn is_apc_identifier(id: Seq<char>) -> bool {
    text::begins_with(id, "arn:aws:payment-cryptography"@) || text::begins_with(id, "alias/"@)
}

/// The APC key class that a TR-31 algorithm character stands for; empty if it
/// stands for none.
pub open spec fn apc_algorithm(algorithm: char) -> Seq<char> {
    if algorithm == 'A' {
        "AES_128"@
    } else if algorithm == 'D' || algorithm == 'T' {
        "TDES_2KEY"@
    } else if algorithm == 'H' {
        "HMAC_SHA256"@
    } else if algorithm == 'R' {
        "RSA_2048"@
    } else {
        ""@
    }
}

/// What follows the code in the APC name of a TR-31 key usage.
pub open spec fn usage_suffix(usage: Seq<char>) -> Option<Seq<char>> {
    if usage == "B0"@ {
        Some("BASE_DERIVATION_KEY"@)
    } else if usage == "C0"@ {
        Some("CARD_VERIFICATION_KEY"@)
    } else if usage == "D0"@ {
        Some("SYMMETRIC_DATA_ENCRYPTION_KEY"@)
    } else if usage == "E0"@ {
        Some("EMV_MKEY_APP_CRYPTOGRAMS"@)
    } else if usage == "E1"@ {
        Some("EMV_MKEY_CONFIDENTIALITY"@)
    } else if usage == "E2"@ {
        Some("EMV_MKEY_INTEGRITY"@)
    } else if usage == "E4"@ {
        Some("EMV_MKEY_DYNAMIC_NUMBERS"@)
    } else if usage == "E5"@ {
        Some("EMV_MKEY_CARD_PERSONALIZATION"@)
    } else if usage == "E6"@ {
        Some("EMV_MKEY_OTHER"@)
    } else if usage == "K0"@ || usage == "K1"@ {
        Some("KEY_BLOCK_PROTECTION_KEY"@)
    } else if usage == "M1"@ {
        Some("ISO_9797_1_MAC_KEY"@)
    } else if usage == "M3"@ {
        Some("ISO_9797_3_MAC_KEY"@)
    } else if usage == "M6"@ {
        Some("ISO_9797_5_CMAC_KEY"@)
    } else if usage == "M7"@ {
        Some("HMAC_KEY"@)
    } else if usage == "P0"@ {
        Some("PIN_ENCRYPTION_KEY"@)
    } else if usage == "V1"@ {
        Some("IBM3624_PIN_VERIFICATION_KEY"@)
    } else if usage == "V2"@ {
        Some("VISA_PIN_VERIFICATION_KEY"@)
    } else {
        None
    }
}

/// The APC name of a TR-31 key usage code; empty if it has none.
pub open spec fn apc_usage(usage: Seq<char>) -> Seq<char> {
    match usage_suffix(usage) {
        Some(suffix) => "TR31_"@ + usage + "_"@ + suffix,
        None => ""@,
    }
}

/// Where a key block with the check value `kcv` is looked up.
pub open spec fn block_id(block: KeyBlockMeta<Seq<char>>, kcv: Seq<char>) -> KcvId {
    KcvKey {
        key_usage: apc_usage(block.key_usage),
        algorithm: apc_algorithm(block.algorithm),
        kcv: text::upper(kcv),
    }
}

impl KeyTable {
    /// What a plain identifier resolves to: itself if it is an APC identifier,
    /// else what it is mapped to.
    pub open spec fn resolved(self, id: Seq<char>) -> Result<Seq<char>, Failure> {
        if is_apc_identifier(id) {
            Ok(id)
        } else if self.labels.contains_key(id) {
            Ok(self.labels[id])
        } else {
            Err(ProxyError::KeyNotFound(id))
        }
    }

    /// What a key field resolves to. An APC identifier stands for itself. A key
    /// block that carries a check value is looked up in the inventory, and
    /// nowhere else. Any other field is looked up in the mappings.
    pub open spec fn resolved_field(self, desc: KeyField) -> Result<Seq<char>, Failure> {
        if is_apc_identifier(desc.raw) {
            Ok(desc.raw)
        } else if desc.block is Some && desc.block->0.kcv is Some {
            let block = desc.block->0;
            let kcv = block.kcv->0;
            if self.index.contains_key(block_id(block, kcv)) {
                Ok(self.index[block_id(block, kcv)])
            } else {
                Err(
                    ProxyError::KeyNotFound(
                        "wrapped key block (usage="@ + block.key_usage + ", algo="@
                            + seq![block.algorithm] + ", kcv="@ + kcv + ") not in APC inventory"@,
                    ),
                )
            }
        } else if self.labels.contains_key(desc.raw) {
            Ok(self.labels[desc.raw])
        } else if desc.block is Some {
            let block = desc.block->0;
            Err(
                ProxyError::KeyNotFound(
                    "wrapped key block (usage="@ + block.key_usage + ", algo="@
                        + seq![block.algorithm]
                        + ") has no KCV in block; cannot resolve to APC ARN"@,
                ),
            )
        } else {
            Err(ProxyError::KeyNotFound(desc.raw))
        }
    }
}

struct IndexEntry {
    key: KcvKey,
    arn: String,
}

/// The map that the entries of an index hold.
spec fn entry_map(entries: Seq<IndexEntry>) -> Map<KcvId, Seq<char>>
    decreases entries.len(),
{
    if entries.len() == 0 {
        Map::empty()
    } else {
        entry_map(entries.drop_last()).insert(entries.last().key@, entries.last().arn@)
    }
}

/// No two entries have the same key.
spec fn distinct(entries: Seq<IndexEntry>) -> bool {
    forall|i: int, j: int|
        0 <= i < j < entries.len() ==> (#[trigger] entries[i]).key@ != (#[trigger] entries[j]).key@
}

proof fn lemma_entry_map_member(entries: Seq<IndexEntry>, k: KcvId)
    ensures
        entry_map(entries).contains_key(k) <==> exists|i: int|
            0 <= i < entries.len() && (#[trigger] entries[i]).key@ == k,
    decreases entries.len(),
{
    if entries.len() > 0 {
        let front = entries.drop_last();
        lemma_entry_map_member(front, k);
        if entries.last().key@ == k {
            assert(entries[entries.len() - 1].key@ == k);
        }
        if exists|i: int| 0 <= i < entries.len() && (#[trigger] entries[i]).key@ == k {
            let i = choose|i: int| 0 <= i < entries.len() && (#[trigger] entries[i]).key@ == k;
            if i < front.len() {
                assert(front[i].key@ == k);
            }
        }
        if entry_map(front).contains_key(k) {
            let i = choose|i: int| 0 <= i < front.len() && (#[trigger] front[i]).key@ == k;
            assert(entries[i].key@ == k);
        }
    }
}

proof fn lemma_entry_map_value(entries: Seq<IndexEntry>, i: int)
    requires
        distinct(entries),
        0 <= i < entries.len(),
    ensures
        entry_map(entries).contains_key(entries[i].key@),
        entry_map(entries)[entries[i].key@] == entries[i].arn@,
    decreases entries.len(),
{
    let front = entries.drop_last();
    if i < front.len() {
        assert(distinct(front)) by {
            assert forall|a: int, b: int| 0 <= a < b < front.len() implies (#[trigger] front[a]).key@
                != (#[trigger] front[b]).key@ by {
                assert(entries[a].key@ != entries[b].key@);
            }
        }
        lemma_entry_map_value(front, i);
        assert(front[i] == entries[i]);
        assert(entries[i].key@ != entries[entries.len() - 1].key@);
    }
}

proof fn lemma_entry_map_update(entries: Seq<IndexEntry>, i: int, e: IndexEntry)
    requires
        distinct(entries),
        0 <= i < entries.len(),
        e.key@ == entries[i].key@,
    ensures
        distinct(entries.update(i, e)),
        entry_map(entries.update(i, e)) == entry_map(entries).insert(e.key@, e.arn@),
    decreases entries.len(),
{
    let new = entries.update(i, e);
    assert(distinct(new)) by {
        assert forall|a: int, b: int| 0 <= a < b < new.len() implies (#[trigger] new[a]).key@ != (
        #[trigger] new[b]).key@ by {
            assert(entries[a].key@ != entries[b].key@);
        }
    }
    let front = entries.drop_last();
    if i == front.len() {
        assert(new.drop_last() =~= front);
        assert(entry_map(new) =~= entry_map(entries).insert(e.key@, e.arn@));
    } else {
        assert(new.drop_last() =~= front.update(i, e));
        assert(distinct(front)) by {
            assert forall|a: int, b: int| 0 <= a < b < front.len() implies (#[trigger] front[a]).key@
                != (#[trigger] front[b]).key@ by {
                assert(entries[a].key@ != entries[b].key@);
            }
        }
        assert(front[i] == entries[i]);
        lemma_entry_map_update(front, i, e);
        assert(new.last() == entries.last());
        assert(entries[i].key@ != entries[entries.len() - 1].key@);
        assert(entry_map(new) =~= entry_map(entries).insert(e.key@, e.arn@));
    }
}

proof fn lemma_entry_map_len(entries: Seq<IndexEntry>)
    requires
        distinct(entries),
    ensures
        entry_map(entries).dom().finite(),
        entry_map(entries).len() == entries.len(),
    decreases entries.len(),
{
    if entries.len() > 0 {
        let front = entries.drop_last();
        let last = entries.len() - 1;
        assert(distinct(front)) by {
            assert forall|a: int, b: int| 0 <= a < b < front.len() implies (#[trigger] front[a]).key@
                != (#[trigger] front[b]).key@ by {
                assert(entries[a].key@ != entries[b].key@);
            }
        }
        lemma_entry_map_len(front);
        lemma_entry_map_member(front, entries[last].key@);
        assert forall|i: int| 0 <= i < front.len() implies (#[trigger] front[i]).key@
            != entries[last].key@ by {
            assert(entries[i].key@ != entries[last].key@);
        }
    }
}

fn same_key(a: &KcvKey, b: &KcvKey) -> (r: bool)
    ensures
        r == (a@ == b@),
{
    same_text(a.key_usage.as_str(), b.key_usage.as_str()) && same_text(
        a.algorithm.as_str(),
        b.algorithm.as_str(),
    ) && same_text(a.kcv.as_str(), b.kcv.as_str())
}

/// Where `key` stands among the entries.
fn find_entry(entries: &Vec<IndexEntry>, key: &KcvKey) -> (r: Option<usize>)
    requires
        distinct(entries@),
    ensures
        match r {
            Some(i) => i < entries@.len() && entries@[i as int].key@ == key@ && entry_map(
                entries@,
            ).contains_key(key@) && entry_map(entries@)[key@] == entries@[i as int].arn@,
            None => !entry_map(entries@).contains_key(key@),
        },
{
    let mut i: usize = 0;
    while i < entries.len()
        invariant
            i <= entries@.len(),
            distinct(entries@),
            forall|k: int| 0 <= k < i ==> (#[trigger] entries@[k]).key@ != key@,
        decreases entries@.len() - i,
    {
        if same_key(&entries[i].key, key) {
            proof {
                lemma_entry_map_value(entries@, i as int);
            }
            return Some(i);
        }
        i = i + 1;
    }
    proof {
        lemma_entry_map_member(entries@, key@);
    }
    None
}

/// Enter `arn` under `key`, in place of what stood there.
fn put_entry(entries: &mut Vec<IndexEntry>, key: KcvKey, arn: String)
    requires
        distinct(old(entries)@),
    ensures
        distinct(final(entries)@),
        entry_map(final(entries)@) == entry_map(old(entries)@).insert(key@, arn@),
{
    match find_entry(entries, &key) {
        Some(i) => {
            proof {
                lemma_entry_map_update(entries@, i as int, IndexEntry { key, arn });
            }
            entries.set(i, IndexEntry { key, arn });
        },
        None => {
            proof {
                lemma_entry_map_member(entries@, key@);
                let e = IndexEntry { key, arn };
                assert(entries@.push(e).drop_last() =~= entries@);
            }
            entries.push(IndexEntry { key, arn });
        },
    }
}

/// Resolves the key references of host commands to APC keys.
///
/// Labels and variant-LMK forms go by the operator's `key_mappings`. Wrapped key
/// blocks that carry a check value go by the scanned inventory. ARNs and aliases
/// pass through unchanged.
pub struct KeyMap {
    labels: StringHashMap<String>,
    kcv_index: Vec<IndexEntry>,
}

impl View for KeyMap {
    type V = KeyTable;

    closed spec fn view(&self) -> KeyTable {
        KeyTable {
            labels: self.labels@.map_values(|s: String| s@),
            index: entry_map(self.kcv_index@),
        }
    }
}

impl KeyMap {
    /// No two entries of the inventory index share a key.
    pub closed spec fn wf(&self) -> bool {
        distinct(self.kcv_index@)
    }

    /// A key map with the operator's mappings and no inventory. Of two mappings
    /// with one label the later holds.
    pub fn new(mappings: Vec<(String, String)>) -> (r: KeyMap)
        ensures
            r.wf(),
            r@ == (KeyTable { labels: label_table(mappings@), index: Map::empty() }),
    {
        let mut labels: StringHashMap<String> = StringHashMap::new();
        let mut i: usize = 0;
        assert(labels@.map_values(|s: String| s@) =~= label_table(mappings@.take(0)));
        while i < mappings.len()
            invariant
                i <= mappings@.len(),
                labels@.map_values(|s: String| s@) == label_table(mappings@.take(i as int)),
            decreases mappings@.len() - i,
        {
            labels.insert(mappings[i].0.clone(), mappings[i].1.clone());
            assert(mappings@.take(i + 1).drop_last() =~= mappings@.take(i as int));
            i = i + 1;
            assert(labels@.map_values(|s: String| s@) =~= label_table(mappings@.take(i as int)));
        }
        assert(mappings@.take(i as int) =~= mappings@);
        KeyMap { labels, kcv_index: Vec::new() }
    }

    /// Resolve a plain identifier: a field that cannot carry a wrapped key
    /// block. Only the mappings are consulted.
    pub fn resolve<'a>(&'a self, key_id: &'a str) -> (r: Result<&'a str, ProxyError>)
        ensures
            error::outcome(r) == self@.resolved(key_id@),
    {
        if apc_identifier(key_id) {
            return Ok(key_id);
        }
        match self.labels.get(key_id) {
            Some(arn) => Ok(arn.as_str()),
            None => Err(ProxyError::KeyNotFound(owned(key_id))),
        }
    }

    /// Resolve a parsed key field to an APC key ARN or alias.
    pub fn resolve_descriptor<'a>(&'a self, desc: &'a KeyDescriptor) -> (r: Result<
        &'a str,
        ProxyError,
    >)
        requires
            self.wf(),
        ensures
            error::outcome(r) == self@.resolved_field(desc@),
    {
        if apc_identifier(desc.raw.as_str()) {
            return Ok(desc.raw.as_str());
        }
        if let Some(block) = &desc.block {
            if let Some(kcv) = &block.kcv {
                let key = KcvKey {
                    key_usage: tr31_usage_to_apc(block.key_usage.as_str()),
                    algorithm: owned(tr31_algo_to_apc(block.algorithm)),
                    kcv: upper_text(kcv.as_str()),
                };
                return match find_entry(&self.kcv_index, &key) {
                    Some(i) => Ok(self.kcv_index[i].arn.as_str()),
                    None => Err(
                        ProxyError::KeyNotFound(
                            owned("wrapped key block (usage=").concat(
                                block.key_usage.as_str(),
                            ).concat(", algo=").concat(char_text(block.algorithm).as_str()).concat(
                                ", kcv=",
                            ).concat(kcv.as_str()).concat(") not in APC inventory"),
                        ),
                    ),
                };
            }
        }
        if let Some(arn) = self.labels.get(desc.raw.as_str()) {
            return Ok(arn.as_str());
        }
        if let Some(block) = &desc.block {
            return Err(
                ProxyError::KeyNotFound(
                    owned("wrapped key block (usage=").concat(block.key_usage.as_str()).concat(
                        ", algo=",
                    ).concat(char_text(block.algorithm).as_str()).concat(
                        ") has no KCV in block; cannot resolve to APC ARN",
                    ),
                ),
            );
        }
        Err(ProxyError::KeyNotFound(desc.raw.clone()))
    }

    /// Enter the keys of an inventory scan. Disabled keys, and keys that APC
    /// reports no attributes of, are passed over. Where several keys share usage,
    /// algorithm and check value, the smallest ARN stands for them.
    pub fn index_keys(&mut self, keys: &Vec<ApcKey>) -> (r: ScanSummary)
        requires
            old(self).wf(),
        ensures
            final(self).wf(),
            final(self)@.labels == old(self)@.labels,
            final(self)@.index == old(self)@.index.union_prefer_right(
                scan_index(inventory(keys@)),
            ),
            r.scanned == keys@.len(),
            r.skipped_disabled == disabled_count(inventory(keys@)),
            r.indexed == final(self)@.index.len(),
            r.labels == final(self)@.labels.len(),
    {
        let mut found: Vec<IndexEntry> = Vec::new();
        let mut skipped: usize = 0;
        let mut i: usize = 0;
        let ghost inv = inventory(keys@);
        while i < keys.len()
            invariant
                i <= keys@.len(),
                inv == inventory(keys@),
                distinct(found@),
                entry_map(found@) == scan_index(inv.take(i as int)),
                skipped == disabled_count(inv.take(i as int)),
                skipped <= i,
            decreases keys@.len() - i,
        {
            let k = &keys[i];
            proof {
                assert(inv.take(i + 1).drop_last() =~= inv.take(i as int));
                assert(inv.take(i + 1).last() == k@);
            }
            i = i + 1;
            if let Some(attrs) = &k.attributes {
                if !k.enabled {
                    skipped = skipped + 1;
                } else {
                    let key = KcvKey {
                        key_usage: attrs.0.clone(),
                        algorithm: attrs.1.clone(),
                        kcv: upper_text(k.kcv.as_str()),
                    };
                    assert(key@ == k@.id());
                    let smaller: bool = match find_entry(&found, &key) {
                        Some(j) => text_before(k.arn.as_str(), found[j].arn.as_str()),
                        None => true,
                    };
                    if smaller {
                        put_entry(&mut found, key, k.arn.clone());
                    }
                }
            }
        }
        assert(inv.take(i as int) =~= inv);
        let mut j: usize = 0;
        assert(entry_map(self.kcv_index@).union_prefer_right(entry_map(found@.take(0)))
            =~= entry_map(self.kcv_index@));
        while j < found.len()
            invariant
                j <= found@.len(),
                distinct(self.kcv_index@),
                self.labels == old(self).labels,
                entry_map(self.kcv_index@) == entry_map(old(self).kcv_index@).union_prefer_right(
                    entry_map(found@.take(j as int)),
                ),
            decreases found@.len() - j,
        {
            let key = KcvKey {
                key_usage: found[j].key.key_usage.clone(),
                algorithm: found[j].key.algorithm.clone(),
                kcv: found[j].key.kcv.clone(),
            };
            let arn: String = found[j].arn.clone();
            put_entry(&mut self.kcv_index, key, arn);
            assert(found@.take(j + 1).drop_last() =~= found@.take(j as int));
            j = j + 1;
            assert(entry_map(self.kcv_index@) =~= entry_map(
                old(self).kcv_index@,
            ).union_prefer_right(entry_map(found@.take(j as int))));
        }
        assert(found@.take(j as int) =~= found@);
        proof {
            lemma_entry_map_len(self.kcv_index@);
            assert(self@.labels.dom() =~= self.labels@.dom());
        }
        ScanSummary {
            scanned: keys.len(),
            skipped_disabled: skipped,
            indexed: self.kcv_index.len(),
            labels: self.labels.len(),
        }
    }
}

/// Put `arn` in its place among `arns`.
fn place(arns: &mut Vec<String>, arn: String)
    ensures
        text::views(final(arns)@) == placed(text::views(old(arns)@), arn@),
{
    let ghost v = text::views(arns@);
    let mut p: usize = arns.len();
    assert(v.take(p as int) =~= v);
    assert(placed(v, arn@) =~= placed(v.take(p as int), arn@) + v.skip(p as int));
    while p > 0 && text_before(arn.as_str(), arns[p - 1].as_str())
        invariant
            p <= arns@.len(),
            v == text::views(arns@),
            placed(v, arn@) == placed(v.take(p as int), arn@) + v.skip(p as int),
        decreases p,
    {
        proof {
            let t = v.take(p as int);
            assert(t.drop_last() =~= v.take(p - 1));
            assert(placed(v, arn@) =~= placed(v.take(p - 1), arn@) + v.skip(p - 1));
        }
        p = p - 1;
    }
    arns.insert(p, arn);
    assert(text::views(arns@) =~= v.take(p as int).push(arn@) + v.skip(p as int));
}

/// Where the share of `key` stands.
fn find_share(all: &Vec<Collision>, key: &KcvKey) -> (r: Option<usize>)
    ensures
        match r {
            Some(i) => i < all@.len() && all@[i as int].key@ == key@,
            None => forall|i: int| 0 <= i < all@.len() ==> (#[trigger] all@[i]).key@ != key@,
        },
{
    let mut i: usize = 0;
    while i < all.len()
        invariant
            i <= all@.len(),
            forall|k: int| 0 <= k < i ==> (#[trigger] all@[k]).key@ != key@,
        decreases all@.len() - i,
    {
        if same_key(&all[i].key, key) {
            return Some(i);
        }
        i = i + 1;
    }
    None
}

proof fn lemma_identities(keys: Seq<ApcKey<Seq<char>>>)
    ensures
        forall|i: int, j: int|
            0 <= i < j < identities(keys).len() ==> #[trigger] identities(keys)[i]
                != #[trigger] identities(keys)[j],
        forall|id: KcvId|
            sharing(keys, id).len() > 0 <==> #[trigger] identities(keys).contains(id),
    decreases keys.len(),
{
    if keys.len() > 0 {
        let front = keys.drop_last();
        let k = keys.last();
        let was = identities(front);
        let now = identities(keys);
        lemma_identities(front);
        assert forall|id: KcvId| sharing(keys, id).len() > 0 <==> #[trigger] now.contains(id) by {
            lemma_placed_len(sharing(front, id), k.arn);
            if k.usable() && !was.contains(k.id()) {
                assert(now[was.len() as int] == k.id());
                if was.contains(id) {
                    assert(now[was.index_of(id)] == id);
                }
            }
            assert(sharing(front, id).len() > 0 <==> was.contains(id));
        }
        assert forall|i: int, j: int| 0 <= i < j < now.len() implies #[trigger] now[i]
            != #[trigger] now[j] by {
            if j == was.len() {
                assert(was.contains(was[i]));
            }
        }
    }
}

proof fn lemma_placed_len(arns: Seq<Seq<char>>, arn: Seq<char>)
    ensures
        placed(arns, arn).len() == arns.len() + 1,
    decreases arns.len(),
{
    if arns.len() > 0 {
        lemma_placed_len(arns.drop_last(), arn);
    }
}

/// The keys that share usage, algorithm and check value with another, by what they
/// share: only the first ARN of each stands in the index. Keys that are passed over by
/// the scan have no part in it.
pub fn collisions(keys: &Vec<ApcKey>) -> (r: Vec<Collision>)
    ensures
        collision_views(r@) == several(shares(inventory(keys@))),
{
    let mut all: Vec<Collision> = Vec::new();
    let mut i: usize = 0;
    let ghost inv = inventory(keys@);
    assert(collision_views(all@) =~= shares(inv.take(0)));
    while i < keys.len()
        invariant
            i <= keys@.len(),
            inv == inventory(keys@),
            collision_views(all@) == shares(inv.take(i as int)),
        decreases keys@.len() - i,
    {
        let k = &keys[i];
        let ghost front = inv.take(i as int);
        let ghost next = inv.take(i + 1);
        let ghost was = collision_views(all@);
        proof {
            assert(next.drop_last() =~= front);
            assert(next.last() == k@);
            lemma_identities(front);
            lemma_identities(next);
        }
        i = i + 1;
        if let Some(attrs) = &k.attributes {
            if k.enabled {
                let key = KcvKey {
                    key_usage: attrs.0.clone(),
                    algorithm: attrs.1.clone(),
                    kcv: upper_text(k.kcv.as_str()),
                };
                let ghost id = k@.id();
                assert(key@ == id);
                match find_share(&all, &key) {
                    Some(p) => {
                        let mut share: Collision = all.remove(p);
                        place(&mut share.arns, k.arn.clone());
                        let ghost s = share@;
                        all.insert(p, share);
                        proof {
                            assert(was[p as int].key == id);
                            assert(shares(front).len() == identities(front).len());
                            assert(shares(front)[p as int].key == identities(front)[p as int]);
                            assert(identities(front).contains(id));
                            assert(collision_views(all@) =~= was.update(p as int, s));
                            assert(s == (Collision { key: id, arns: sharing(next, id) }));
                            assert(collision_views(all@) =~= shares(next));
                        }
                    },
                    None => {
                        let share = Collision { key, arns: vec![k.arn.clone()] };
                        all.push(share);
                        proof {
                            assert(!identities(front).contains(id)) by {
                                if identities(front).contains(id) {
                                    let p = identities(front).index_of(id);
                                    assert(was[p].key == id);
                                    assert(all@[p].key@ == id);
                                }
                            }
                            assert(sharing(front, id).len() == 0);
                            assert(sharing(next, id) =~= seq![k.arn@]);
                            assert(share@.arns =~= seq![k.arn@]);
                            assert(collision_views(all@) =~= was.push(share@));
                            assert(collision_views(all@) =~= shares(next)) by {
                                assert forall|q: int| 0 <= q < was.len() implies #[trigger] was[q]
                                    == shares(next)[q] by {
                                    assert(identities(front).contains(identities(front)[q]));
                                }
                            }
                        }
                    },
                }
            }
        }
        assert(collision_views(all@) =~= shares(next));
    }
    assert(inv.take(i as int) =~= inv);
    let ghost whole = collision_views(all@);
    let ghost mut seen: int = 0;
    let mut n: usize = 0;
    assert(whole.take(0) =~= Seq::empty());
    assert(collision_views(all@.take(0)) =~= Seq::empty());
    assert(collision_views(all@.skip(0)) =~= whole.skip(0));
    while n < all.len()
        invariant
            n <= all@.len(),
            0 <= seen <= whole.len(),
            collision_views(all@.take(n as int)) == several(whole.take(seen)),
            collision_views(all@.skip(n as int)) == whole.skip(seen),
        decreases all@.len() - n,
    {
        let ghost before = all@;
        proof {
            assert(collision_views(all@.skip(n as int)).len() > 0);
            assert(seen < whole.len());
            assert(collision_views(all@.skip(n as int))[0] == all@[n as int]@);
            assert(whole.skip(seen)[0] == whole[seen]);
            assert(whole.take(seen + 1).drop_last() =~= whole.take(seen));
        }
        if all[n].arns.len() > 1 {
            n = n + 1;
            assert(collision_views(all@.take(n as int)) =~= several(whole.take(seen)).push(
                whole[seen],
            )) by {
                assert(all@.take(n as int) =~= before.take(n - 1).push(before[n - 1]));
                assert(collision_views(before.take(n - 1).push(before[n - 1])) =~= collision_views(
                    before.take(n - 1),
                ).push(before[n - 1]@));
            }
            assert(collision_views(all@.skip(n as int)) =~= whole.skip(seen + 1)) by {
                let rest = collision_views(before.skip(n - 1));
                assert(collision_views(all@.skip(n as int)) =~= rest.skip(1));
                assert(whole.skip(seen).skip(1) =~= whole.skip(seen + 1));
            }
        } else {
            all.remove(n);
            assert(all@.take(n as int) =~= before.take(n as int));
            assert(all@.skip(n as int) =~= before.skip(n as int).skip(1));
            assert(collision_views(all@.skip(n as int)) =~= whole.skip(seen + 1)) by {
                let rest = collision_views(before.skip(n as int));
                assert(collision_views(all@.skip(n as int)) =~= rest.skip(1));
                assert(whole.skip(seen).skip(1) =~= whole.skip(seen + 1));
            }
        }
        proof {
            seen = seen + 1;
        }
    }
    proof {
        assert(collision_views(all@.skip(n as int)).len() == 0);
        assert(whole.skip(seen).len() == 0);
        assert(whole.take(seen) =~= whole);
        assert(all@.take(n as int) =~= all@);
    }
    all
}

/// No text of `arns` comes before one that stands ahead of it.
pub open spec fn ascending(arns: Seq<Seq<char>>) -> bool {
    forall|i: int, j: int|
        0 <= i < j < arns.len() ==> !text::text_less(#[trigger] arns[j], #[trigger] arns[i])
}

proof fn lemma_placed(arns: Seq<Seq<char>>, arn: Seq<char>)
    requires
        ascending(arns),
    ensures
        placed(arns, arn).len() == arns.len() + 1,
        ascending(placed(arns, arn)),
        placed(arns, arn).to_multiset() == arns.to_multiset().insert(arn),
        placed(arns, arn)[0] == if arns.len() == 0 || text::text_less(arn, arns[0]) {
            arn
        } else {
            arns[0]
        },
    decreases arns.len(),
{
    broadcast use vstd::seq_lib::group_to_multiset_ensures;

    let now = placed(arns, arn);
    let bytes = vstd::utf8::encode_utf8(arn);
    if arns.len() == 0 {
    } else if !text::text_less(arn, arns.last()) {
        text::bytes_less_is_total(bytes, vstd::utf8::encode_utf8(arns.last()));
        assert forall|i: int, j: int| 0 <= i < j < now.len() implies !text::text_less(
            #[trigger] now[j],
            #[trigger] now[i],
        ) by {
            if j == arns.len() && i < arns.len() - 1 && text::text_less(arn, arns[i]) {
                let (last, at) = (
                    vstd::utf8::encode_utf8(arns.last()),
                    vstd::utf8::encode_utf8(arns[i]),
                );
                text::bytes_less_is_total(last, at);
                if text::bytes_less(at, last) {
                    text::bytes_less_is_transitive(bytes, at, last);
                }
            }
        }
        if arns.len() > 1 && text::text_less(arn, arns[0]) {
            assert(!text::text_less(now[arns.len() as int], now[0]));
        }
    } else {
        let front = arns.drop_last();
        let last = arns.last();
        lemma_placed(front, arn);
        let init = placed(front, arn);
        assert(arns =~= front.push(last));
        assert forall|i: int, j: int| 0 <= i < j < now.len() implies !text::text_less(
            #[trigger] now[j],
            #[trigger] now[i],
        ) by {
            if j == init.len() {
                assert(init.to_multiset().contains(init[i]));
                if init[i] == arn {
                    text::bytes_less_is_total(bytes, vstd::utf8::encode_utf8(last));
                } else {
                    assert(front.to_multiset().contains(init[i]));
                    assert(front.contains(init[i]));
                    let q = front.index_of(init[i]);
                    assert(!text::text_less(arns[arns.len() - 1], arns[q]));
                }
            }
        }
        assert(now.to_multiset() =~= arns.to_multiset().insert(arn));
    }
}

/// The ARNs of the usable keys that are found by `id`, each as often as it occurs.
pub open spec fn arns_of(keys: Seq<ApcKey<Seq<char>>>, id: KcvId) -> vstd::multiset::Multiset<
    Seq<char>,
>
    decreases keys.len(),
{
    if keys.len() == 0 {
        vstd::multiset::Multiset::empty()
    } else if keys.last().usable() && keys.last().id() == id {
        arns_of(keys.drop_last(), id).insert(keys.last().arn)
    } else {
        arns_of(keys.drop_last(), id)
    }
}

/// Those that share an identity are all named, each as often as it occurs, in ascending
/// order, and the first of them is the one that the scan resolves to.
pub proof fn sharing_names_all_in_order(keys: Seq<ApcKey<Seq<char>>>, id: KcvId)
    ensures
        ascending(sharing(keys, id)),
        sharing(keys, id).to_multiset() == arns_of(keys, id),
        scan_index(keys).contains_key(id) <==> sharing(keys, id).len() > 0,
        sharing(keys, id).len() > 0 ==> scan_index(keys)[id] == sharing(keys, id)[0],
    decreases keys.len(),
{
    broadcast use vstd::seq_lib::group_to_multiset_ensures;

    if keys.len() > 0 {
        let front = keys.drop_last();
        sharing_names_all_in_order(front, id);
        lemma_placed(sharing(front, id), keys.last().arn);
    } else {
        assert(sharing(keys, id).to_multiset() =~= arns_of(keys, id));
    }
}

/// A collision is reported of exactly those identities that more than one usable key is
/// found by, with all that share them.
pub proof fn every_collision_is_reported(keys: Seq<ApcKey<Seq<char>>>, c: CollisionView)
    ensures
        several(shares(keys)).contains(c) <==> c.arns == sharing(keys, c.key) && c.arns.len() > 1,
{
    lemma_identities(keys);
    lemma_several(shares(keys), c);
    if c.arns == sharing(keys, c.key) && c.arns.len() > 1 {
        let i = identities(keys).index_of(c.key);
        assert(identities(keys).contains(c.key));
        assert(shares(keys)[i] == c);
    }
    if shares(keys).contains(c) {
        let i = shares(keys).index_of(c);
        assert(shares(keys)[i].key == identities(keys)[i]);
    }
}

proof fn lemma_several(all: Seq<CollisionView>, c: CollisionView)
    ensures
        several(all).contains(c) <==> all.contains(c) && c.arns.len() > 1,
    decreases all.len(),
{
    if all.len() > 0 {
        let front = all.drop_last();
        lemma_several(front, c);
        assert(all =~= front.push(all.last()));
        assert(all.contains(c) <==> front.contains(c) || all.last() == c) by {
            if front.contains(c) {
                assert(all[front.index_of(c)] == c);
            }
            if all.contains(c) && all.last() != c {
                assert(front[all.index_of(c)] == c);
            }
            assert(all[all.len() - 1] == all.last());
        }
        if all.last().arns.len() > 1 {
            let was = several(front);
            let now = several(all);
            assert(now.contains(c) <==> was.contains(c) || all.last() == c) by {
                if was.contains(c) {
                    assert(now[was.index_of(c)] == c);
                }
                assert(now[was.len() as int] == all.last());
                if now.contains(c) && all.last() != c {
                    assert(was[now.index_of(c)] == c);
                }
            }
        }
    }
}

/// An ARN or an alias stands for itself, whatever the tables hold.
pub proof fn apc_identifiers_pass_through(t: KeyTable, desc: KeyField)
    requires
        is_apc_identifier(desc.raw),
    ensures
        t.resolved(desc.raw) == Ok::<Seq<char>, Failure>(desc.raw),
        t.resolved_field(desc) == Ok::<Seq<char>, Failure>(desc.raw),
{
}

/// A field without key block metadata resolves as its text does.
pub proof fn plain_fields_resolve_as_labels(t: KeyTable, raw: Seq<char>)
    ensures
        t.resolved_field(KeyField::plain(raw)) == t.resolved(raw),
{
}

/// A key block that carries a check value never falls back to the mappings:
/// they have no bearing on what it resolves to.
pub proof fn checked_blocks_ignore_the_mappings(
    t: KeyTable,
    desc: KeyField,
    other: Map<Seq<char>, Seq<char>>,
)
    requires
        desc.block is Some,
        desc.block->0.kcv is Some,
    ensures
        t.resolved_field(desc) == (KeyTable { labels: other, index: t.index }).resolved_field(desc),
        !is_apc_identifier(desc.raw) && !t.index.contains_key(
            block_id(desc.block->0, desc.block->0.kcv->0),
        ) ==> t.resolved_field(desc) matches Err(ProxyError::KeyNotFound(_)),
{
}

/// The case of a check value makes no difference to where it leads.
pub proof fn check_values_ignore_case(block: KeyBlockMeta<Seq<char>>, a: Seq<char>, b: Seq<char>)
    requires
        text::upper(a) == text::upper(b),
    ensures
        block_id(block, a) == block_id(block, b),
        block_id(block, text::upper(a)) == block_id(block, a),
{
    text::upper_is_idempotent(a);
}

/// Key `i` of the inventory is usable and found by `id`.
pub open spec fn answers_to(keys: Seq<ApcKey<Seq<char>>>, i: int, id: KcvId) -> bool {
    0 <= i < keys.len() && keys[i].usable() && keys[i].id() == id
}

/// The index of a scan holds exactly what the usable keys are found by, and
/// leads each to the smallest ARN among the keys that share it.
pub proof fn scan_resolves_to_the_smallest_arn(keys: Seq<ApcKey<Seq<char>>>, id: KcvId)
    ensures
        scan_index(keys).contains_key(id) <==> exists|i: int| answers_to(keys, i, id),
        scan_index(keys).contains_key(id) ==> exists|i: int|
            answers_to(keys, i, id) && keys[i].arn == scan_index(keys)[id],
        forall|i: int|
            answers_to(keys, i, id) ==> !text::text_less(
                #[trigger] keys[i].arn,
                scan_index(keys)[id],
            ),
    decreases keys.len(),
{
    if keys.len() > 0 {
        let front = keys.drop_last();
        let last = keys.len() - 1;
        let k = keys.last();
        scan_resolves_to_the_smallest_arn(front, id);
        let before = scan_index(front);
        let after = scan_index(keys);
        assert forall|i: int| answers_to(front, i, id) implies answers_to(keys, i, id) by {}
        assert forall|i: int| answers_to(keys, i, id) && i != last implies answers_to(
            front,
            i,
            id,
        ) by {}
        if k.usable() && k.id() == id {
            assert(answers_to(keys, last, id));
        }
        if before.contains_key(id) {
            let i = choose|i: int| answers_to(front, i, id) && front[i].arn == before[id];
            assert(answers_to(keys, i, id) && keys[i].arn == before[id]);
        }
        assert forall|i: int| answers_to(keys, i, id) implies !text::text_less(
            #[trigger] keys[i].arn,
            after[id],
        ) by {
            let old_bytes = vstd::utf8::encode_utf8(before[id]);
            let k_bytes = vstd::utf8::encode_utf8(k.arn);
            text::bytes_less_is_total(k_bytes, k_bytes);
            if i != last {
                assert(answers_to(front, i, id) && front[i].arn == keys[i].arn);
                if text::text_less(keys[i].arn, k.arn) && text::text_less(k.arn, before[id]) {
                    text::bytes_less_is_transitive(
                        vstd::utf8::encode_utf8(keys[i].arn),
                        k_bytes,
                        old_bytes,
                    );
                }
            }
        }
    }
}

fn apc_identifier(id: &str) -> (r: bool)
    ensures
        r == is_apc_identifier(id@),
{
    text_begins_with(id, "arn:aws:payment-cryptography") || text_begins_with(id, "alias/")
}

/// Map a TR-31 algorithm character to the name of an APC key class. The block
/// header names the family only, so the usual class of each family is taken.
fn tr31_algo_to_apc(algo: char) -> (r: &'static str)
    ensures
        r@ == apc_algorithm(algo),
{
    if algo == 'A' {
        "AES_128"
    } else if algo == 'D' || algo == 'T' {
        "TDES_2KEY"
    } else if algo == 'H' {
        "HMAC_SHA256"
    } else if algo == 'R' {
        "RSA_2048"
    } else {
        ""
    }
}

/// Map a TR-31 key usage code to the APC name of the usage.
fn tr31_usage_to_apc(usage: &str) -> (r: String)
    ensures
        r@ == apc_usage(usage@),
{
    let suffix: &str = if same_text(usage, "B0") {
        "BASE_DERIVATION_KEY"
    } else if same_text(usage, "C0") {
        "CARD_VERIFICATION_KEY"
    } else if same_text(usage, "D0") {
        "SYMMETRIC_DATA_ENCRYPTION_KEY"
    } else if same_text(usage, "E0") {
        "EMV_MKEY_APP_CRYPTOGRAMS"
    } else if same_text(usage, "E1") {
        "EMV_MKEY_CONFIDENTIALITY"
    } else if same_text(usage, "E2") {
        "EMV_MKEY_INTEGRITY"
    } else if same_text(usage, "E4") {
        "EMV_MKEY_DYNAMIC_NUMBERS"
    } else if same_text(usage, "E5") {
        "EMV_MKEY_CARD_PERSONALIZATION"
    } else if same_text(usage, "E6") {
        "EMV_MKEY_OTHER"
    } else if same_text(usage, "K0") || same_text(usage, "K1") {
        "KEY_BLOCK_PROTECTION_KEY"
    } else if same_text(usage, "M1") {
        "ISO_9797_1_MAC_KEY"
    } else if same_text(usage, "M3") {
        "ISO_9797_3_MAC_KEY"
    } else if same_text(usage, "M6") {
        "ISO_9797_5_CMAC_KEY"
    } else if same_text(usage, "M7") {
        "HMAC_KEY"
    } else if same_text(usage, "P0") {
        "PIN_ENCRYPTION_KEY"
    } else if same_text(usage, "V1") {
        "IBM3624_PIN_VERIFICATION_KEY"
    } else if same_text(usage, "V2") {
        "VISA_PIN_VERIFICATION_KEY"
    } else {
        return owned("");
    };
    owned("TR31_").concat(usage).concat("_").concat(suffix)
}

/// A key that does not resolve is answered with code `10`.
pub proof fn unresolved_keys_are_answered_10(t: KeyTable, desc: KeyField)
    ensures
        t.resolved_field(desc) is Err ==> t.resolved_field(desc)->Err_0.code() == text::ascii_2(
            '1',
            '0',
        ),
{
}

/// The usages that a key block can name, and what APC calls them.
pub proof fn usages_go_by_their_apc_names(code: Seq<char>, name: Seq<char>)
    requires
        ({
            ||| code == "B0"@ && name == "TR31_B0_BASE_DERIVATION_KEY"@
            ||| code == "C0"@ && name == "TR31_C0_CARD_VERIFICATION_KEY"@
            ||| code == "D0"@ && name == "TR31_D0_SYMMETRIC_DATA_ENCRYPTION_KEY"@
            ||| code == "E0"@ && name == "TR31_E0_EMV_MKEY_APP_CRYPTOGRAMS"@
            ||| code == "E1"@ && name == "TR31_E1_EMV_MKEY_CONFIDENTIALITY"@
            ||| code == "E2"@ && name == "TR31_E2_EMV_MKEY_INTEGRITY"@
            ||| code == "E4"@ && name == "TR31_E4_EMV_MKEY_DYNAMIC_NUMBERS"@
            ||| code == "E5"@ && name == "TR31_E5_EMV_MKEY_CARD_PERSONALIZATION"@
            ||| code == "E6"@ && name == "TR31_E6_EMV_MKEY_OTHER"@
            ||| code == "K0"@ && name == "TR31_K0_KEY_BLOCK_PROTECTION_KEY"@
            ||| code == "K1"@ && name == "TR31_K1_KEY_BLOCK_PROTECTION_KEY"@
            ||| code == "M1"@ && name == "TR31_M1_ISO_9797_1_MAC_KEY"@
            ||| code == "M3"@ && name == "TR31_M3_ISO_9797_3_MAC_KEY"@
            ||| code == "M6"@ && name == "TR31_M6_ISO_9797_5_CMAC_KEY"@
            ||| code == "M7"@ && name == "TR31_M7_HMAC_KEY"@
            ||| code == "P0"@ && name == "TR31_P0_PIN_ENCRYPTION_KEY"@
            ||| code == "V1"@ && name == "TR31_V1_IBM3624_PIN_VERIFICATION_KEY"@
            ||| code == "V2"@ && name == "TR31_V2_VISA_PIN_VERIFICATION_KEY"@
        }),
    ensures
        apc_usage(code) == name,
{
    reveal_strlit("TR31_");
    reveal_strlit("_");
    reveal_strlit("B0");
    reveal_strlit("C0");
    reveal_strlit("D0");
    reveal_strlit("E0");
    reveal_strlit("E1");
    reveal_strlit("E2");
    reveal_strlit("E4");
    reveal_strlit("E5");
    reveal_strlit("E6");
    reveal_strlit("K0");
    reveal_strlit("K1");
    reveal_strlit("M1");
    reveal_strlit("M3");
    reveal_strlit("M6");
    reveal_strlit("M7");
    reveal_strlit("P0");
    reveal_strlit("V1");
    reveal_strlit("V2");
    assert("B0"@ =~= seq!['B', '0']);
    assert("C0"@ =~= seq!['C', '0']);
    assert("D0"@ =~= seq!['D', '0']);
    assert("E0"@ =~= seq!['E', '0']);
    assert("E1"@ =~= seq!['E', '1']);
    assert("E2"@ =~= seq!['E', '2']);
    assert("E4"@ =~= seq!['E', '4']);
    assert("E5"@ =~= seq!['E', '5']);
    assert("E6"@ =~= seq!['E', '6']);
    assert("K0"@ =~= seq!['K', '0']);
    assert("K1"@ =~= seq!['K', '1']);
    assert("M1"@ =~= seq!['M', '1']);
    assert("M3"@ =~= seq!['M', '3']);
    assert("M6"@ =~= seq!['M', '6']);
    assert("M7"@ =~= seq!['M', '7']);
    assert("P0"@ =~= seq!['P', '0']);
    assert("V1"@ =~= seq!['V', '1']);
    assert("V2"@ =~= seq!['V', '2']);
    if code == "B0"@ {
        reveal_strlit("BASE_DERIVATION_KEY");
        reveal_strlit("TR31_B0_BASE_DERIVATION_KEY");
        assert(code[0] == 'B' && code[1] == '0');
        assert("TR31_"@ + "B0"@ + "_"@ + "BASE_DERIVATION_KEY"@ =~= "TR31_B0_BASE_DERIVATION_KEY"@);
    }
    if code == "C0"@ {
        reveal_strlit("CARD_VERIFICATION_KEY");
        reveal_strlit("TR31_C0_CARD_VERIFICATION_KEY");
        assert(code[0] == 'C' && code[1] == '0');
        assert("TR31_"@ + "C0"@ + "_"@
            + "CARD_VERIFICATION_KEY"@ =~= "TR31_C0_CARD_VERIFICATION_KEY"@);
    }
    if code == "D0"@ {
        reveal_strlit("SYMMETRIC_DATA_ENCRYPTION_KEY");
        reveal_strlit("TR31_D0_SYMMETRIC_DATA_ENCRYPTION_KEY");
        assert(code[0] == 'D' && code[1] == '0');
        assert("TR31_"@ + "D0"@ + "_"@
            + "SYMMETRIC_DATA_ENCRYPTION_KEY"@ =~= "TR31_D0_SYMMETRIC_DATA_ENCRYPTION_KEY"@);
    }
    if code == "E0"@ {
        reveal_strlit("EMV_MKEY_APP_CRYPTOGRAMS");
        reveal_strlit("TR31_E0_EMV_MKEY_APP_CRYPTOGRAMS");
        assert(code[0] == 'E' && code[1] == '0');
        assert("TR31_"@ + "E0"@ + "_"@
            + "EMV_MKEY_APP_CRYPTOGRAMS"@ =~= "TR31_E0_EMV_MKEY_APP_CRYPTOGRAMS"@);
    }
    if code == "E1"@ {
        reveal_strlit("EMV_MKEY_CONFIDENTIALITY");
        reveal_strlit("TR31_E1_EMV_MKEY_CONFIDENTIALITY");
        assert(code[0] == 'E' && code[1] == '1');
        assert("TR31_"@ + "E1"@ + "_"@
            + "EMV_MKEY_CONFIDENTIALITY"@ =~= "TR31_E1_EMV_MKEY_CONFIDENTIALITY"@);
    }
    if code == "E2"@ {
        reveal_strlit("EMV_MKEY_INTEGRITY");
        reveal_strlit("TR31_E2_EMV_MKEY_INTEGRITY");
        assert(code[0] == 'E' && code[1] == '2');
        assert("TR31_"@ + "E2"@ + "_"@ + "EMV_MKEY_INTEGRITY"@ =~= "TR31_E2_EMV_MKEY_INTEGRITY"@);
    }
    if code == "E4"@ {
        reveal_strlit("EMV_MKEY_DYNAMIC_NUMBERS");
        reveal_strlit("TR31_E4_EMV_MKEY_DYNAMIC_NUMBERS");
        assert(code[0] == 'E' && code[1] == '4');
        assert("TR31_"@ + "E4"@ + "_"@
            + "EMV_MKEY_DYNAMIC_NUMBERS"@ =~= "TR31_E4_EMV_MKEY_DYNAMIC_NUMBERS"@);
    }
    if code == "E5"@ {
        reveal_strlit("EMV_MKEY_CARD_PERSONALIZATION");
        reveal_strlit("TR31_E5_EMV_MKEY_CARD_PERSONALIZATION");
        assert(code[0] == 'E' && code[1] == '5');
        assert("TR31_"@ + "E5"@ + "_"@
            + "EMV_MKEY_CARD_PERSONALIZATION"@ =~= "TR31_E5_EMV_MKEY_CARD_PERSONALIZATION"@);
    }
    if code == "E6"@ {
        reveal_strlit("EMV_MKEY_OTHER");
        reveal_strlit("TR31_E6_EMV_MKEY_OTHER");
        assert(code[0] == 'E' && code[1] == '6');
        assert("TR31_"@ + "E6"@ + "_"@ + "EMV_MKEY_OTHER"@ =~= "TR31_E6_EMV_MKEY_OTHER"@);
    }
    if code == "K0"@ {
        reveal_strlit("KEY_BLOCK_PROTECTION_KEY");
        reveal_strlit("TR31_K0_KEY_BLOCK_PROTECTION_KEY");
        assert(code[0] == 'K' && code[1] == '0');
        assert("TR31_"@ + "K0"@ + "_"@
            + "KEY_BLOCK_PROTECTION_KEY"@ =~= "TR31_K0_KEY_BLOCK_PROTECTION_KEY"@);
    }
    if code == "K1"@ {
        reveal_strlit("KEY_BLOCK_PROTECTION_KEY");
        reveal_strlit("TR31_K1_KEY_BLOCK_PROTECTION_KEY");
        assert(code[0] == 'K' && code[1] == '1');
        assert("TR31_"@ + "K1"@ + "_"@
            + "KEY_BLOCK_PROTECTION_KEY"@ =~= "TR31_K1_KEY_BLOCK_PROTECTION_KEY"@);
    }
    if code == "M1"@ {
        reveal_strlit("ISO_9797_1_MAC_KEY");
        reveal_strlit("TR31_M1_ISO_9797_1_MAC_KEY");
        assert(code[0] == 'M' && code[1] == '1');
        assert("TR31_"@ + "M1"@ + "_"@ + "ISO_9797_1_MAC_KEY"@ =~= "TR31_M1_ISO_9797_1_MAC_KEY"@);
    }
    if code == "M3"@ {
        reveal_strlit("ISO_9797_3_MAC_KEY");
        reveal_strlit("TR31_M3_ISO_9797_3_MAC_KEY");
        assert(code[0] == 'M' && code[1] == '3');
        assert("TR31_"@ + "M3"@ + "_"@ + "ISO_9797_3_MAC_KEY"@ =~= "TR31_M3_ISO_9797_3_MAC_KEY"@);
    }
    if code == "M6"@ {
        reveal_strlit("ISO_9797_5_CMAC_KEY");
        reveal_strlit("TR31_M6_ISO_9797_5_CMAC_KEY");
        assert(code[0] == 'M' && code[1] == '6');
        assert("TR31_"@ + "M6"@ + "_"@ + "ISO_9797_5_CMAC_KEY"@ =~= "TR31_M6_ISO_9797_5_CMAC_KEY"@);
    }
    if code == "M7"@ {
        reveal_strlit("HMAC_KEY");
        reveal_strlit("TR31_M7_HMAC_KEY");
        assert(code[0] == 'M' && code[1] == '7');
        assert("TR31_"@ + "M7"@ + "_"@ + "HMAC_KEY"@ =~= "TR31_M7_HMAC_KEY"@);
    }
    if code == "P0"@ {
        reveal_strlit("PIN_ENCRYPTION_KEY");
        reveal_strlit("TR31_P0_PIN_ENCRYPTION_KEY");
        assert(code[0] == 'P' && code[1] == '0');
        assert("TR31_"@ + "P0"@ + "_"@ + "PIN_ENCRYPTION_KEY"@ =~= "TR31_P0_PIN_ENCRYPTION_KEY"@);
    }
    if code == "V1"@ {
        reveal_strlit("IBM3624_PIN_VERIFICATION_KEY");
        reveal_strlit("TR31_V1_IBM3624_PIN_VERIFICATION_KEY");
        assert(code[0] == 'V' && code[1] == '1');
        assert("TR31_"@ + "V1"@ + "_"@
            + "IBM3624_PIN_VERIFICATION_KEY"@ =~= "TR31_V1_IBM3624_PIN_VERIFICATION_KEY"@);
    }
    if code == "V2"@ {
        reveal_strlit("VISA_PIN_VERIFICATION_KEY");
        reveal_strlit("TR31_V2_VISA_PIN_VERIFICATION_KEY");
        assert(code[0] == 'V' && code[1] == '2');
        assert("TR31_"@ + "V2"@ + "_"@
            + "VISA_PIN_VERIFICATION_KEY"@ =~= "TR31_V2_VISA_PIN_VERIFICATION_KEY"@);
    }
}

/// A key block is found among the keys of its own usage and family. Where the block
/// names AES, DES or TDES, HMAC or RSA, and a usage that APC knows, it resolves to the
/// smallest ARN among the enabled keys that have the APC name of that usage, the class of
/// that family and the check value of the block, in either case; where there is no such
/// key it does not resolve.
pub proof fn key_blocks_resolve_within_usage_and_family(
    keys: Seq<ApcKey<Seq<char>>>,
    labels: Map<Seq<char>, Seq<char>>,
    raw: Seq<char>,
    code: Seq<char>,
    name: Seq<char>,
    algorithm: char,
    class: Seq<char>,
    kcv: Seq<char>,
)
    requires
        !is_apc_identifier(raw),
        ({
            ||| code == "B0"@ && name == "TR31_B0_BASE_DERIVATION_KEY"@
            ||| code == "C0"@ && name == "TR31_C0_CARD_VERIFICATION_KEY"@
            ||| code == "D0"@ && name == "TR31_D0_SYMMETRIC_DATA_ENCRYPTION_KEY"@
            ||| code == "E0"@ && name == "TR31_E0_EMV_MKEY_APP_CRYPTOGRAMS"@
            ||| code == "E1"@ && name == "TR31_E1_EMV_MKEY_CONFIDENTIALITY"@
            ||| code == "E2"@ && name == "TR31_E2_EMV_MKEY_INTEGRITY"@
            ||| code == "E4"@ && name == "TR31_E4_EMV_MKEY_DYNAMIC_NUMBERS"@
            ||| code == "E5"@ && name == "TR31_E5_EMV_MKEY_CARD_PERSONALIZATION"@
            ||| code == "E6"@ && name == "TR31_E6_EMV_MKEY_OTHER"@
            ||| code == "K0"@ && name == "TR31_K0_KEY_BLOCK_PROTECTION_KEY"@
            ||| code == "K1"@ && name == "TR31_K1_KEY_BLOCK_PROTECTION_KEY"@
            ||| code == "M1"@ && name == "TR31_M1_ISO_9797_1_MAC_KEY"@
            ||| code == "M3"@ && name == "TR31_M3_ISO_9797_3_MAC_KEY"@
            ||| code == "M6"@ && name == "TR31_M6_ISO_9797_5_CMAC_KEY"@
            ||| code == "M7"@ && name == "TR31_M7_HMAC_KEY"@
            ||| code == "P0"@ && name == "TR31_P0_PIN_ENCRYPTION_KEY"@
            ||| code == "V1"@ && name == "TR31_V1_IBM3624_PIN_VERIFICATION_KEY"@
            ||| code == "V2"@ && name == "TR31_V2_VISA_PIN_VERIFICATION_KEY"@
        }),
        ({
            ||| algorithm == 'A' && class == "AES_128"@
            ||| algorithm == 'D' && class == "TDES_2KEY"@
            ||| algorithm == 'T' && class == "TDES_2KEY"@
            ||| algorithm == 'H' && class == "HMAC_SHA256"@
            ||| algorithm == 'R' && class == "RSA_2048"@
        }),
    ensures
        ({
            let t = KeyTable { labels, index: scan_index(keys) };
            let block = KeyBlockMeta { key_usage: code, algorithm, kcv: Some(kcv) };
            let r = t.resolved_field(KeyDescriptor { raw, block: Some(block) });
            let eligible = |i: int|
                0 <= i < keys.len() && keys[i].enabled && keys[i].attributes == Some((name, class))
                    && text::upper(keys[i].kcv) == text::upper(kcv);
            &&& r is Ok <==> exists|i: int| #[trigger] eligible(i)
            &&& r is Ok ==> exists|i: int| #[trigger] eligible(i) && keys[i].arn == r->Ok_0
            &&& forall|i: int| #[trigger]
                eligible(i) ==> !text::text_less(keys[i].arn, r->Ok_0)
            &&& r is Err ==> r->Err_0 is KeyNotFound
        }),
{
    usages_go_by_their_apc_names(code, name);
    let t = KeyTable { labels, index: scan_index(keys) };
    let block = KeyBlockMeta { key_usage: code, algorithm, kcv: Some(kcv) };
    let r = t.resolved_field(KeyDescriptor { raw, block: Some(block) });
    let id = KcvKey { key_usage: name, algorithm: class, kcv: text::upper(kcv) };
    assert(block_id(block, kcv) == id);
    let eligible = |i: int|
        0 <= i < keys.len() && keys[i].enabled && keys[i].attributes == Some((name, class))
            && text::upper(keys[i].kcv) == text::upper(kcv);
    scan_resolves_to_the_smallest_arn(keys, id);
    assert forall|i: int| #[trigger] eligible(i) implies answers_to(keys, i, id) by {}
    assert forall|i: int| #[trigger] answers_to(keys, i, id) implies eligible(i) by {}
    if r is Ok {
        let i = choose|i: int| answers_to(keys, i, id) && keys[i].arn == scan_index(keys)[id];
        assert(eligible(i) && keys[i].arn == r->Ok_0);
    }
}

/// An algorithm character that names no family has no class.
pub proof fn only_five_letters_name_a_family(algorithm: char)
    ensures
        apc_algorithm(algorithm) == ""@ <==> !(algorithm == 'A' || algorithm == 'D' || algorithm
            == 'T' || algorithm == 'H' || algorithm == 'R'),
{
    lemma_classes_differ();
}

proof fn lemma_classes_differ()
    ensures
        "AES_128"@ != "TDES_2KEY"@,
        "AES_128"@ != "HMAC_SHA256"@,
        "AES_128"@ != "RSA_2048"@,
        "TDES_2KEY"@ != "HMAC_SHA256"@,
        "TDES_2KEY"@ != "RSA_2048"@,
        "HMAC_SHA256"@ != "RSA_2048"@,
        ""@ != "AES_128"@,
        ""@ != "TDES_2KEY"@,
        ""@ != "HMAC_SHA256"@,
        ""@ != "RSA_2048"@,
{
    reveal_strlit("AES_128");
    reveal_strlit("TDES_2KEY");
    reveal_strlit("HMAC_SHA256");
    reveal_strlit("RSA_2048");
    reveal_strlit("");
    assert(""@.len() == 0);
    assert("AES_128"@[0] == 'A' && "TDES_2KEY"@[0] == 'T' && "HMAC_SHA256"@[0] == 'H'
        && "RSA_2048"@[0] == 'R');
}

/// The family that an algorithm character names: DES and TDES are one.
pub open spec fn family(algorithm: char) -> char {
    if algorithm == 'D' {
        'T'
    } else {
        algorithm
    }
}

/// Key blocks of different usages, families or check values never lead to one inventory
/// entry.
pub proof fn key_blocks_stay_apart(
    a: KeyBlockMeta<Seq<char>>,
    b: KeyBlockMeta<Seq<char>>,
    x: Seq<char>,
    y: Seq<char>,
)
    requires
        usage_suffix(a.key_usage) is Some,
        usage_suffix(b.key_usage) is Some,
        apc_algorithm(a.algorithm) != ""@,
        apc_algorithm(b.algorithm) != ""@,
        block_id(a, x) == block_id(b, y),
    ensures
        a.key_usage == b.key_usage,
        family(a.algorithm) == family(b.algorithm),
        text::upper(x) == text::upper(y),
{
    lemma_classes_differ();
    reveal_strlit("TR31_");
    reveal_strlit("_");
    reveal_strlit("B0");
    reveal_strlit("C0");
    reveal_strlit("D0");
    reveal_strlit("E0");
    reveal_strlit("E1");
    reveal_strlit("E2");
    reveal_strlit("E4");
    reveal_strlit("E5");
    reveal_strlit("E6");
    reveal_strlit("K0");
    reveal_strlit("K1");
    reveal_strlit("M1");
    reveal_strlit("M3");
    reveal_strlit("M6");
    reveal_strlit("M7");
    reveal_strlit("P0");
    reveal_strlit("V1");
    reveal_strlit("V2");
    assert("B0"@ =~= seq!['B', '0']);
    assert("C0"@ =~= seq!['C', '0']);
    assert("D0"@ =~= seq!['D', '0']);
    assert("E0"@ =~= seq!['E', '0']);
    assert("E1"@ =~= seq!['E', '1']);
    assert("E2"@ =~= seq!['E', '2']);
    assert("E4"@ =~= seq!['E', '4']);
    assert("E5"@ =~= seq!['E', '5']);
    assert("E6"@ =~= seq!['E', '6']);
    assert("K0"@ =~= seq!['K', '0']);
    assert("K1"@ =~= seq!['K', '1']);
    assert("M1"@ =~= seq!['M', '1']);
    assert("M3"@ =~= seq!['M', '3']);
    assert("M6"@ =~= seq!['M', '6']);
    assert("M7"@ =~= seq!['M', '7']);
    assert("P0"@ =~= seq!['P', '0']);
    assert("V1"@ =~= seq!['V', '1']);
    assert("V2"@ =~= seq!['V', '2']);
    let (u, v) = (apc_usage(a.key_usage), apc_usage(b.key_usage));
    assert(u.subrange(5, 7) =~= a.key_usage);
    assert(v.subrange(5, 7) =~= b.key_usage);
}

/// An ARN of the service or an alias stands for itself, and no other key reference does:
/// what has neither beginning resolves as the mappings say.
pub proof fn arns_and_aliases_need_no_mapping(t: KeyTable, id: Seq<char>, rest: Seq<char>)
    ensures
        id == "arn:aws:payment-cryptography"@ + rest ==> t.resolved(id) == Ok::<Seq<char>, Failure>(
            id,
        ),
        id == "alias/"@ + rest ==> t.resolved(id) == Ok::<Seq<char>, Failure>(id),
        !("arn:aws:payment-cryptography"@.is_prefix_of(id)) && !("alias/"@.is_prefix_of(id)) ==> (
        t.resolved(id) == if t.labels.contains_key(id) {
            Ok(t.labels[id])
        } else {
            Err(ProxyError::KeyNotFound(id))
        }),
{
    assert(("alias/"@ + rest).take("alias/"@.len() as int) =~= "alias/"@);
    assert(("arn:aws:payment-cryptography"@ + rest).take(
        "arn:aws:payment-cryptography"@.len() as int,
    ) =~= "arn:aws:payment-cryptography"@);
}

/// A label stands for what the last of its mappings says, and only labels that are mapped stand
/// for anything.
pub proof fn labels_go_by_their_last_mapping(pairs: Seq<(String, String)>, i: int)
    requires
        0 <= i < pairs.len(),
        forall|j: int| i < j < pairs.len() ==> (#[trigger] pairs[j]).0@ != pairs[i].0@,
    ensures
        label_table(pairs).contains_key(pairs[i].0@),
        label_table(pairs)[pairs[i].0@] == pairs[i].1@,
        forall|l: Seq<char>| #[trigger]
            label_table(pairs).contains_key(l) ==> exists|k: int|
                0 <= k < pairs.len() && (#[trigger] pairs[k]).0@ == l,
    decreases pairs.len(),
{
    lemma_labels_are_mapped(pairs);
    let front = pairs.drop_last();
    if i < front.len() {
        assert forall|j: int| i < j < front.len() implies (#[trigger] front[j]).0@
            != front[i].0@ by {
            assert(front[j] == pairs[j]);
        }
        labels_go_by_their_last_mapping(front, i);
        assert(pairs[pairs.len() - 1].0@ != pairs[i].0@);
    }
}

proof fn lemma_labels_are_mapped(pairs: Seq<(String, String)>)
    ensures
        forall|l: Seq<char>| #[trigger]
            label_table(pairs).contains_key(l) ==> exists|k: int|
                0 <= k < pairs.len() && (#[trigger] pairs[k]).0@ == l,
    decreases pairs.len(),
{
    if pairs.len() > 0 {
        let front = pairs.drop_last();
        lemma_labels_are_mapped(front);
        assert forall|l: Seq<char>| #[trigger] label_table(pairs).contains_key(l) implies exists|
            k: int,
        |
            0 <= k < pairs.len() && (#[trigger] pairs[k]).0@ == l by {
            if l == pairs.last().0@ {
                assert(pairs[pairs.len() - 1].0@ == l);
            } else {
                assert(label_table(front).contains_key(l));
                let k = choose|k: int| 0 <= k < front.len() && (#[trigger] front[k]).0@ == l;
                assert(pairs[k].0@ == l);
            }
        }
    }
}

/// A key block without a check value goes by the mappings, as its text does.
pub proof fn blocks_without_a_check_value_go_by_the_mappings(t: KeyTable, desc: KeyField)
    requires
        desc.block is Some,
        desc.block->0.kcv is None,
    ensures
        t.resolved(desc.raw) is Ok ==> t.resolved_field(desc) == t.resolved(desc.raw),
        t.resolved(desc.raw) is Err
            ==> t.resolved_field(desc) matches Err(ProxyError::KeyNotFound(_)),
{
}

/// The keys that a scan passes over as disabled are those that have attributes and are not
/// enabled, each counted once.
pub proof fn disabled_keys_are_counted_once(keys: Seq<ApcKey<Seq<char>>>)
    ensures
        disabled_count(keys) == keys.filter(
            |k: ApcKey<Seq<char>>| k.attributes is Some && !k.enabled,
        ).len(),
    decreases keys.len(),
{
    reveal(Seq::filter);
    if keys.len() > 0 {
        disabled_keys_are_counted_once(keys.drop_last());
    }
}

/// What contracts say of an inventory key holds of the key itself: its usage comes first among its
/// attributes, and its algorithm second.
pub proof fn inventory_keys_are_seen_as_they_are(k: ApcKey)
    ensures
        k@.arn == k.arn@,
        k@.kcv == k.kcv@,
        k@.enabled == k.enabled,
        k.attributes is None <==> k@.attributes is None,
        k.attributes matches Some((usage, algorithm)) ==> k@.attributes == Some(
            (usage@, algorithm@),
        ),
        k@.attributes is Some ==> k@.id().key_usage == (k@.attributes->0).0
            && k@.id().algorithm == (
        k@.attributes->0).1,
{
}

/// A usage that APC does not know has no name, so that a key block of that usage is found under
/// none of the usages that APC knows.
pub proof fn other_usages_have_no_name(code: Seq<char>)
    requires
        code != "B0"@ && code != "C0"@ && code != "D0"@ && code != "E0"@ && code != "E1"@
            && code != "E2"@ && code != "E4"@ && code != "E5"@ && code != "E6"@ && code != "K0"@
            && code != "K1"@ && code != "M1"@ && code != "M3"@ && code != "M6"@ && code != "M7"@
            && code != "P0"@ && code != "V1"@ && code != "V2"@,
    ensures
        apc_usage(code) == ""@,
{
}

} // verus!
