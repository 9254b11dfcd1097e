//! Opt-in consent for sensor categories. Every grant or revocation is recorded with a
//! signature over the category, the decision and its time.

use vstd::prelude::*;
use vstd::string::StringExecFns;
use vstd::string::StringSliceAdditionalSpecFns;
use crate::encoding::{lemma_hex_lower_len, hex_encode, hex_lower, sha256, sha256_digest};
use crate::text::str_eq;

verus! {

/// The categories that count as consented until the user decides otherwise.
pub const DEFAULT_ON: [&'static str; 4] = [
    "system-metrics",
    "network-stats",
    "csi-sensing",
    "geo-satellite",
];

/// The categories that need an explicit grant.
pub const OPT_IN: [&'static str; 6] = [
    "camera-depth",
    "camera-objects",
    "audio-ambient",
    "bluetooth-proximity",
    "radar-vitals",
    "household-patterns",
];

/// The category is one of the default-on categories.
pub open spec fn is_default_on(category: Seq<char>) -> bool {
    exists|i: int| 0 <= i < 4 && DEFAULT_ON@[i]@ == category
}

/// Whether the category is one of the default-on categories.
pub fn default_on(category: &str) -> (r: bool)
    ensures
        r == is_default_on(category@),
{
    let mut i: usize = 0;
    while i < 4
        invariant
            i <= 4,
            forall|k: int| 0 <= k < i ==> DEFAULT_ON@[k]@ != category@,
        decreases 4 - i,
    {
        if str_eq(DEFAULT_ON[i], category) {
            return true;
        }
        i = i + 1;
    }
    false
}

/// One recorded decision: granted or revoked, when, and its signature.
#[derive(Debug)]
pub struct ConsentRecord {
    pub granted: bool,
    pub at: String,
    pub sig: String,
}

impl ConsentRecord {
    /// An identical record.
    pub fn duplicate(&self) -> (r: ConsentRecord)
        ensures
            r == *self,
    {
        ConsentRecord { granted: self.granted, at: self.at.clone(), sig: self.sig.clone() }
    }
}

/// The decision recorded for one category.
#[derive(Debug)]
pub struct ConsentEntry {
    pub category: String,
    pub record: ConsentRecord,
}

/// All recorded decisions of a node, at most one per category.
#[derive(Debug)]
pub struct ConsentStore {
    pub version: u32,
    pub node_id: String,
    pub consents: Vec<ConsentEntry>,
}

/// No category is recorded twice.
pub open spec fn distinct_categories(es: Seq<ConsentEntry>) -> bool {
    forall|i: int, j: int|
        0 <= i < es.len() && 0 <= j < es.len() && i != j ==> #[trigger] es[i].category@
            != #[trigger] es[j].category@
}

/// The record for `category`, if any.
pub open spec fn lookup(es: Seq<ConsentEntry>, category: Seq<char>) -> Option<ConsentRecord>
    decreases es.len(),
{
    if es.len() == 0 {
        None
    } else if es.last().category@ == category {
        Some(es.last().record)
    } else {
        lookup(es.drop_last(), category)
    }
}

/// Whether a category is consented: its recorded decision, else whether it is on by
/// default.
pub open spec fn consented(es: Seq<ConsentEntry>, category: Seq<char>) -> bool {
    match lookup(es, category) {
        Some(r) => r.granted,
        None => is_default_on(category),
    }
}

/// The text that a decision's signature covers: `category:true|false:timestamp`.
pub open spec fn consent_message(category: Seq<char>, granted: bool, at: Seq<char>) -> Seq<char> {
    category + ":"@ + (if granted {
        "true"@
    } else {
        "false"@
    }) + ":"@ + at
}

/// The signature of a decision: the lower-case hex SHA-256 of the UTF-8 message.
pub open spec fn consent_signature(category: Seq<char>, granted: bool, at: Seq<char>) -> Seq<char> {
    hex_lower(sha256(vstd::utf8::encode_utf8(consent_message(category, granted, at))))
}

proof fn lemma_lookup_index(es: Seq<ConsentEntry>, category: Seq<char>)
    requires
        distinct_categories(es),
    ensures
        lookup(es, category) matches Some(r) ==> exists|k: int| 0 <= k < es.len() && es[k].category@ == category && es[k].record == r,
        lookup(es, category) is None ==> forall|k: int| 0 <= k < es.len() ==> es[k].category@ != category,
    decreases es.len(),
{
    if es.len() > 0 {
        let rest = es.drop_last();
        assert(distinct_categories(rest)) by {
            assert forall|i: int, j: int|
                0 <= i < rest.len() && 0 <= j < rest.len() && i != j implies #[trigger] rest[i].category@
                != #[trigger] rest[j].category@ by {
                assert(rest[i] == es[i] && rest[j] == es[j]);
            }
        }
        lemma_lookup_index(rest, category);
        if es.last().category@ == category {
            assert(es[es.len() - 1].category@ == category);
        } else {
            if lookup(rest, category) is Some {
                let k = choose|k: int| 0 <= k < rest.len() && rest[k].category@ == category && rest[k].record == lookup(rest, category)->0;
                assert(es[k] == rest[k]);
            } else {
                assert forall|k: int| 0 <= k < es.len() implies es[k].category@ != category by {
                    if k < es.len() - 1 {
                        assert(es[k] == rest[k]);
                    }
                }
            }
        }
    }
}

proof fn lemma_lookup_at(es: Seq<ConsentEntry>, k: int)
    requires
        distinct_categories(es),
        0 <= k < es.len(),
    ensures
        lookup(es, es[k].category@) == Some(es[k].record),
    decreases es.len(),
{
    let rest = es.drop_last();
    if k < es.len() - 1 {
        assert(es.last().category@ != es[k].category@);
        assert(distinct_categories(rest)) by {
            assert forall|i: int, j: int|
                0 <= i < rest.len() && 0 <= j < rest.len() && i != j implies #[trigger] rest[i].category@
                != #[trigger] rest[j].category@ by {
                assert(rest[i] == es[i] && rest[j] == es[j]);
            }
        }
        assert(rest[k] == es[k]);
        lemma_lookup_at(rest, k);
    }
}

proof fn lemma_lookup_update(es: Seq<ConsentEntry>, k: int, e: ConsentEntry, category: Seq<char>)
    requires
        distinct_categories(es),
        0 <= k < es.len(),
        e.category@ == es[k].category@,
    ensures
        distinct_categories(es.update(k, e)),
        lookup(es.update(k, e), category) == if category == e.category@ {
            Some(e.record)
        } else {
            lookup(es, category)
        },
    decreases es.len(),
{
    let es2 = es.update(k, e);
    assert(distinct_categories(es2)) by {
        assert forall|i: int, j: int|
            0 <= i < es2.len() && 0 <= j < es2.len() && i != j implies #[trigger] es2[i].category@
            != #[trigger] es2[j].category@ by {
            assert(es2[i].category@ == es[i].category@);
            assert(es2[j].category@ == es[j].category@);
        }
    }
    if category == e.category@ {
        lemma_lookup_at(es2, k);
    } else {
        lemma_lookup_index(es, category);
        lemma_lookup_index(es2, category);
        if lookup(es, category) is Some {
            let j = choose|j: int| 0 <= j < es.len() && es[j].category@ == category && es[j].record == lookup(es, category)->0;
            assert(j != k);
            assert(es2[j] == es[j]);
            lemma_lookup_at(es2, j);
        } else {
            if lookup(es2, category) is Some {
                let j = choose|j: int| 0 <= j < es2.len() && es2[j].category@ == category && es2[j].record == lookup(es2, category)->0;
                assert(j != k);
                assert(es2[j] == es[j]);
            }
        }
    }
}

proof fn lemma_lookup_push(es: Seq<ConsentEntry>, e: ConsentEntry, category: Seq<char>)
    requires
        distinct_categories(es),
        lookup(es, e.category@) is None,
    ensures
        distinct_categories(es.push(e)),
        lookup(es.push(e), category) == if category == e.category@ {
            Some(e.record)
        } else {
            lookup(es, category)
        },
{
    lemma_lookup_index(es, e.category@);
    let es2 = es.push(e);
    assert(es2.drop_last() =~= es);
    assert(distinct_categories(es2)) by {
        assert forall|i: int, j: int|
            0 <= i < es2.len() && 0 <= j < es2.len() && i != j implies #[trigger] es2[i].category@
            != #[trigger] es2[j].category@ by {
            if i < es.len() && j < es.len() {
                assert(es2[i] == es[i] && es2[j] == es[j]);
            } else if i < es.len() {
                assert(es2[i] == es[i]);
            } else {
                assert(es2[j] == es[j]);
            }
        }
    }
}

impl ConsentStore {
    /// The store's invariant: no category is recorded twice.
    pub open spec fn wf(&self) -> bool {
        distinct_categories(self.consents@)
    }

    /// The index of the entry for `category`, if any.
    fn position(&self, category: &str) -> (r: Option<usize>)
        requires
            self.wf(),
        ensures
            match r {
                Some(k) => k < self.consents@.len() && self.consents@[k as int].category@ == category@,
                None => lookup(self.consents@, category@) is None,
            },
    {
        let mut i: usize = 0;
        while i < self.consents.len()
            invariant
                i <= self.consents@.len(),
                self.wf(),
                forall|k: int| 0 <= k < i ==> self.consents@[k].category@ != category@,
            decreases self.consents@.len() - i,
        {
            if str_eq(self.consents[i].category.as_str(), category) {
                return Some(i);
            }
            i = i + 1;
        }
        proof {
            lemma_lookup_index(self.consents@, category@);
        }
        None
    }

    /// The record for `category`, if any.
    pub fn get(&self, category: &str) -> (r: Option<&ConsentRecord>)
        requires
            self.wf(),
        ensures
            match r {
                Some(rec) => lookup(self.consents@, category@) == Some(*rec),
                None => lookup(self.consents@, category@) is None,
            },
    {
        match self.position(category) {
            Some(k) => {
                proof {
                    lemma_lookup_at(self.consents@, k as int);
                }
                Some(&self.consents[k].record)
            },
            None => None,
        }
    }

    /// Records `record` for `category`, replacing an earlier decision for it.
    pub fn insert(&mut self, category: String, record: ConsentRecord)
        requires
            old(self).wf(),
        ensures
            final(self).wf(),
            final(self).version == old(self).version,
            final(self).node_id == old(self).node_id,
            forall|c: Seq<char>|
                #[trigger] lookup(final(self).consents@, c) == if c == category@ {
                    Some(record)
                } else {
                    lookup(old(self).consents@, c)
                },
    {
        let ghost old_es = self.consents@;
        let ghost cat = category@;
        let ghost rec = record;
        match self.position(category.as_str()) {
            Some(k) => {
                let e = ConsentEntry { category, record };
                let ghost ev = e;
                self.consents.set(k, e);
                proof {
                    assert(self.consents@ == old_es.update(k as int, ev));
                    assert forall|c: Seq<char>|
                        #[trigger] lookup(self.consents@, c) == if c == cat {
                            Some(rec)
                        } else {
                            lookup(old_es, c)
                        } by {
                        lemma_lookup_update(old_es, k as int, ev, c);
                    }
                    lemma_lookup_update(old_es, k as int, ev, cat);
                }
            },
            None => {
                let e = ConsentEntry { category, record };
                let ghost ev = e;
                self.consents.push(e);
                proof {
                    assert(self.consents@ == old_es.push(ev));
                    assert forall|c: Seq<char>|
                        #[trigger] lookup(self.consents@, c) == if c == cat {
                            Some(rec)
                        } else {
                            lookup(old_es, c)
                        } by {
                        lemma_lookup_push(old_es, ev, c);
                    }
                    lemma_lookup_push(old_es, ev, cat);
                }
            },
        }
    }
}

/// Signs a decision for `category` taken at `at` (RFC 3339 text); the signature is the
/// 64 lower-case hexadecimal digits of a SHA-256 digest.
pub fn sign_consent(category: &str, granted: bool, at: &str) -> (r: ConsentRecord)
    ensures
        r.granted == granted,
        r.at@ == at@,
        r.sig@ == consent_signature(category@, granted, at@),
        r.sig@.len() == 64,
{
    let mut msg = String::from_str(category);
    msg.append(":");
    if granted {
        msg.append("true");
    } else {
        msg.append("false");
    }
    msg.append(":");
    msg.append(at);
    let digest = sha256_digest(msg.as_str().as_bytes());
    let sig = hex_encode(digest.as_slice());
    proof {
        lemma_hex_lower_len(digest@);
    }
    ConsentRecord { granted, at: String::from_str(at), sig }
}

/// Whether `category` is consented in `store`: its recorded decision, else whether it is
/// on by default.
pub fn is_consented(store: &ConsentStore, category: &str) -> (r: bool)
    requires
        store.wf(),
    ensures
        r == consented(store.consents@, category@),
{
    match store.get(category) {
        Some(rec) => rec.granted,
        None => default_on(category),
    }
}

proof fn lemma_defaults_distinct(a: int, b: int)
    requires
        0 <= a < 4,
        0 <= b < 4,
        a != b,
    ensures
        DEFAULT_ON@[a]@ != DEFAULT_ON@[b]@,
{
    reveal_strlit("system-metrics");
    reveal_strlit("network-stats");
    reveal_strlit("csi-sensing");
    reveal_strlit("geo-satellite");
    assert(DEFAULT_ON@[a]@[0] != DEFAULT_ON@[b]@[0]);
}

/// `category` is recorded as granted at `at`, with the signature of that decision.
pub open spec fn granted_at(es: Seq<ConsentEntry>, category: Seq<char>, at: Seq<char>) -> bool {
    match lookup(es, category) {
        Some(rec) => rec.granted && rec.at@ == at && rec.sig@ == consent_signature(category, true, at),
        None => false,
    }
}

/// The store of a node that has decided nothing yet: version 1, with each default-on
/// category granted at the corresponding time of `stamps`.
pub fn default_store(node_id: String, stamps: &[String]) -> (r: ConsentStore)
    requires
        stamps@.len() == 4,
    ensures
        r.wf(),
        r.version == 1,
        r.node_id == node_id,
        forall|i: int|
            0 <= i < 4 ==> granted_at(r.consents@, DEFAULT_ON@[i]@, #[trigger] stamps@[i]@),
        forall|c: Seq<char>| !is_default_on(c) ==> #[trigger] lookup(r.consents@, c) is None,
{
    let mut store = ConsentStore { version: 1, node_id, consents: Vec::new() };
    let mut i: usize = 0;
    while i < 4
        invariant
            i <= 4,
            stamps@.len() == 4,
            store.wf(),
            store.version == 1,
            store.node_id == node_id,
            forall|k: int|
                0 <= k < i ==> granted_at(store.consents@, DEFAULT_ON@[k]@, #[trigger] stamps@[k]@),
            forall|c: Seq<char>|
                !(exists|k: int| 0 <= k < i && DEFAULT_ON@[k]@ == c) ==> #[trigger] lookup(store.consents@, c) is None,
        decreases 4 - i,
    {
        let rec = sign_consent(DEFAULT_ON[i], true, stamps[i].as_str());
        let ghost before = store.consents@;
        store.insert(String::from_str(DEFAULT_ON[i]), rec);
        proof {
            assert forall|k: int|
                0 <= k < i + 1 implies granted_at(store.consents@, DEFAULT_ON@[k]@, #[trigger] stamps@[k]@) by {
                if k < i {
                    lemma_defaults_distinct(k, i as int);
                }
            }
        }
        i = i + 1;
    }
    store
}

/// Records a grant of `category` at `at` and returns the signed record.
pub fn grant(store: &mut ConsentStore, category: &str, at: &str) -> (r: ConsentRecord)
    requires
        old(store).wf(),
    ensures
        final(store).wf(),
        r.granted,
        r.at@ == at@,
        r.sig@ == consent_signature(category@, true, at@),
        final(store).version == old(store).version,
        final(store).node_id == old(store).node_id,
        forall|c: Seq<char>|
            #[trigger] lookup(final(store).consents@, c) == if c == category@ {
                Some(r)
            } else {
                lookup(old(store).consents@, c)
            },
{
    let rec = sign_consent(category, true, at);
    let out = rec.duplicate();
    store.insert(String::from_str(category), rec);
    out
}

/// Records a revocation of `category` at `at` and returns the signed record.
pub fn revoke(store: &mut ConsentStore, category: &str, at: &str) -> (r: ConsentRecord)
    requires
        old(store).wf(),
    ensures
        final(store).wf(),
        !r.granted,
        r.at@ == at@,
        r.sig@ == consent_signature(category@, false, at@),
        final(store).version == old(store).version,
        final(store).node_id == old(store).node_id,
        forall|c: Seq<char>|
            #[trigger] lookup(final(store).consents@, c) == if c == category@ {
                Some(r)
            } else {
                lookup(old(store).consents@, c)
            },
{
    let rec = sign_consent(category, false, at);
    let out = rec.duplicate();
    store.insert(String::from_str(category), rec);
    out
}

/// How a category stands.
#[derive(Clone, Copy, PartialEq, Eq, Debug, Structural)]
pub enum ConsentStatus {
    Granted,
    Revoked,
    DefaultOn,
    NotSet,
}

/// How a category stands in a store.
pub open spec fn status_in(es: Seq<ConsentEntry>, category: Seq<char>) -> ConsentStatus {
    match lookup(es, category) {
        Some(r) => if r.granted {
            ConsentStatus::Granted
        } else {
            ConsentStatus::Revoked
        },
        None => if is_default_on(category) {
            ConsentStatus::DefaultOn
        } else {
            ConsentStatus::NotSet
        },
    }
}

/// How `category` stands in `store`.
pub fn consent_status(store: &ConsentStore, category: &str) -> (r: ConsentStatus)
    requires
        store.wf(),
    ensures
        r == status_in(store.consents@, category@),
{
    match store.get(category) {
        Some(rec) => if rec.granted {
            ConsentStatus::Granted
        } else {
            ConsentStatus::Revoked
        },
        None => if default_on(category) {
            ConsentStatus::DefaultOn
        } else {
            ConsentStatus::NotSet
        },
    }
}

impl ConsentStatus {
    /// The label that the status listing shows.
    pub fn label(&self) -> (r: &'static str)
        ensures
            r@ == match *self {
                ConsentStatus::Granted => "GRANTED"@,
                ConsentStatus::Revoked => "REVOKED"@,
                ConsentStatus::DefaultOn => "DEFAULT ON"@,
                ConsentStatus::NotSet => "NOT SET"@,
            },
    {
        match self {
            ConsentStatus::Granted => "GRANTED",
            ConsentStatus::Revoked => "REVOKED",
            ConsentStatus::DefaultOn => "DEFAULT ON",
            ConsentStatus::NotSet => "NOT SET",
        }
    }

    /// Whether the listing marks the category as active (a filled dot).
    pub fn is_active(&self) -> (r: bool)
        ensures
            r == (*self == ConsentStatus::Granted || *self == ConsentStatus::DefaultOn),
    {
        match self {
            ConsentStatus::Granted => true,
            ConsentStatus::DefaultOn => true,
            _ => false,
        }
    }
}

/// A status and the consent it gives agree: a category is consented exactly when its
/// status is granted or on by default.
pub proof fn lemma_status_matches_consent(es: Seq<ConsentEntry>, category: Seq<char>)
    ensures
        consented(es, category) <==> (status_in(es, category) == ConsentStatus::Granted
            || status_in(es, category) == ConsentStatus::DefaultOn),
{
}

/// Read after write: once a category is granted it is consented, once revoked it is not,
/// and the decision for any other category is untouched.
pub proof fn lemma_decision_read_back(old_es: Seq<ConsentEntry>, new_es: Seq<ConsentEntry>, category: Seq<char>, rec: ConsentRecord, other: Seq<char>)
    requires
        forall|c: Seq<char>|
            #[trigger] lookup(new_es, c) == if c == category {
                Some(rec)
            } else {
                lookup(old_es, c)
            },
    ensures
        consented(new_es, category) == rec.granted,
        other != category ==> consented(new_es, other) == consented(old_es, other),
        other != category ==> status_in(new_es, other) == status_in(old_es, other),
{
    assert(lookup(new_es, category) == Some(rec));
    assert(lookup(new_es, other) == if other == category {
        Some(rec)
    } else {
        lookup(old_es, other)
    });
}

/// A category that was never decided is consented exactly when it is on by default.
pub proof fn lemma_undecided_is_default(es: Seq<ConsentEntry>, category: Seq<char>)
    requires
        lookup(es, category) is None,
    ensures
        consented(es, category) == is_default_on(category),
{
}

} // verus!
