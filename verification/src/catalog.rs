//! The immutable instruction catalog: a mapping from an uppercase-normalized
//! primary alias to the ordered list of instruction records carrying that
//! alias, built once from the startup instruction data.

use vstd::prelude::*;
use crate::text::upper_of;

verus! {

/// One operand form of an instruction, with its documentation lines.
#[derive(Debug)]
pub struct InstructionRecord {
    /// Identifier of the record in the instruction data.
    pub id: String,
    /// Name aliases; the first one is the primary alias the catalog is keyed by.
    pub names: Vec<String>,
    /// Lines describing the operation performed.
    pub operation: Vec<String>,
    /// Lines describing how symbols are used.
    pub symbols: Vec<String>,
    /// Summary lines.
    pub summary: Vec<String>,
}

/// One catalog bucket: an uppercase-normalized key with the records filed
/// under it, in insertion order.
pub struct CatalogEntry {
    pub key: String,
    pub records: Vec<InstructionRecord>,
}

/// Mapping from normalized primary alias to the ordered list of records.
pub struct InstructionCatalog {
    pub entries: Vec<CatalogEntry>,
}

/// The key a record is filed under: its first alias folded to uppercase.
pub open spec fn record_key(r: InstructionRecord) -> Seq<char> {
    upper_of(r.names@[0]@)
}

/// What a catalog built from `records` holds under key `k`: the records
/// whose normalized primary alias is `k`, in their original order; `None`
/// when there are no such records.
pub open spec fn spec_catalog_lookup(
    records: Seq<InstructionRecord>,
    k: Seq<char>,
) -> Option<Seq<InstructionRecord>> {
    let sel = records.filter(|r: InstructionRecord| record_key(r) == k);
    if sel.len() == 0 {
        None
    } else {
        Some(sel)
    }
}

/// Keys of distinct entries differ: each key owns exactly one bucket.
pub open spec fn entries_wf(entries: Seq<CatalogEntry>) -> bool {
    forall|i: int, j: int| 0 <= i < j < entries.len() ==> entries[i].key@ != entries[j].key@
}

/// First-match lookup among the entries, starting at index `i`.
pub open spec fn lookup_from(entries: Seq<CatalogEntry>, k: Seq<char>, i: int) -> Option<
    Seq<InstructionRecord>,
>
    decreases entries.len() - i,
{
    if i < 0 || i >= entries.len() {
        None
    } else if entries[i].key@ == k {
        Some(entries[i].records@)
    } else {
        lookup_from(entries, k, i + 1)
    }
}

impl InstructionCatalog {
    /// Keys of distinct entries differ.
    pub open spec fn wf(self) -> bool {
        entries_wf(self.entries@)
    }

    /// The list of records the catalog holds under key `k`, if any.
    pub open spec fn spec_lookup(self, k: Seq<char>) -> Option<Seq<InstructionRecord>> {
        lookup_from(self.entries@, k, 0)
    }
}

/// Appending an entry leaves every present key's lookup unchanged and serves
/// the new entry's key only where it was absent.
proof fn lemma_lookup_from_push(entries: Seq<CatalogEntry>, e: CatalogEntry, k: Seq<char>, i: int)
    requires
        0 <= i <= entries.len(),
    ensures
        lookup_from(entries.push(e), k, i) == (match lookup_from(entries, k, i) {
            Some(v) => Some(v),
            None => if e.key@ == k {
                Some(e.records@)
            } else {
                None
            },
        }),
    decreases entries.len() - i,
{
    let pushed = entries.push(e);
    if i == entries.len() {
        assert(pushed[i] == e);
    } else {
        assert(pushed[i] == entries[i]);
        lemma_lookup_from_push(entries, e, k, i + 1);
    }
}

/// Replacing the sole entry holding a key changes lookup for that key alone.
proof fn lemma_lookup_from_update(
    entries: Seq<CatalogEntry>,
    idx: int,
    e: CatalogEntry,
    k: Seq<char>,
    i: int,
)
    requires
        entries_wf(entries),
        0 <= i <= idx < entries.len(),
        e.key@ == entries[idx].key@,
    ensures
        lookup_from(entries.update(idx, e), k, i) == (if e.key@ == k {
            Some(e.records@)
        } else {
            lookup_from(entries, k, i)
        }),
    decreases idx - i,
{
    let updated = entries.update(idx, e);
    if i == idx {
        if e.key@ != k {
            lemma_lookup_from_agree(entries, updated, k, i + 1);
        }
    } else {
        assert(updated[i] == entries[i]);
        if entries[i].key@ == k {
            assert(entries[i].key@ != entries[idx].key@);
        } else {
            lemma_lookup_from_update(entries, idx, e, k, i + 1);
        }
    }
}

/// Lookup from `i` only reads entries at or after `i`.
proof fn lemma_lookup_from_agree(a: Seq<CatalogEntry>, b: Seq<CatalogEntry>, k: Seq<char>, i: int)
    requires
        a.len() == b.len(),
        forall|j: int| i <= j < a.len() ==> a[j] == b[j],
    ensures
        lookup_from(a, k, i) == lookup_from(b, k, i),
    decreases a.len() - i,
{
    if 0 <= i < a.len() {
        lemma_lookup_from_agree(a, b, k, i + 1);
    }
}

/// Lookup from `i` skips over non-matching entries up to a match.
proof fn lemma_lookup_from_skip(entries: Seq<CatalogEntry>, k: Seq<char>, i: int, m: int)
    requires
        0 <= i <= m < entries.len(),
        entries[m].key@ == k,
        forall|j: int| i <= j < m ==> entries[j].key@ != k,
    ensures
        lookup_from(entries, k, i) == Some(entries[m].records@),
    decreases m - i,
{
    if i < m {
        lemma_lookup_from_skip(entries, k, i + 1, m);
    }
}

/// Without a matching entry the lookup is empty.
proof fn lemma_lookup_no_match(entries: Seq<CatalogEntry>, k: Seq<char>, i: int)
    requires
        0 <= i,
        forall|j: int| i <= j < entries.len() ==> entries[j].key@ != k,
    ensures
        lookup_from(entries, k, i) is None,
    decreases entries.len() - i,
{
    if i < entries.len() {
        lemma_lookup_no_match(entries, k, i + 1);
    }
}

/// Index of the entry carrying `key`, if one exists.
fn find_entry(entries: &Vec<CatalogEntry>, key: &str) -> (r: Option<usize>)
    ensures
        match r {
            Some(i) => i < entries@.len() && entries@[i as int].key@ == key@ && (forall|j: int|
                0 <= j < i ==> entries@[j].key@ != key@),
            None => forall|j: int| 0 <= j < entries@.len() ==> entries@[j].key@ != key@,
        },
{
    let mut i: usize = 0;
    while i < entries.len()
        invariant
            i <= entries@.len(),
            forall|j: int| 0 <= j < i ==> entries@[j].key@ != key@,
        decreases entries@.len() - i,
    {
        if crate::text::eq_str(entries[i].key.as_str(), key) {
            return Some(i);
        }
        i = i + 1;
    }
    None
}

impl InstructionCatalog {
    /// Build the catalog: file each record under its uppercase-normalized
    /// first alias, appending to the bucket when the key is already present.
    ///
    /// Afterwards the catalog holds, under each key, exactly the records
    /// whose normalized primary alias is that key, in input order.
    pub fn build(records: Vec<InstructionRecord>) -> (r: InstructionCatalog)
        requires
            forall|i: int| 0 <= i < records@.len() ==> records@[i].names@.len() >= 1,
        ensures
            r.wf(),
            forall|k: Seq<char>| #[trigger] r.spec_lookup(k) == spec_catalog_lookup(records@, k),
    {
        let ghost orig: Seq<InstructionRecord> = records@;
        let mut rest = records;
        let mut entries: Vec<CatalogEntry> = Vec::new();
        let ghost mut done: Seq<InstructionRecord> = Seq::empty();

        proof {
            assert(orig =~= done + rest@);
            assert forall|k: Seq<char>| #[trigger] lookup_from(entries@, k, 0)
                == spec_catalog_lookup(done, k) by {
                reveal(Seq::filter);
                assert(done.filter(|r: InstructionRecord| record_key(r) == k).len() == 0);
            }
        }
        while rest.len() > 0
            invariant
                orig == done + rest@,
                forall|j: int| 0 <= j < rest@.len() ==> rest@[j].names@.len() >= 1,
                entries_wf(entries@),
                forall|k: Seq<char>| #[trigger] lookup_from(entries@, k, 0) == spec_catalog_lookup(
                    done,
                    k,
                ),
            decreases rest@.len(),
        {
            assert(rest@[0].names@.len() >= 1);
            let rec = rest.remove(0);
            let ghost grec = rec;
            let ghost pre_entries = entries@;
            let key: String = crate::text::to_upper(rec.names[0].as_str());
            assert(key@ == record_key(grec));
            match find_entry(&entries, key.as_str()) {
                Some(idx) => {
                    let mut e = entries.remove(idx);
                    e.records.push(rec);
                    entries.insert(idx, e);
                    proof {
                        let e2 = entries@[idx as int];
                        assert(e2.key@ == pre_entries[idx as int].key@);
                        assert(e2.records@ == pre_entries[idx as int].records@.push(grec));
                        assert(entries@ =~= pre_entries.update(idx as int, e2));
                        lemma_lookup_from_skip(pre_entries, key@, 0, idx as int);
                        assert forall|k: Seq<char>| #[trigger] lookup_from(entries@, k, 0)
                            == spec_catalog_lookup(done.push(grec), k) by {
                            lemma_lookup_from_update(pre_entries, idx as int, e2, k, 0);
                            lemma_catalog_lookup_push(done, grec, k);
                            if record_key(grec) == k {
                                let pred = |r: InstructionRecord| record_key(r) == k;
                                assert(lookup_from(pre_entries, k, 0) == Some(
                                    pre_entries[idx as int].records@,
                                ));
                                assert(done.filter(pred) == pre_entries[idx as int].records@);
                            }
                        }
                    }
                },
                None => {
                    let mut bucket: Vec<InstructionRecord> = Vec::new();
                    bucket.push(rec);
                    let e = CatalogEntry { key, records: bucket };
                    let ghost ge = e;
                    entries.push(e);
                    proof {
                        assert(entries@ =~= pre_entries.push(ge));
                        assert forall|k: Seq<char>| #[trigger] lookup_from(entries@, k, 0)
                            == spec_catalog_lookup(done.push(grec), k) by {
                            lemma_lookup_from_push(pre_entries, ge, k, 0);
                            lemma_catalog_lookup_push(done, grec, k);
                            if record_key(grec) == k {
                                let pred = |r: InstructionRecord| record_key(r) == k;
                                lemma_lookup_no_match(pre_entries, k, 0);
                                assert(lookup_from(pre_entries, k, 0) is None);
                                assert(done.filter(pred).len() == 0);
                                assert(done.filter(pred).push(grec) =~= ge.records@);
                            }
                        }
                    }
                },
            }
            proof {
                done = done.push(grec);
            }
        }
        proof {
            assert(done =~= orig);
        }
        InstructionCatalog { entries }
    }

    /// The records filed under the exact key `key`, if any.
    pub fn lookup(&self, key: &str) -> (r: Option<&Vec<InstructionRecord>>)
        ensures
            match r {
                Some(v) => self.spec_lookup(key@) == Some(v@),
                None => self.spec_lookup(key@) is None,
            },
    {
        match find_entry(&self.entries, key) {
            Some(i) => {
                proof {
                    lemma_lookup_from_skip(self.entries@, key@, 0, i as int);
                }
                Some(&self.entries[i].records)
            },
            None => {
                proof {
                    lemma_lookup_no_match(self.entries@, key@, 0);
                }
                None
            },
        }
    }
}

/// One more record extends exactly its own key's bucket.
proof fn lemma_catalog_lookup_push(done: Seq<InstructionRecord>, rec: InstructionRecord, k: Seq<char>)
    ensures
        spec_catalog_lookup(done.push(rec), k) == (if record_key(rec) == k {
            match spec_catalog_lookup(done, k) {
                Some(v) => Some(v.push(rec)),
                None => Some(seq![rec]),
            }
        } else {
            spec_catalog_lookup(done, k)
        }),
{
    reveal(Seq::filter);
    let pred = |r: InstructionRecord| record_key(r) == k;
    let sel = done.filter(pred);
    assert(done.push(rec).drop_last() =~= done);
    assert(done.push(rec).drop_last() == done);
    assert(done.push(rec).last() == rec);
    assert(done.push(rec).len() != 0);
    assert(done.push(rec).filter(pred) == (if pred(rec) {
        sel.push(rec)
    } else {
        sel
    }));
    if pred(rec) {
        assert(sel.push(rec).len() > 0);
        if sel.len() == 0 {
            assert(sel.push(rec) =~= seq![rec]);
        }
    }
}

/// Documentation lookup by an already-normalized mnemonic, as the original
/// exact-match query: returns the bucket of records, or nothing when the
/// name is not a known mnemonic.
pub fn get_instructions<'a>(
    instructions_map: &'a InstructionCatalog,
    instruction_name: &str,
) -> (r: Option<&'a Vec<InstructionRecord>>)
    ensures
        match r {
            Some(v) => instructions_map.spec_lookup(instruction_name@) == Some(v@),
            None => instructions_map.spec_lookup(instruction_name@) is None,
        },
{
    instructions_map.lookup(instruction_name)
}

/// Case-insensitive lookup: fold the query to uppercase, then query exactly.
pub fn lookup_mnemonic<'a>(
    instructions_map: &'a InstructionCatalog,
    token: &str,
) -> (r: Option<&'a Vec<InstructionRecord>>)
    ensures
        match r {
            Some(v) => instructions_map.spec_lookup(upper_of(token@)) == Some(v@),
            None => instructions_map.spec_lookup(upper_of(token@)) is None,
        },
{
    let key: String = crate::text::to_upper(token);
    instructions_map.lookup(key.as_str())
}

/// Catalog lookup through [`lookup_mnemonic`] is case-insensitive: two
/// queries whose uppercase foldings agree are served the same bucket.
pub proof fn lemma_lookup_case_insensitive(c: InstructionCatalog, q1: Seq<char>, q2: Seq<char>)
    requires
        upper_of(q1) == upper_of(q2),
    ensures
        c.spec_lookup(upper_of(q1)) == c.spec_lookup(upper_of(q2)),
{
}

} // verus!
