//! The aggregate of a scan: every distinct record once, ordered by name
//! without regard to case.

use vstd::prelude::*;
use vstd::utf8::encode_utf8;
use crate::lexical::{bytes_le, bytes_le_exec, lemma_bytes_le_total, lemma_bytes_le_transitive};
use crate::record::{views, AppView, MacOSApp};

verus! {

/// The lower-case form that `str::to_lowercase` gives a text.
pub uninterp spec fn lowercase_of(text: Seq<char>) -> Seq<char>;

/// `str::to_lowercase`: the Unicode lower-case form of the text, which
/// depends on the text alone.
#[verifier::external_body]
fn to_lowercase(text: &str) -> (r: String)
    ensures
        r@ == lowercase_of(text@),
{
    text.to_lowercase()
}

/// The bytes by which a record is ordered: its lower-cased name in UTF-8.
pub open spec fn sort_key(record: AppView) -> Seq<u8> {
    encode_utf8(lowercase_of(record.name))
}

/// `a` may stand before `b` in a catalog.
pub open spec fn name_le(a: AppView, b: AppView) -> bool {
    bytes_le(sort_key(a), sort_key(b))
}

/// Ascending by case-insensitive name, over all pairs.
pub open spec fn is_sorted(catalog: Seq<AppView>) -> bool {
    forall|i: int, j: int| 0 <= i < j < catalog.len() ==> name_le(#[trigger] catalog[i], #[trigger] catalog[j])
}

/// A well-formed catalog: sorted, and no record twice.
pub open spec fn is_catalog(catalog: Seq<AppView>) -> bool {
    is_sorted(catalog) && catalog.no_duplicates()
}

/// Where a record with the given key goes: behind the last entry whose key
/// is not greater, so that entries of equal key keep their order of arrival.
pub open spec fn insert_position(catalog: Seq<AppView>, key: Seq<u8>) -> int
    decreases catalog.len(),
{
    if catalog.len() == 0 {
        0
    } else if bytes_le(sort_key(catalog.last()), key) {
        catalog.len() as int
    } else {
        insert_position(catalog.drop_last(), key)
    }
}

/// The catalog after one more record has come in: unchanged where it holds
/// the record already, else with the record at its position.
pub open spec fn with_record(catalog: Seq<AppView>, record: AppView) -> Seq<AppView> {
    if catalog.contains(record) {
        catalog
    } else {
        catalog.insert(insert_position(catalog, sort_key(record)), record)
    }
}

/// The catalog of a list of records, taken in order.
pub open spec fn catalog_of(records: Seq<AppView>) -> Seq<AppView>
    decreases records.len(),
{
    if records.len() == 0 {
        Seq::empty()
    } else {
        with_record(catalog_of(records.drop_last()), records.last())
    }
}

/// The position lies in the catalog; the entry before it is not greater than
/// the key and every entry from it on is greater.
pub proof fn lemma_insert_position(catalog: Seq<AppView>, key: Seq<u8>)
    ensures
        0 <= insert_position(catalog, key) <= catalog.len(),
        insert_position(catalog, key) > 0 ==> bytes_le(
            sort_key(catalog[insert_position(catalog, key) - 1]),
            key,
        ),
        forall|j: int|
            insert_position(catalog, key) <= j < catalog.len() ==> !bytes_le(
                sort_key(#[trigger] catalog[j]),
                key,
            ),
    decreases catalog.len(),
{
    if catalog.len() > 0 && !bytes_le(sort_key(catalog.last()), key) {
        let front = catalog.drop_last();
        lemma_insert_position(front, key);
        assert forall|j: int| insert_position(catalog, key) <= j < catalog.len() implies !bytes_le(
            sort_key(#[trigger] catalog[j]),
            key,
        ) by {
            if j < front.len() {
                assert(front[j] == catalog[j]);
            }
        }
    }
}

/// Taking a record into a well-formed catalog leaves it well-formed, and it
/// then holds what it held and the record.
pub proof fn lemma_with_record(catalog: Seq<AppView>, record: AppView)
    requires
        is_catalog(catalog),
    ensures
        is_catalog(with_record(catalog, record)),
        forall|x: AppView| #[trigger]
            with_record(catalog, record).contains(x) <==> (catalog.contains(x) || x == record),
{
    let next = with_record(catalog, record);
    if catalog.contains(record) {
    } else {
        let key = sort_key(record);
        let p = insert_position(catalog, key);
        lemma_insert_position(catalog, key);
        assert forall|i: int, j: int| 0 <= i < j < next.len() implies name_le(
            #[trigger] next[i],
            #[trigger] next[j],
        ) by {
            if j < p {
                assert(next[i] == catalog[i] && next[j] == catalog[j]);
            } else if j == p {
                assert(next[i] == catalog[i]);
                if i < p - 1 {
                    assert(name_le(catalog[i], catalog[p - 1]));
                    lemma_bytes_le_transitive(sort_key(catalog[i]), sort_key(catalog[p - 1]), key);
                }
            } else if i < p {
                assert(next[i] == catalog[i] && next[j] == catalog[j - 1]);
            } else if i == p {
                assert(next[j] == catalog[j - 1]);
                lemma_bytes_le_total(sort_key(catalog[j - 1]), key);
            } else {
                assert(next[i] == catalog[i - 1] && next[j] == catalog[j - 1]);
            }
        }
        assert forall|i: int, j: int| 0 <= i < next.len() && 0 <= j < next.len() && i != j implies next[i]
            != next[j] by {
            let ci = if i < p { i } else { i - 1 };
            let cj = if j < p { j } else { j - 1 };
            if i != p {
                assert(next[i] == catalog[ci]);
            }
            if j != p {
                assert(next[j] == catalog[cj]);
            }
        }
        assert forall|x: AppView| #[trigger] next.contains(x) <==> (catalog.contains(x) || x == record) by {
            if next.contains(x) {
                let i = choose|i: int| 0 <= i < next.len() && next[i] == x;
                if i < p {
                    assert(catalog[i] == x);
                } else if i > p {
                    assert(catalog[i - 1] == x);
                }
            }
            if catalog.contains(x) {
                let i = choose|i: int| 0 <= i < catalog.len() && catalog[i] == x;
                if i < p {
                    assert(next[i] == x);
                } else {
                    assert(next[i + 1] == x);
                }
            }
            if x == record {
                assert(next[p] == x);
            }
        }
    }
}

/// The catalog of any records is sorted by case-insensitive name, holds no
/// record twice, and holds exactly the records that were given.
pub proof fn lemma_catalog_of(records: Seq<AppView>)
    ensures
        is_catalog(catalog_of(records)),
        forall|x: AppView| #[trigger] catalog_of(records).contains(x) <==> records.contains(x),
    decreases records.len(),
{
    if records.len() > 0 {
        let front = records.drop_last();
        lemma_catalog_of(front);
        lemma_with_record(catalog_of(front), records.last());
        assert forall|x: AppView| #[trigger] catalog_of(records).contains(x) <==> records.contains(x) by {
            if records.contains(x) {
                let i = choose|i: int| 0 <= i < records.len() && records[i] == x;
                if i < records.len() - 1 {
                    assert(front[i] == x);
                }
            }
            if front.contains(x) {
                let i = choose|i: int| 0 <= i < front.len() && front[i] == x;
                assert(records[i] == x);
            }
            if x == records.last() {
                assert(records[records.len() - 1] == x);
            }
        }
    }
}

/// Each record that was given stands in the catalog at exactly one place.
pub proof fn lemma_each_record_once(records: Seq<AppView>, i: int)
    requires
        0 <= i < records.len(),
    ensures
        exists|j: int|
            0 <= j < catalog_of(records).len() && #[trigger] catalog_of(records)[j] == records[i] && forall|
                k: int,
            |
                0 <= k < catalog_of(records).len() && #[trigger] catalog_of(records)[k] == records[i] ==> k
                    == j,
{
    lemma_catalog_of(records);
    let catalog = catalog_of(records);
    assert(records.contains(records[i]));
    assert(catalog.contains(records[i]));
    let j = choose|j: int| 0 <= j < catalog.len() && catalog[j] == records[i];
    assert(catalog[j] == records[i]);
}

/// A well-formed catalog is its own catalog: building again from a catalog
/// changes nothing.
pub proof fn lemma_catalog_fixed_point(catalog: Seq<AppView>)
    requires
        is_catalog(catalog),
    ensures
        catalog_of(catalog) == catalog,
    decreases catalog.len(),
{
    if catalog.len() > 0 {
        let front = catalog.drop_last();
        let last = catalog.last();
        assert(is_catalog(front)) by {
            assert forall|i: int, j: int| 0 <= i < j < front.len() implies name_le(
                #[trigger] front[i],
                #[trigger] front[j],
            ) by {
                assert(front[i] == catalog[i] && front[j] == catalog[j]);
            }
            assert forall|i: int, j: int| 0 <= i < front.len() && 0 <= j < front.len() && i != j implies front[i]
                != front[j] by {
                assert(front[i] == catalog[i] && front[j] == catalog[j]);
            }
        }
        lemma_catalog_fixed_point(front);
        if front.contains(last) {
            let i = choose|i: int| 0 <= i < front.len() && front[i] == last;
            assert(catalog[i] == catalog[catalog.len() - 1]);
        }
        if front.len() > 0 {
            assert(front.last() == catalog[catalog.len() - 2]);
            assert(name_le(catalog[catalog.len() - 2], catalog[catalog.len() - 1]));
        }
        assert(front.insert(front.len() as int, last) =~= catalog);
    } else {
        assert(catalog =~= Seq::empty());
    }
}

/// Building a catalog twice gives what building it once gives.
pub proof fn lemma_catalog_idempotent(records: Seq<AppView>)
    ensures
        catalog_of(catalog_of(records)) == catalog_of(records),
{
    lemma_catalog_of(records);
    lemma_catalog_fixed_point(catalog_of(records));
}

/// Records that are among those given already change nothing when they
/// are given again.
pub proof fn lemma_repeats_change_nothing(records: Seq<AppView>, repeats: Seq<AppView>)
    requires
        forall|i: int| 0 <= i < repeats.len() ==> records.contains(#[trigger] repeats[i]),
    ensures
        catalog_of(records + repeats) == catalog_of(records),
    decreases repeats.len(),
{
    if repeats.len() == 0 {
        assert(records + repeats =~= records);
    } else {
        let front = repeats.drop_last();
        assert forall|i: int| 0 <= i < front.len() implies records.contains(#[trigger] front[i]) by {
            assert(front[i] == repeats[i]);
        }
        lemma_repeats_change_nothing(records, front);
        assert((records + repeats).drop_last() =~= records + front);
        assert((records + repeats).last() == repeats[repeats.len() - 1]);
        lemma_catalog_of(records);
        assert(records.contains(repeats[repeats.len() - 1]));
    }
}

/// The order in which records are given does not change which records the
/// catalog holds, nor how many: lists with the same records give catalogs
/// with the same records and of the same length.
pub proof fn lemma_content_ignores_order(first: Seq<AppView>, second: Seq<AppView>)
    requires
        forall|x: AppView| first.contains(x) <==> second.contains(x),
    ensures
        forall|x: AppView| catalog_of(first).contains(x) <==> catalog_of(second).contains(x),
        catalog_of(first).len() == catalog_of(second).len(),
{
    lemma_catalog_of(first);
    lemma_catalog_of(second);
    let a = catalog_of(first);
    let b = catalog_of(second);
    assert forall|x: AppView| a.contains(x) <==> b.contains(x) by {
        assert(a.contains(x) <==> first.contains(x));
        assert(b.contains(x) <==> second.contains(x));
    }
    a.unique_seq_to_set();
    b.unique_seq_to_set();
    assert(a.to_set() =~= b.to_set());
}

/// Whether the list holds a record equal to the given one in every field.
fn holds_record(catalog: &Vec<MacOSApp>, record: &MacOSApp) -> (r: bool)
    ensures
        r == views(catalog@).contains(record@),
{
    let mut i: usize = 0;
    while i < catalog.len()
        invariant
            i <= catalog.len(),
            forall|j: int| 0 <= j < i ==> views(catalog@)[j] != record@,
        decreases catalog.len() - i,
    {
        if catalog[i].same_as(record) {
            assert(views(catalog@)[i as int] == record@);
            return true;
        }
        i += 1;
    }
    false
}

/// The place for a record with the lower-cased name `key`, among entries
/// whose lower-cased names are `keys`.
fn find_position(keys: &Vec<String>, key: &String, Ghost(catalog): Ghost<Seq<AppView>>) -> (p: usize)
    requires
        keys.len() == catalog.len(),
        forall|i: int| 0 <= i < keys.len() ==> encode_utf8(#[trigger] keys[i]@) == sort_key(catalog[i]),
    ensures
        p == insert_position(catalog, encode_utf8(key@)),
{
    let mut p: usize = keys.len();
    proof {
        assert(catalog.take(p as int) =~= catalog);
    }
    while p > 0
        invariant
            p <= keys.len(),
            keys.len() == catalog.len(),
            forall|i: int| 0 <= i < keys.len() ==> encode_utf8(#[trigger] keys[i]@) == sort_key(catalog[i]),
            insert_position(catalog, encode_utf8(key@)) == insert_position(
                catalog.take(p as int),
                encode_utf8(key@),
            ),
        decreases p,
    {
        let entry = keys[p - 1].as_str();
        assert(encode_utf8(keys[p - 1]@) == sort_key(catalog[p - 1]));
        assert(catalog.take(p as int).last() == catalog[p - 1]);
        if bytes_le_exec(entry.as_bytes(), key.as_str().as_bytes()) {
            return p;
        }
        proof {
            assert(catalog.take(p as int).drop_last() =~= catalog.take(p - 1));
        }
        p -= 1;
    }
    p
}

/// Merges the records of a scan into the catalog: every distinct record
/// once, two records being the same only where all four fields agree, in
/// ascending order of lower-cased name; records whose lower-cased names are
/// equal stay in the order in which they were given.
pub fn build_catalog(records: Vec<MacOSApp>) -> (catalog: Vec<MacOSApp>)
    ensures
        views(catalog@) == catalog_of(views(records@)),
        is_catalog(views(catalog@)),
        forall|x: AppView| #[trigger] views(catalog@).contains(x) <==> views(records@).contains(x),
{
    let mut catalog: Vec<MacOSApp> = Vec::new();
    let mut keys: Vec<String> = Vec::new();
    let mut i: usize = 0;
    proof {
        assert(views(records@).take(0) =~= Seq::empty());
        assert(views(catalog@) =~= Seq::empty());
    }
    while i < records.len()
        invariant
            i <= records.len(),
            views(catalog@) == catalog_of(views(records@).take(i as int)),
            keys.len() == catalog.len(),
            forall|j: int|
                0 <= j < keys.len() ==> encode_utf8(#[trigger] keys[j]@) == sort_key(views(catalog@)[j]),
        decreases records.len() - i,
    {
        let record = &records[i];
        let ghost before = views(catalog@);
        proof {
            let prefix = views(records@).take(i + 1);
            assert(prefix.drop_last() =~= views(records@).take(i as int));
            assert(prefix.last() == record@);
        }
        if !holds_record(&catalog, record) {
            let key = to_lowercase(record.name());
            let p = find_position(&keys, &key, Ghost(before));
            proof {
                lemma_insert_position(before, sort_key(record@));
            }
            catalog.insert(p, record.duplicate());
            keys.insert(p, key);
            proof {
                assert(views(catalog@) =~= before.insert(p as int, record@));
            }
        }
        i += 1;
    }
    proof {
        assert(views(records@).take(i as int) =~= views(records@));
        lemma_catalog_of(views(records@));
    }
    catalog
}

} // verus!
