//! The file catalog: which scanned directory entries are kept, and in
//! what order they are listed.
//!
//! The scan itself (reading the directory and each file's metadata) is
//! plain I/O and happens outside the library; it hands over one
//! `ScanEntry` per regular file whose metadata could be read, in
//! filesystem enumeration order, or nothing at all when the directory
//! does not exist.  The catalog keeps exactly the entries with a
//! supported video extension, sorted by case-insensitive name.

use vstd::prelude::*;

use crate::text::{ci_le, lemma_ci_le_total, lemma_ci_le_trans, ci_less_eq};
use crate::video_file::{VideoFile, VideoFileView, entry_model, is_supported};

verus! {

/// One regular file found by a directory scan: its full path and its
/// size metadata.
#[derive(Clone, Debug)]
pub struct ScanEntry {
    pub path: String,
    pub size_bytes: u64,
}

/// The views of a sequence of catalog entries.
pub open spec fn views_of(s: Seq<VideoFile>) -> Seq<VideoFileView> {
    s.map_values(|v: VideoFile| v@)
}

/// Which models a scan produces, in scan order: one per entry whose
/// extension is supported.
pub open spec fn kept_models(s: Seq<ScanEntry>) -> Seq<VideoFileView>
    decreases s.len(),
{
    if s.len() == 0 {
        Seq::empty()
    } else {
        let rest = kept_models(s.drop_last());
        let m = entry_model(s.last().path@, s.last().size_bytes);
        if is_supported(m.extension) {
            rest.push(m)
        } else {
            rest
        }
    }
}

/// The catalog order: case-insensitive by name, ascending.
pub open spec fn catalog_sorted(s: Seq<VideoFileView>) -> bool {
    forall|i: int, j: int| 0 <= i < j < s.len() ==> ci_le(#[trigger] s[i].name, #[trigger] s[j].name)
}

/// Stable insertion into a sorted sequence: the new entry goes after
/// every entry that compares less-or-equal to it, so entries with equal
/// names keep their relative order.
pub open spec fn insert_model(s: Seq<VideoFileView>, m: VideoFileView) -> Seq<VideoFileView>
    decreases s.len(),
{
    if s.len() == 0 {
        seq![m]
    } else if ci_le(s.last().name, m.name) {
        s.push(m)
    } else {
        insert_model(s.drop_last(), m).push(s.last())
    }
}

/// Stable insertion sort of the models, in scan order: exactly the
/// catalog order, ties broken by enumeration order.
pub open spec fn sort_models(s: Seq<VideoFileView>) -> Seq<VideoFileView>
    decreases s.len(),
{
    if s.len() == 0 {
        Seq::empty()
    } else {
        insert_model(sort_models(s.drop_last()), s.last())
    }
}

proof fn lemma_kept_models_supported(s: Seq<ScanEntry>)
    ensures
        forall|i: int|
            0 <= i < kept_models(s).len() ==> is_supported(#[trigger] kept_models(s)[i].extension),
    decreases s.len(),
{
    if s.len() > 0 {
        lemma_kept_models_supported(s.drop_last());
        let rest = kept_models(s.drop_last());
        let m = entry_model(s.last().path@, s.last().size_bytes);
        assert forall|i: int|
            0 <= i < kept_models(s).len() implies is_supported(
            kept_models(s)[i].extension,
        ) by {
            if is_supported(m.extension) {
                assert(kept_models(s) == rest.push(m));
                if i < rest.len() {
                    assert(kept_models(s)[i] == rest[i]);
                    assert(is_supported(rest[i].extension));
                }
            } else {
                assert(kept_models(s) == rest);
                assert(is_supported(rest[i].extension));
            }
        }
    }
}

proof fn lemma_insert_model_multiset(s: Seq<VideoFileView>, m: VideoFileView)
    ensures
        insert_model(s, m).to_multiset() == s.to_multiset().insert(m),
    decreases s.len(),
{
    broadcast use vstd::seq_lib::group_to_multiset_ensures;

    if s.len() == 0 {
        assert(insert_model(s, m) =~= s.push(m));
    } else if ci_le(s.last().name, m.name) {
    } else {
        let t = s.drop_last();
        lemma_insert_model_multiset(t, m);
        assert(insert_model(s, m) == insert_model(t, m).push(s.last()));
        assert(s == t.push(s.last()));
        assert(t.to_multiset().insert(m).insert(s.last()) =~= t.to_multiset().insert(
            s.last(),
        ).insert(m));
    }
}

/// Sorting rearranges the models and nothing more.
proof fn lemma_sort_models_multiset(s: Seq<VideoFileView>)
    ensures
        sort_models(s).to_multiset() == s.to_multiset(),
    decreases s.len(),
{
    broadcast use vstd::seq_lib::group_to_multiset_ensures;

    if s.len() > 0 {
        lemma_sort_models_multiset(s.drop_last());
        lemma_insert_model_multiset(sort_models(s.drop_last()), s.last());
        assert(s == s.drop_last().push(s.last()));
    }
}

/// Only supported entries reach the catalog: everything the sorted
/// catalog of a scan holds carries a supported video extension.
pub proof fn lemma_catalog_only_supported(entries: Seq<ScanEntry>, catalog: Seq<VideoFileView>)
    requires
        catalog == sort_models(kept_models(entries)),
    ensures
        forall|i: int| 0 <= i < catalog.len() ==> is_supported(#[trigger] catalog[i].extension),
{
    broadcast use vstd::seq_lib::group_to_multiset_ensures;

    let kept = kept_models(entries);
    lemma_sort_models_multiset(kept);
    lemma_kept_models_supported(entries);
    assert forall|i: int| 0 <= i < catalog.len() implies is_supported(catalog[i].extension) by {
        assert(catalog.contains(catalog[i]));
        assert(catalog.to_multiset().count(catalog[i]) > 0);
        assert(kept.contains(catalog[i]));
        let j = choose|j: int| 0 <= j < kept.len() && kept[j] == catalog[i];
        assert(is_supported(kept[j].extension));
    }
}

/// Inserting at the first position whose entry does not compare
/// less-or-equal is the stable insertion.
proof fn lemma_insert_model_at(s: Seq<VideoFileView>, m: VideoFileView, k: int)
    requires
        catalog_sorted(s),
        0 <= k <= s.len(),
        forall|i: int| 0 <= i < k ==> ci_le(#[trigger] s[i].name, m.name),
        k < s.len() ==> !ci_le(s[k].name, m.name),
    ensures
        insert_model(s, m) == s.insert(k, m),
    decreases s.len(),
{
    if s.len() == 0 {
        assert(insert_model(s, m) =~= s.insert(0, m));
    } else if k == s.len() {
        assert(ci_le(s.last().name, m.name));
        assert(insert_model(s, m) =~= s.insert(k, m));
    } else {
        // The last entry goes after `m`: were it not so, transitivity
        // would put the entry at `k` before `m` too.
        if ci_le(s.last().name, m.name) {
            if k < s.len() - 1 {
                assert(ci_le(s[k].name, s[s.len() - 1].name));
                lemma_ci_le_trans(s[k].name, s[s.len() - 1].name, m.name);
            }
            assert(false);
        }
        let t = s.drop_last();
        assert(forall|i: int| 0 <= i < k ==> t[i] == s[i]);
        assert(k < t.len() ==> t[k] == s[k]);
        lemma_insert_model_at(t, m, k);
        assert(insert_model(s, m) == t.insert(k, m).push(s.last()));
        assert(t.insert(k, m).push(s.last()) =~= s.insert(k, m));
    }
}

/// What holds of a catalog after inserting one entry at its place.
proof fn lemma_inserted_catalog(
    old_views: Seq<VideoFileView>,
    new_views: Seq<VideoFileView>,
    m: VideoFileView,
    k: int,
)
    requires
        catalog_sorted(old_views),
        0 <= k <= old_views.len(),
        forall|i: int| 0 <= i < k ==> ci_le(#[trigger] old_views[i].name, m.name),
        forall|i: int| k <= i < old_views.len() ==> ci_le(m.name, #[trigger] old_views[i].name),
        k < old_views.len() ==> !ci_le(old_views[k].name, m.name),
        new_views == old_views.insert(k, m),
    ensures
        catalog_sorted(new_views),
        new_views.to_multiset() == old_views.to_multiset().insert(m),
        new_views == insert_model(old_views, m),
{
    broadcast use vstd::seq_lib::group_seq_properties;
    broadcast use vstd::seq_lib::group_to_multiset_ensures;

    lemma_insert_model_at(old_views, m, k);
    old_views.insert_ensures(k, m);
    assert forall|i: int, j: int|
        0 <= i < j < new_views.len() implies ci_le(new_views[i].name, new_views[j].name) by {
        if j < k {
            assert(new_views[i] == old_views[i] && new_views[j] == old_views[j]);
        } else if i > k {
            assert(new_views[i] == old_views[i - 1] && new_views[j] == old_views[j - 1]);
        } else if i < k && j == k {
            assert(new_views[i] == old_views[i]);
        } else if i == k {
            assert(new_views[j] == old_views[j - 1]);
        } else {
            // i < k < j
            assert(new_views[i] == old_views[i] && new_views[j] == old_views[j - 1]);
            lemma_ci_le_trans(new_views[i].name, m.name, new_views[j].name);
        }
    }
    // Multiset bookkeeping for the insertion.
    let a = old_views.subrange(0, k);
    let b = old_views.subrange(k, old_views.len() as int);
    vstd::seq_lib::lemma_multiset_commutative(a.push(m), b);
    vstd::seq_lib::lemma_multiset_commutative(a, b);
    a.to_multiset_ensures();
    assert(a + b =~= old_views);
    assert(a.push(m).to_multiset() =~= a.to_multiset().insert(m));
    assert(new_views.to_multiset() =~= old_views.to_multiset().insert(m));
}

/// Places one entry into a sorted catalog, keeping it sorted.
fn insert_sorted(catalog: Vec<VideoFile>, vf: VideoFile) -> (r: Vec<VideoFile>)
    requires
        catalog_sorted(views_of(catalog@)),
    ensures
        catalog_sorted(views_of(r@)),
        views_of(r@).to_multiset() == views_of(catalog@).to_multiset().insert(vf@),
        views_of(r@) == insert_model(views_of(catalog@), vf@),
{
    broadcast use vstd::seq_lib::group_seq_properties;
    broadcast use vstd::seq_lib::group_to_multiset_ensures;

    let mut out = catalog;
    let n: usize = out.len();
    let mut k: usize = 0;
    loop
        invariant_except_break
            catalog_sorted(views_of(out@)),
            n == out@.len(),
            k <= n,
            forall|m: int| 0 <= m < k ==> ci_le(views_of(out@)[m].name, vf@.name),
        ensures
            catalog_sorted(views_of(out@)),
            n == out@.len(),
            k <= n,
            forall|m: int| 0 <= m < k ==> ci_le(views_of(out@)[m].name, vf@.name),
            k < n ==> !ci_le(views_of(out@)[k as int].name, vf@.name),
        decreases n - k,
    {
        if k == n {
            break ;
        }
        if !ci_less_eq(out[k].name.as_str(), vf.name.as_str()) {
            proof {
                assert(views_of(out@)[k as int].name == out@[k as int]@.name);
            }
            break ;
        }
        proof {
            assert(views_of(out@)[k as int].name == out@[k as int]@.name);
        }
        k = k + 1;
    }
    proof {
        // Everything at or after the insertion point goes after `vf`.
        assert forall|m: int| k <= m < n implies ci_le(vf@.name, views_of(out@)[m].name) by {
            lemma_ci_le_total(views_of(out@)[k as int].name, vf@.name);
            if m > k {
                lemma_ci_le_trans(
                    vf@.name,
                    views_of(out@)[k as int].name,
                    views_of(out@)[m].name,
                );
            }
        }
    }
    let ghost old_views = views_of(out@);
    out.insert(k, vf);
    proof {
        assert(views_of(out@) =~= old_views.insert(k as int, vf@));
        lemma_inserted_catalog(old_views, views_of(out@), vf@, k as int);
    }
    out
}

/// Builds the catalog from what a directory scan found.  `None` stands
/// for a directory that does not exist (or is not a directory): the
/// catalog is then empty, not an error.  The result holds exactly the
/// supported entries, sorted by case-insensitive name.
pub fn get_video_files(scan: Option<Vec<ScanEntry>>) -> (r: Vec<VideoFile>)
    ensures
        scan is None ==> r@.len() == 0,
        scan matches Some(entries) ==> views_of(r@).to_multiset() == kept_models(
            entries@,
        ).to_multiset() && catalog_sorted(views_of(r@)) && views_of(r@) == sort_models(
            kept_models(entries@),
        ),
{
    broadcast use vstd::seq_lib::group_seq_properties;
    broadcast use vstd::seq_lib::group_to_multiset_ensures;

    match scan {
        None => Vec::new(),
        Some(entries) => {
            let n: usize = entries.len();
            let mut out: Vec<VideoFile> = Vec::new();
            let mut i: usize = 0;
            proof {
                assert(views_of(out@) =~= Seq::<VideoFileView>::empty());
                assert(kept_models(entries@.take(0)) =~= Seq::<VideoFileView>::empty());
                assert(sort_models(Seq::<VideoFileView>::empty()) =~= Seq::<
                    VideoFileView,
                >::empty());
            }
            while i < n
                invariant
                    n == entries@.len(),
                    i <= n,
                    catalog_sorted(views_of(out@)),
                    views_of(out@).to_multiset() == kept_models(entries@.take(i as int)).to_multiset(),
                    views_of(out@) == sort_models(kept_models(entries@.take(i as int))),
                decreases n - i,
            {
                let vf = VideoFile::new(entries[i].path.as_str(), entries[i].size_bytes);
                let ghost prefix = entries@.take(i as int);
                let ghost next = entries@.take(i + 1);
                proof {
                    assert(next.drop_last() =~= prefix);
                    assert(next.last() == entries@[i as int]);
                }
                if vf.is_supported_video() {
                    out = insert_sorted(out, vf);
                    proof {
                        assert(kept_models(next) =~= kept_models(prefix).push(vf@));
                        kept_models(prefix).to_multiset_ensures();
                        assert(kept_models(prefix).push(vf@).to_multiset() =~= kept_models(
                            prefix,
                        ).to_multiset().insert(vf@));
                        assert(kept_models(prefix).push(vf@).drop_last() =~= kept_models(prefix));
                        assert(sort_models(kept_models(next)) == insert_model(
                            sort_models(kept_models(prefix)),
                            vf@,
                        ));
                    }
                } else {
                    proof {
                        assert(kept_models(next) =~= kept_models(prefix));
                    }
                }
                i = i + 1;
            }
            proof {
                assert(entries@.take(n as int) =~= entries@);
            }
            out
        },
    }
}

} // verus!
