//! Previews of artifact cleaning: which artifact directories exist and how
//! much they hold. Measuring and deleting them happen outside.
use vstd::prelude::*;

use crate::detect::names_of;

verus! {

/// Artifact directories that would be removed, with their sizes, and the
/// sum of those sizes.
#[derive(Debug)]
pub struct CleanPreview {
    pub dirs: Vec<(String, u64)>,
    pub total_bytes: u64,
}

/// Sum of the sizes that are known.
pub open spec fn known_total(sizes: Seq<Option<u64>>) -> nat
    decreases sizes.len(),
{
    if sizes.len() == 0 {
        0
    } else {
        known_total(sizes.drop_last()) + match sizes.last() {
            Some(n) => n as nat,
            None => 0,
        }
    }
}

/// The directories of `names` whose size is known, with that size, in order.
pub open spec fn existing_dirs(names: Seq<Seq<char>>, sizes: Seq<Option<u64>>) -> Seq<(Seq<char>, u64)>
    decreases sizes.len(),
{
    if sizes.len() == 0 {
        seq![]
    } else {
        let rest = existing_dirs(names, sizes.drop_last());
        match sizes.last() {
            Some(n) => rest.push((names[sizes.len() - 1], n)),
            None => rest,
        }
    }
}

proof fn lemma_known_total_prefix(sizes: Seq<Option<u64>>, k: int)
    requires
        0 <= k <= sizes.len(),
    ensures
        known_total(sizes.take(k)) <= known_total(sizes),
    decreases sizes.len() - k,
{
    if k < sizes.len() {
        lemma_known_total_prefix(sizes, k + 1);
        assert(sizes.take(k + 1).drop_last() =~= sizes.take(k));
    } else {
        assert(sizes.take(k) =~= sizes);
    }
}

/// The preview for a project whose artifact directories are `artifact_dirs`,
/// where `sizes[i]` is the number of bytes under directory `i`, or `None`
/// where that directory does not exist.
pub fn preview_clean(artifact_dirs: &[String], sizes: &Vec<Option<u64>>) -> (r: CleanPreview)
    requires
        sizes@.len() == artifact_dirs@.len(),
        known_total(sizes@) <= u64::MAX,
    ensures
        r.total_bytes == known_total(sizes@),
        r.dirs@.map_values(|d: (String, u64)| (d.0@, d.1)) == existing_dirs(names_of(artifact_dirs@), sizes@),
{
    let ghost names = names_of(artifact_dirs@);
    let mut dirs: Vec<(String, u64)> = Vec::new();
    let mut total: u64 = 0;
    let mut k: usize = 0;
    assert(sizes@.take(0) =~= Seq::<Option<u64>>::empty());
    while k < sizes.len()
        invariant
            k <= sizes@.len(),
            sizes@.len() == artifact_dirs@.len(),
            names == names_of(artifact_dirs@),
            known_total(sizes@) <= u64::MAX,
            total == known_total(sizes@.take(k as int)),
            dirs@.map_values(|d: (String, u64)| (d.0@, d.1)) == existing_dirs(names, sizes@.take(k as int)),
        decreases sizes@.len() - k,
    {
        let ghost before = dirs@.map_values(|d: (String, u64)| (d.0@, d.1));
        assert(sizes@.take(k + 1).drop_last() =~= sizes@.take(k as int));
        proof {
            lemma_known_total_prefix(sizes@, k + 1);
        }
        if let Some(n) = sizes[k] {
            dirs.push((artifact_dirs[k].clone(), n));
            total = total + n;
            assert(dirs@.map_values(|d: (String, u64)| (d.0@, d.1)) =~= before.push((names[k as int], n)));
        }
        k = k + 1;
    }
    assert(sizes@.take(k as int) =~= sizes@);
    CleanPreview { dirs, total_bytes: total }
}

} // verus!
