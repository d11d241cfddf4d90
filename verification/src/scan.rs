use vstd::prelude::*;

verus! {

/// One regular file found under a scanned root: its absolute path, its path
/// relative to the root, and its size in bytes. A tree is represented as a
/// list of these, sorted by size descending by the (unverified) scanner.
#[derive(Clone, Debug)]
pub struct FileEntry {
    pub abs: String,
    pub rel: String,
    pub size: u64,
}

/// Mathematical sum of the sizes of the first `n` entries.
pub open spec fn sum_prefix(s: Seq<FileEntry>, n: int) -> int
    decreases n,
{
    if n <= 0 {
        0
    } else {
        sum_prefix(s, n - 1) + s[n - 1].size
    }
}

/// Mathematical sum of all sizes in the list.
pub open spec fn sum_sizes(s: Seq<FileEntry>) -> int {
    sum_prefix(s, s.len() as int)
}

/// `x` clamped from above into the range of `u64`.
pub open spec fn clamp64(x: int) -> u64 {
    if x <= u64::MAX {
        x as u64
    } else {
        u64::MAX
    }
}

pub proof fn lemma_sum_prefix_nonneg(s: Seq<FileEntry>, n: int)
    ensures
        sum_prefix(s, n) >= 0,
    decreases n,
{
    if n > 0 {
        lemma_sum_prefix_nonneg(s, n - 1);
    }
}

/// The list is ordered by size, largest first.
pub open spec fn sorted_desc(s: Seq<FileEntry>) -> bool {
    forall|i: int, j: int| 0 <= i <= j < s.len() ==> s[i].size >= s[j].size
}

/// Total bytes in the tree, saturating at `u64::MAX`.
pub fn total_size(files: &Vec<FileEntry>) -> (r: u64)
    ensures
        r == clamp64(sum_sizes(files@)),
{
    let mut acc: u64 = 0;
    let mut i: usize = 0;
    while i < files.len()
        invariant
            i <= files.len(),
            acc == clamp64(sum_prefix(files@, i as int)),
        decreases files.len() - i,
    {
        proof {
            lemma_sum_prefix_nonneg(files@, i as int);
        }
        let sz = files[i].size;
        if acc <= u64::MAX - sz {
            acc = acc + sz;
        } else {
            acc = u64::MAX;
        }
        i = i + 1;
    }
    acc
}

/// Size of the largest file: the head of the descending-sorted list, 0 if empty.
pub fn max_file(files: &Vec<FileEntry>) -> (r: u64)
    ensures
        r == (if files@.len() == 0 {
            0u64
        } else {
            files@[0].size
        }),
        sorted_desc(files@) ==> forall|i: int| 0 <= i < files@.len() ==> #[trigger] files@[i].size <= r,
{
    if files.len() == 0 {
        0
    } else {
        files[0].size
    }
}

} // verus!
