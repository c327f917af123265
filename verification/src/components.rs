//! Discovery of descriptor files under a directory tree.
//!
//! The walk itself is done by the `walkdir` crate; which entries it yields
//! depends on what is on disk, so nothing is assumed about them.  The
//! filter that picks the descriptor files out of the walk is verified: a
//! path is kept exactly when it does not contain the substring `"test"`
//! and its base name is the canonical descriptor file name.

use vstd::prelude::*;
use vstd::string::StrSliceExecFns;

verus! {

/// The four characters of the excluded substring start at `i` of `s`.
pub open spec fn is_test_at(s: Seq<char>, i: int) -> bool {
    &&& 0 <= i
    &&& i + 4 <= s.len()
    &&& s[i] == 't'
    &&& s[i + 1] == 'e'
    &&& s[i + 2] == 's'
    &&& s[i + 3] == 't'
}

/// The path text contains the substring `"test"` somewhere.
pub open spec fn contains_test(s: Seq<char>) -> bool {
    exists|i: int| is_test_at(s, i)
}

/// Where the base name of a path starts: right after the last separator,
/// or at the start of the path when it has none.
pub open spec fn base_start(s: Seq<char>) -> int
    decreases s.len(),
{
    if s.len() == 0 {
        0
    } else if s.last() == '/' {
        s.len() as int
    } else {
        base_start(s.drop_last())
    }
}

/// The base name of the path equals the canonical descriptor file name.
pub open spec fn is_descriptor_name(s: Seq<char>) -> bool {
    s.subrange(base_start(s), s.len() as int) == "Component.yaml"@
}

/// A walked path is kept when it avoids the excluded substring and names a
/// descriptor file.
pub open spec fn keep_path(s: Seq<char>) -> bool {
    !contains_test(s) && is_descriptor_name(s)
}

/// The kept subsequence of a sequence of path texts, in walk order.
pub open spec fn kept_paths(s: Seq<Seq<char>>) -> Seq<Seq<char>>
    decreases s.len(),
{
    if s.len() == 0 {
        Seq::empty()
    } else if keep_path(s.last()) {
        kept_paths(s.drop_last()).push(s.last())
    } else {
        kept_paths(s.drop_last())
    }
}

/// Every kept path satisfies the filter.
pub proof fn lemma_kept_paths_keep(s: Seq<Seq<char>>)
    ensures
        forall|i: int| 0 <= i < kept_paths(s).len() ==> keep_path(kept_paths(s)[i]),
    decreases s.len(),
{
    if s.len() > 0 {
        lemma_kept_paths_keep(s.drop_last());
        assert forall|i: int| 0 <= i < kept_paths(s).len() implies keep_path(kept_paths(s)[i]) by {
            if i < kept_paths(s.drop_last()).len() {
                assert(kept_paths(s)[i] == kept_paths(s.drop_last())[i]);
            } else {
                assert(keep_path(s.last()));
                assert(kept_paths(s)[i] == s.last());
            }
        }
    }
}

/// Whether the path text contains the substring `"test"`.
pub fn path_contains_test(s: &str) -> (r: bool)
    ensures
        r == contains_test(s@),
{
    let n = s.unicode_len();
    if n < 4 {
        assert(forall|i: int| !is_test_at(s@, i));
        return false;
    }
    let mut i: usize = 0;
    while i <= n - 4
        invariant
            4 <= n == s@.len(),
            0 <= i <= n - 3,
            forall|j: int| 0 <= j < i ==> !is_test_at(s@, j),
        decreases n - i,
    {
        if s.get_char(i) == 't' && s.get_char(i + 1) == 'e' && s.get_char(i + 2) == 's'
            && s.get_char(i + 3) == 't' {
            assert(is_test_at(s@, i as int));
            return true;
        }
        i += 1;
    }
    assert(forall|j: int| is_test_at(s@, j) ==> 0 <= j <= n - 4);
    false
}

/// Whether the base name of the path equals the descriptor file name.
pub fn path_is_descriptor(s: &str) -> (r: bool)
    ensures
        r == is_descriptor_name(s@),
{
    let descriptor = "Component.yaml";
    proof {
        reveal_strlit("Component.yaml");
        assert(descriptor@ == "Component.yaml"@);
    }
    let n = s.unicode_len();
    // Find where the base name starts: just after the last '/'.
    let mut b: usize = 0;
    let mut j: usize = 0;
    proof {
        assert(s@.take(0) =~= Seq::<char>::empty());
    }
    while j < n
        invariant
            n == s@.len(),
            0 <= b <= j <= n,
            base_start(s@.take(j as int)) == b,
        decreases n - j,
    {
        proof {
            assert(s@.take(j + 1).drop_last() =~= s@.take(j as int));
            assert(s@.take(j + 1).last() == s@[j as int]);
        }
        if s.get_char(j) == '/' {
            b = j + 1;
        }
        j += 1;
    }
    proof {
        assert(s@.take(n as int) =~= s@);
        assert(base_start(s@) == b);
    }
    // Compare the base name with the descriptor name.
    let dn = descriptor.unicode_len();
    if n - b != dn {
        assert(s@.subrange(base_start(s@), s@.len() as int).len() != "Component.yaml"@.len());
        return false;
    }
    let mut k: usize = 0;
    while k < dn
        invariant
            n == s@.len(),
            descriptor@ == "Component.yaml"@,
            dn == "Component.yaml"@.len(),
            0 <= b <= n,
            n - b == dn,
            base_start(s@) == b,
            0 <= k <= dn,
            forall|j: int| 0 <= j < k ==> s@[b + j] == "Component.yaml"@[j],
        decreases dn - k,
    {
        if s.get_char(b + k) != descriptor.get_char(k) {
            assert(s@.subrange(base_start(s@), s@.len() as int)[k as int] != "Component.yaml"@[
                k as int
            ]);
            return false;
        }
        k += 1;
    }
    proof {
        assert(s@.subrange(base_start(s@), s@.len() as int) =~= "Component.yaml"@);
    }
    true
}

/// Keeps exactly the walked paths that name a descriptor file outside any
/// `"test"` path, in their original order.
pub fn filter_component_paths(paths: &Vec<String>) -> (r: Vec<String>)
    ensures
        r@.map_values(|p: String| p@) == kept_paths(paths@.map_values(|p: String| p@)),
{
    let ghost views = paths@.map_values(|p: String| p@);
    let mut r: Vec<String> = Vec::new();
    let mut i: usize = 0;
    proof {
        assert(views.take(0) =~= Seq::<Seq<char>>::empty());
        assert(r@.map_values(|p: String| p@) =~= kept_paths(views.take(0)));
    }
    while i < paths.len()
        invariant
            i <= paths@.len(),
            views == paths@.map_values(|p: String| p@),
            views.len() == paths@.len(),
            r@.map_values(|p: String| p@) == kept_paths(views.take(i as int)),
        decreases paths@.len() - i,
    {
        let ghost r_old = r@;
        let p = &paths[i];
        if !path_contains_test(p.as_str()) && path_is_descriptor(p.as_str()) {
            r.push(p.clone());
            proof {
                assert(r@.drop_last() =~= r_old);
                assert(r@.map_values(|p: String| p@) =~= r_old.map_values(|p: String| p@).push(
                    views[i as int],
                ));
            }
        }
        proof {
            assert(views.take(i + 1).drop_last() =~= views.take(i as int));
            assert(views.take(i + 1).last() == views[i as int]);
        }
        i += 1;
    }
    proof {
        assert(views.take(views.len() as int) =~= views);
    }
    r
}

/// Relies on walkdir::WalkDir: walks the tree under `path`, following
/// symbolic links, and yields every reachable entry; entries that fail are
/// skipped.  What comes back depends on the file system, so nothing is
/// assumed of it.
#[verifier::external_body]
fn walk_paths(path: &str) -> (r: Vec<String>) {
    let mut v: Vec<String> = Vec::new();
    for entry in walkdir::WalkDir::new(path).follow_links(true) {
        if let Ok(e) = entry {
            v.push(e.path().to_string_lossy().into_owned());
        }
    }
    v
}

/// Walks the tree under `path` and returns the paths of the descriptor
/// files found there, in walk order: exactly those walked paths whose text
/// avoids the substring `"test"` and whose base name is the canonical
/// descriptor file name.
pub fn scan_for_component(path: &str) -> (r: Vec<String>)
    ensures
        forall|i: int| 0 <= i < r@.len() ==> keep_path(r@[i]@),
{
    let walked = walk_paths(path);
    let r = filter_component_paths(&walked);
    proof {
        let views = walked@.map_values(|p: String| p@);
        lemma_kept_paths_keep(views);
        assert(forall|i: int| 0 <= i < r@.len() ==> r@.map_values(|p: String| p@)[i] == r@[i]@);
    }
    r
}

} // verus!
