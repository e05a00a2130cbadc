//! Validating a world's directory metadata, and filling in what is
//! missing: every directory must say where it stands.

use vstd::prelude::*;
use crate::lockperm::{display_path, display_path_spec};
use crate::store::{lemma_unique_idx, DirInfo, Sekai};

verus! {

/// Whether a directory's metadata is usable: it must name a location.
pub open spec fn info_valid(info: DirInfo) -> bool {
    info.location@.len() > 0
}

/// Whether a directory's metadata is usable.
pub fn validate_info_file(info: &DirInfo) -> (r: bool)
    ensures
        r == info_valid(*info),
{
    info.location.unicode_len() > 0
}

/// Whether the directory at `path` exists and carries usable metadata.
pub fn check_dir_info_exists_valid(sekai: &Sekai, path: &Vec<String>) -> (r: bool)
    requires
        sekai.wf(),
    ensures
        r == (sekai.is_dir_at(path.deep_view())
            && info_valid(sekai.node_at(path.deep_view()).info)),
{
    match sekai.find_node(path) {
        Some(i) => {
            proof {
                lemma_unique_idx(*sekai, path.deep_view(), i as int);
            }
            self_is_dir_and_valid(sekai, i)
        }
        None => false,
    }
}

fn self_is_dir_and_valid(sekai: &Sekai, i: usize) -> (r: bool)
    requires
        i < sekai.nodes@.len(),
    ensures
        r == (sekai.nodes@[i as int].is_dir && info_valid(sekai.nodes@[i as int].info)),
{
    sekai.nodes[i].is_dir && validate_info_file(&sekai.nodes[i].info)
}

/// Two worlds with the same paths, kinds and object records are both
/// well formed if the first is.
proof fn lemma_same_skeleton_wf(a: Sekai, b: Sekai)
    requires
        a.wf(),
        b.nodes@.len() == a.nodes@.len(),
        forall|t: int| 0 <= t < a.nodes@.len() ==>
            (#[trigger] b.nodes@[t]).path == a.nodes@[t].path
            && b.nodes@[t].is_dir == a.nodes@[t].is_dir
            && b.nodes@[t].info.objects == a.nodes@[t].info.objects,
    ensures
        b.wf(),
{
    assert(a.has_node(Seq::empty()));
    let i = a.node_idx(Seq::empty());
    assert(b.nodes@[i].path.deep_view() == Seq::<Seq<char>>::empty());
    assert(b.has_node(Seq::empty()));
    let j = b.node_idx(Seq::empty());
    if i != j {
        if i < j {
            assert(b.nodes@[i].path.deep_view() != b.nodes@[j].path.deep_view());
        } else {
            assert(b.nodes@[j].path.deep_view() != b.nodes@[i].path.deep_view());
        }
        assert(false);
    }
}

/// Make every directory's metadata usable. A directory without a
/// location is given its player-facing path (the root reads `HOME`);
/// with `home_check` only the root is treated. Usable metadata is never
/// touched.
#[verifier::loop_isolation(false)]
pub fn validate_or_create_sekai(sekai: &mut Sekai, home_check: bool) -> (r: bool)
    requires
        old(sekai).wf(),
    ensures
        final(sekai).wf(),
        r == true,
        final(sekai).has_restore == old(sekai).has_restore,
        final(sekai).has_save == old(sekai).has_save,
        final(sekai).nodes@.len() == old(sekai).nodes@.len(),
        forall|t: int| 0 <= t < old(sekai).nodes@.len() ==>
            (#[trigger] final(sekai).nodes@[t]).path == old(sekai).nodes@[t].path
            && final(sekai).nodes@[t].is_dir == old(sekai).nodes@[t].is_dir
            && final(sekai).nodes@[t].info.objects == old(sekai).nodes@[t].info.objects
            && final(sekai).nodes@[t].info.about == old(sekai).nodes@[t].info.about,
        forall|t: int| 0 <= t < old(sekai).nodes@.len()
            && info_valid(old(sekai).nodes@[t].info) ==>
            (#[trigger] final(sekai).nodes@[t]).info.location
                == old(sekai).nodes@[t].info.location,
        !home_check ==> forall|t: int| 0 <= t < old(sekai).nodes@.len()
            && old(sekai).nodes@[t].is_dir && !info_valid(old(sekai).nodes@[t].info) ==>
            (#[trigger] final(sekai).nodes@[t]).info.location@
                == display_path_spec(old(sekai).nodes@[t].path.deep_view()),
        !home_check ==> forall|t: int| 0 <= t < old(sekai).nodes@.len()
            && !old(sekai).nodes@[t].is_dir ==>
            (#[trigger] final(sekai).nodes@[t]) == old(sekai).nodes@[t],
        home_check ==> {
            let root = old(sekai).node_idx(Seq::empty());
            &&& forall|t: int| 0 <= t < old(sekai).nodes@.len() && t != root ==>
                (#[trigger] final(sekai).nodes@[t]) == old(sekai).nodes@[t]
            &&& info_valid(final(sekai).nodes@[root].info)
            &&& (!info_valid(old(sekai).nodes@[root].info) ==>
                final(sekai).nodes@[root].info.location@ == "HOME"@)
        },
{
    if home_check {
        let root: Vec<String> = Vec::new();
        proof {
            assert(root.deep_view() =~= Seq::<Seq<char>>::empty());
        }
        let i = match sekai.find_node(&root) {
            Some(i) => i,
            None => {
                proof {
                    assert(old(sekai).has_node(Seq::empty()));
                    assert(false);
                }
                return true;
            }
        };
        proof {
            lemma_unique_idx(*sekai, Seq::empty(), i as int);
        }
        if sekai.nodes[i].info.location.unicode_len() == 0 {
            sekai.nodes[i].info.location = String::from_str("HOME");
            proof {
                reveal_strlit("HOME");
            }
        }
        proof {
            lemma_same_skeleton_wf(*old(sekai), *sekai);
        }
        return true;
    }
    let n = sekai.nodes.len();
    let mut i: usize = 0;
    while i < n
        invariant
            i <= n,
            n == old(sekai).nodes@.len(),
            sekai.nodes@.len() == n,
            forall|t: int| 0 <= t < n ==>
                (#[trigger] sekai.nodes@[t]).path == old(sekai).nodes@[t].path
                && sekai.nodes@[t].is_dir == old(sekai).nodes@[t].is_dir
                && sekai.nodes@[t].info.objects == old(sekai).nodes@[t].info.objects
                && sekai.nodes@[t].info.about == old(sekai).nodes@[t].info.about,
            forall|t: int| i <= t < n ==>
                (#[trigger] sekai.nodes@[t]) == old(sekai).nodes@[t],
            forall|t: int| 0 <= t < n && info_valid(old(sekai).nodes@[t].info) ==>
                (#[trigger] sekai.nodes@[t]).info.location
                    == old(sekai).nodes@[t].info.location,
            forall|t: int| 0 <= t < i
                && old(sekai).nodes@[t].is_dir && !info_valid(old(sekai).nodes@[t].info) ==>
                (#[trigger] sekai.nodes@[t]).info.location@
                    == display_path_spec(old(sekai).nodes@[t].path.deep_view()),
            forall|t: int| 0 <= t < i && !old(sekai).nodes@[t].is_dir ==>
                (#[trigger] sekai.nodes@[t]) == old(sekai).nodes@[t],
            sekai.has_restore == old(sekai).has_restore,
            sekai.has_save == old(sekai).has_save,
        decreases n - i,
    {
        if sekai.nodes[i].is_dir && sekai.nodes[i].info.location.unicode_len() == 0 {
            let shown = display_path(&sekai.nodes[i].path);
            sekai.nodes[i].info.location = shown;
        }
        i += 1;
    }
    proof {
        lemma_same_skeleton_wf(*old(sekai), *sekai);
    }
    true
}

} // verus!
