//! The world model: a tree of named nodes (directories and files) rooted at
//! the world home, each directory carrying a property record for the objects
//! it contains.
//!
//! The protocol reads and writes four recognized properties on an object,
//! always through its containing directory's record: `locked` (the
//! two-character code of the lock-state codec), `obj_salt` (a base64 salt),
//! `decrypt_me` and `compare_me` (opaque ciphertexts). A path is a sequence
//! of name segments from the root; the root itself is the empty path.

use vstd::prelude::*;
use crate::errors::DeemakError;
use crate::strkit::str_eq;

verus! {

/// The recognized per-object properties. A property that has never been
/// written (or has been removed) is `None`.
pub struct ObjectProps {
    /// The two-character lock-state code.
    pub locked: Option<String>,
    /// The object's base64 salt, assigned once when it becomes lockable.
    pub obj_salt: Option<String>,
    /// The solution-gated commitment of a chain flag; only on a level that
    /// is the source end of a chain.
    pub decrypt_me: Option<String>,
    /// The flag-gated verifier; present exactly while the object is locked.
    pub compare_me: Option<String>,
}

/// One object's record inside its containing directory.
pub struct ObjectEntry {
    /// The object's name, unique within the directory.
    pub name: String,
    /// Its recognized properties.
    pub props: ObjectProps,
}

/// The metadata a directory carries.
pub struct DirInfo {
    /// Where this directory stands; the world root reads `HOME`.
    pub location: String,
    /// A free-form description.
    pub about: String,
    /// One record per object contained in this directory.
    pub objects: Vec<ObjectEntry>,
}

/// One node of the world tree.
pub struct Node {
    /// Name segments from the root; empty for the root itself.
    pub path: Vec<String>,
    /// Whether the node is a directory (and so can carry `info`).
    pub is_dir: bool,
    /// The directory metadata; meaningful only when `is_dir`.
    pub info: DirInfo,
}

/// The world: every node of the tree, plus whether a restore and a save
/// archive are present at the root.
pub struct Sekai {
    /// All nodes, the root included.
    pub nodes: Vec<Node>,
    /// Whether a restore archive exists for the world.
    pub has_restore: bool,
    /// Whether a save archive exists for the world.
    pub has_save: bool,
}

/// Which of the recognized properties an operation touches.
#[derive(Clone, Copy, Debug, PartialEq, Eq, Structural)]
pub enum PropKey {
    Locked,
    ObjSalt,
    DecryptMe,
    CompareMe,
}

/// The view of one optional property.
pub open spec fn opt_view(o: Option<String>) -> Option<Seq<char>> {
    match o {
        Some(s) => Some(s@),
        None => None,
    }
}

/// The selected field of a record, as its view.
pub open spec fn prop_field(props: ObjectProps, key: PropKey) -> Option<Seq<char>> {
    match key {
        PropKey::Locked => opt_view(props.locked),
        PropKey::ObjSalt => opt_view(props.obj_salt),
        PropKey::DecryptMe => opt_view(props.decrypt_me),
        PropKey::CompareMe => opt_view(props.compare_me),
    }
}

impl Sekai {
    /// Whether a node with this path exists.
    pub open spec fn has_node(self, p: Seq<Seq<char>>) -> bool {
        exists|i: int| 0 <= i < self.nodes@.len() && self.nodes@[i].path.deep_view() == p
    }

    /// The index of the node with this path (well defined under `wf`).
    pub open spec fn node_idx(self, p: Seq<Seq<char>>) -> int {
        choose|i: int| 0 <= i < self.nodes@.len() && self.nodes@[i].path.deep_view() == p
    }

    /// The node with this path.
    pub open spec fn node_at(self, p: Seq<Seq<char>>) -> Node {
        self.nodes@[self.node_idx(p)]
    }

    /// Whether a directory with this path exists.
    pub open spec fn is_dir_at(self, p: Seq<Seq<char>>) -> bool {
        self.has_node(p) && self.node_at(p).is_dir
    }

    /// The record of the object at path `p`, found by name in its parent
    /// directory's metadata.
    pub open spec fn obj_entry_at(self, p: Seq<Seq<char>>) -> Option<ObjectEntry> {
        if p.len() > 0 && self.has_node(p.drop_last()) {
            let objects = self.node_at(p.drop_last()).info.objects@;
            if exists|k: int| 0 <= k < objects.len() && objects[k].name@ == p.last() {
                Some(objects[choose|k: int| 0 <= k < objects.len() && objects[k].name@ == p.last()])
            } else {
                None
            }
        } else {
            None
        }
    }

    /// One property of the object at path `p`, read through its parent
    /// directory's record.
    pub open spec fn prop_at(self, p: Seq<Seq<char>>, key: PropKey) -> Option<Seq<char>> {
        match self.obj_entry_at(p) {
            Some(e) => prop_field(e.props, key),
            None => None,
        }
    }

    /// Well-formedness: node paths are unique, the root is a directory,
    /// and object names are unique within each directory's record.
    pub open spec fn wf(self) -> bool {
        &&& forall|i: int, j: int|
            0 <= i < j < self.nodes@.len() ==>
                self.nodes@[i].path.deep_view() != self.nodes@[j].path.deep_view()
        &&& self.is_dir_at(Seq::empty())
        &&& forall|i: int, k1: int, k2: int|
            0 <= i < self.nodes@.len()
                && 0 <= k1 < k2 < self.nodes@[i].info.objects@.len() ==>
                self.nodes@[i].info.objects@[k1].name@ != self.nodes@[i].info.objects@[k2].name@
    }

    /// Whether two worlds have the same tree of nodes (paths, kinds,
    /// locations and descriptions), differing at most in object records
    /// and archive markers.
    pub open spec fn same_shape(self, other: Sekai) -> bool {
        &&& self.nodes@.len() == other.nodes@.len()
        &&& forall|i: int| 0 <= i < self.nodes@.len() ==>
            (#[trigger] other.nodes@[i]).path.deep_view() == self.nodes@[i].path.deep_view()
            && other.nodes@[i].is_dir == self.nodes@[i].is_dir
            && other.nodes@[i].info.location@ == self.nodes@[i].info.location@
            && other.nodes@[i].info.about@ == self.nodes@[i].info.about@
    }

    /// Find the index of the node with the given path.
    pub fn find_node(&self, path: &Vec<String>) -> (r: Option<usize>)
        ensures
            r matches Some(i) ==>
                i < self.nodes@.len()
                && self.nodes@[i as int].path.deep_view() == path.deep_view(),
            r is None ==> !self.has_node(path.deep_view()),
    {
        let n = self.nodes.len();
        let mut i: usize = 0;
        while i < n
            invariant
                n == self.nodes@.len(),
                i <= n,
                forall|t: int| 0 <= t < i ==>
                    (#[trigger] self.nodes@[t]).path.deep_view() != path.deep_view(),
            decreases n - i,
        {
            if path_eq(&self.nodes[i].path, path) {
                return Some(i);
            }
            i += 1;
        }
        None
    }

    /// Whether a node with the given path exists.
    pub fn exists_at(&self, path: &Vec<String>) -> (r: bool)
        ensures
            r == self.has_node(path.deep_view()),
    {
        match self.find_node(path) {
            Some(i) => {
                proof {
                    assert(self.has_node(path.deep_view()));
                }
                true
            }
            None => false,
        }
    }

    /// Whether the node with the given path exists and is a directory.
    pub fn is_dir(&self, path: &Vec<String>) -> (r: bool)
        requires
            self.wf(),
        ensures
            r == self.is_dir_at(path.deep_view()),
    {
        match self.find_node(path) {
            Some(i) => {
                proof {
                    assert(self.has_node(path.deep_view()));
                    lemma_unique_idx(*self, path.deep_view(), i as int);
                }
                self.nodes[i].is_dir
            }
            None => false,
        }
    }

    /// The description the directory at `path` carries, if the node
    /// exists.
    pub fn about_at(&self, path: &Vec<String>) -> (r: Option<String>)
        requires
            self.wf(),
        ensures
            r matches Some(a) ==> self.has_node(path.deep_view())
                && a@ == self.node_at(path.deep_view()).info.about@,
            r is None ==> !self.has_node(path.deep_view()),
    {
        match self.find_node(path) {
            Some(i) => {
                proof {
                    lemma_unique_idx(*self, path.deep_view(), i as int);
                }
                Some(self.nodes[i].info.about.clone())
            }
            None => None,
        }
    }

    /// The location marker the directory at `path` carries, if the node
    /// exists.
    pub fn location_at(&self, path: &Vec<String>) -> (r: Option<String>)
        requires
            self.wf(),
        ensures
            r matches Some(a) ==> self.has_node(path.deep_view())
                && a@ == self.node_at(path.deep_view()).info.location@,
            r is None ==> !self.has_node(path.deep_view()),
    {
        match self.find_node(path) {
            Some(i) => {
                proof {
                    lemma_unique_idx(*self, path.deep_view(), i as int);
                }
                Some(self.nodes[i].info.location.clone())
            }
            None => None,
        }
    }

    /// Read one property of the object at `path`, through its containing
    /// directory's record. `None` when the path is the root, the parent
    /// directory does not exist, no record exists, or the property is
    /// unset.
    #[verifier::loop_isolation(false)]
    pub fn get_prop(&self, path: &Vec<String>, key: PropKey) -> (r: Option<String>)
        requires
            self.wf(),
        ensures
            opt_view(r) == self.prop_at(path.deep_view(), key),
    {
        let ghost p = path.deep_view();
        if path.len() == 0 {
            return None;
        }
        let parent = parent_of(path);
        let i = match self.find_node(&parent) {
            Some(i) => i,
            None => {
                return None;
            }
        };
        proof {
            lemma_unique_idx(*self, p.drop_last(), i as int);
        }
        let objects = &self.nodes[i].info.objects;
        let name = &path[path.len() - 1];
        proof {
            assert(name@ == p.last());
        }
        let m = objects.len();
        let mut k: usize = 0;
        while k < m
            invariant
                k <= m,
                forall|t: int| 0 <= t < k ==> (#[trigger] objects@[t]).name@ != name@,
            decreases m - k,
        {
            if str_eq(objects[k].name.as_str(), name.as_str()) {
                proof {
                    lemma_unique_obj(*self, i as int, k as int, name@);
                    assert(self.obj_entry_at(p) == Some(objects@[k as int]));
                }
                let props = &objects[k].props;
                let field = match key {
                    PropKey::Locked => &props.locked,
                    PropKey::ObjSalt => &props.obj_salt,
                    PropKey::DecryptMe => &props.decrypt_me,
                    PropKey::CompareMe => &props.compare_me,
                };
                return match field {
                    Some(s) => Some(s.clone()),
                    None => None,
                };
            }
            k += 1;
        }
        proof {
            assert(self.obj_entry_at(p) is None);
        }
        None
    }

    /// Replace the description of the directory at `path`. `false`, with
    /// the world unchanged, when no such node exists.
    pub fn set_about(&mut self, path: &Vec<String>, value: String) -> (r: bool)
        requires
            old(self).wf(),
        ensures
            final(self).wf(),
            final(self).has_restore == old(self).has_restore,
            final(self).has_save == old(self).has_save,
            r == old(self).has_node(path.deep_view()),
            !r ==> *final(self) == *old(self),
            r ==> {
                let i = old(self).node_idx(path.deep_view());
                &&& final(self).nodes@.len() == old(self).nodes@.len()
                &&& (forall|t: int| 0 <= t < old(self).nodes@.len() && t != i ==>
                    (#[trigger] final(self).nodes@[t]) == old(self).nodes@[t])
                &&& final(self).nodes@[i].path == old(self).nodes@[i].path
                &&& final(self).nodes@[i].is_dir == old(self).nodes@[i].is_dir
                &&& final(self).nodes@[i].info.location == old(self).nodes@[i].info.location
                &&& final(self).nodes@[i].info.objects == old(self).nodes@[i].info.objects
                &&& final(self).nodes@[i].info.about@ == value@
            },
    {
        match self.find_node(path) {
            Some(i) => {
                proof {
                    lemma_unique_idx(*self, path.deep_view(), i as int);
                }
                self.nodes[i].info.about = value;
                proof {
                    let a = *old(self);
                    let b = *self;
                    assert(a.has_node(Seq::empty()));
                    let r0 = a.node_idx(Seq::empty());
                    assert(b.nodes@[r0].path.deep_view() == Seq::<Seq<char>>::empty());
                    lemma_unique_idx(b, Seq::empty(), r0);
                }
                true
            }
            None => false,
        }
    }

    /// Write (`Some`) or remove (`None`) one property of the object at
    /// `path`, creating the record in the parent directory if needed.
    /// Fails with `NotFound` when the path is the root or its parent
    /// directory does not exist; the world is then unchanged.
    #[verifier::loop_isolation(false)]
    pub fn set_prop(&mut self, path: &Vec<String>, key: PropKey, value: Option<String>)
        -> (r: Result<(), DeemakError>)
        requires
            old(self).wf(),
        ensures
            final(self).wf(),
            old(self).same_shape(*final(self)),
            final(self).has_restore == old(self).has_restore,
            final(self).has_save == old(self).has_save,
            r is Ok <==> path.deep_view().len() > 0
                && old(self).is_dir_at(path.deep_view().drop_last()),
            r matches Err(e) ==> e == DeemakError::NotFound && *final(self) == *old(self),
            r is Ok ==> final(self).prop_at(path.deep_view(), key) == opt_view(value),
            r is Ok ==> forall|kk: PropKey| kk != key ==>
                final(self).prop_at(path.deep_view(), kk)
                    == old(self).prop_at(path.deep_view(), kk),
            r is Ok ==> forall|q: Seq<Seq<char>>, kk: PropKey| q != path.deep_view() ==>
                final(self).prop_at(q, kk) == old(self).prop_at(q, kk),
    {
        let ghost p = path.deep_view();
        if path.len() == 0 {
            return Err(DeemakError::NotFound);
        }
        let parent = parent_of(path);
        let i = match self.find_node(&parent) {
            Some(i) => i,
            None => {
                return Err(DeemakError::NotFound);
            }
        };
        proof {
            lemma_unique_idx(*self, p.drop_last(), i as int);
        }
        if !self.nodes[i].is_dir {
            proof {
                assert(!self.is_dir_at(p.drop_last()));
            }
            return Err(DeemakError::NotFound);
        }
        let name = path[path.len() - 1].clone();
        proof {
            assert(name@ == p.last());
        }
        let m = self.nodes[i].info.objects.len();
        let mut k: usize = 0;
        let mut found: Option<usize> = None;
        while k < m
            invariant
                k <= m,
                found matches Some(t) ==>
                    t < m && self.nodes@[i as int].info.objects@[t as int].name@ == name@,
                found is None ==> forall|t: int| 0 <= t < k ==>
                    (#[trigger] self.nodes@[i as int].info.objects@[t]).name@ != name@,
            decreases m - k,
        {
            if found.is_none() && str_eq(self.nodes[i].info.objects[k].name.as_str(), name.as_str()) {
                found = Some(k);
            }
            k += 1;
        }
        let ghost oldself = *self;
        match found {
            Some(k) => {
                let entry = &mut self.nodes[i].info.objects[k];
                set_field(&mut entry.props, key, value);
                proof {
                    lemma_set_prop_post(oldself, *self, p, i as int, k as int, key, opt_view(value));
                }
                Ok(())
            }
            None => {
                let mut props = ObjectProps {
                    locked: None,
                    obj_salt: None,
                    decrypt_me: None,
                    compare_me: None,
                };
                set_field(&mut props, key, value);
                self.nodes[i].info.objects.push(ObjectEntry { name, props });
                proof {
                    lemma_push_prop_post(oldself, *self, p, i as int, key, opt_view(value));
                }
                Ok(())
            }
        }
    }
}

/// Replace one field of a record.
fn set_field(props: &mut ObjectProps, key: PropKey, value: Option<String>)
    ensures
        prop_field(*final(props), key) == opt_view(value),
        forall|kk: PropKey| kk != key ==>
            prop_field(*final(props), kk) == prop_field(*old(props), kk),
{
    match key {
        PropKey::Locked => {
            props.locked = value;
        }
        PropKey::ObjSalt => {
            props.obj_salt = value;
        }
        PropKey::DecryptMe => {
            props.decrypt_me = value;
        }
        PropKey::CompareMe => {
            props.compare_me = value;
        }
    }
}

/// Two well-formed worlds of the same shape agree on which paths exist
/// and which are directories.
pub proof fn lemma_same_shape_dirs(a: Sekai, b: Sekai)
    requires
        a.wf(),
        b.wf(),
        a.same_shape(b),
    ensures
        forall|q: Seq<Seq<char>>| #[trigger] b.is_dir_at(q) == a.is_dir_at(q),
        forall|q: Seq<Seq<char>>| #[trigger] b.has_node(q) == a.has_node(q),
{
    assert forall|q: Seq<Seq<char>>| #[trigger] b.has_node(q) == a.has_node(q) by {
        if a.has_node(q) {
            let i = a.node_idx(q);
            assert(b.nodes@[i].path.deep_view() == q);
        }
        if b.has_node(q) {
            let i = b.node_idx(q);
            assert(a.nodes@[i].path.deep_view() == q);
        }
    }
    assert forall|q: Seq<Seq<char>>| #[trigger] b.is_dir_at(q) == a.is_dir_at(q) by {
        if a.has_node(q) {
            let i = a.node_idx(q);
            lemma_unique_idx(a, q, i);
            lemma_unique_idx(b, q, i);
        }
    }
}

/// Every index that resolves a path equals the chosen one, under `wf`'s
/// path uniqueness.
pub proof fn lemma_unique_idx(s: Sekai, p: Seq<Seq<char>>, i: int)
    requires
        forall|x: int, y: int|
            0 <= x < y < s.nodes@.len() ==>
                s.nodes@[x].path.deep_view() != s.nodes@[y].path.deep_view(),
        0 <= i < s.nodes@.len(),
        s.nodes@[i].path.deep_view() == p,
    ensures
        s.has_node(p),
        s.node_idx(p) == i,
        s.node_at(p) == s.nodes@[i],
{
    assert(s.has_node(p));
    let j = s.node_idx(p);
    if i != j {
        if i < j {
            assert(s.nodes@[i].path.deep_view() != s.nodes@[j].path.deep_view());
        } else {
            assert(s.nodes@[j].path.deep_view() != s.nodes@[i].path.deep_view());
        }
        assert(false);
    }
}

/// Every object index that resolves a name equals the chosen one.
proof fn lemma_unique_obj(s: Sekai, i: int, k: int, name: Seq<char>)
    requires
        s.wf(),
        0 <= i < s.nodes@.len(),
        0 <= k < s.nodes@[i].info.objects@.len(),
        s.nodes@[i].info.objects@[k].name@ == name,
    ensures
        (choose|t: int| 0 <= t < s.nodes@[i].info.objects@.len()
            && s.nodes@[i].info.objects@[t].name@ == name) == k,
{
    let objects = s.nodes@[i].info.objects@;
    assert(exists|t: int| 0 <= t < objects.len() && objects[t].name@ == name);
    let t = choose|t: int| 0 <= t < objects.len() && objects[t].name@ == name;
    if t != k {
        if t < k {
            assert(objects[t].name@ != objects[k].name@);
        } else {
            assert(objects[k].name@ != objects[t].name@);
        }
        assert(false);
    }
}

/// Two paths with the same parent and the same last segment are the same
/// path.
proof fn lemma_path_parts(p: Seq<Seq<char>>, q: Seq<Seq<char>>)
    requires
        p.len() > 0,
        q.len() > 0,
        p.drop_last() == q.drop_last(),
        p.last() == q.last(),
    ensures
        p == q,
{
    assert(p.drop_last().len() == p.len() - 1);
    assert(q.drop_last().len() == q.len() - 1);
    assert(p.len() == q.len());
    assert forall|t: int| 0 <= t < p.len() implies p[t] == q[t] by {
        if t < p.len() - 1 {
            assert(p.drop_last()[t] == p[t]);
            assert(q.drop_last()[t] == q[t]);
        }
    }
    assert(p =~= q);
}

proof fn lemma_same_has_node(a: Sekai, b: Sekai, q: Seq<Seq<char>>, i: int)
    requires
        b.nodes@.len() == a.nodes@.len(),
        forall|t: int| 0 <= t < a.nodes@.len() && t != i ==> b.nodes@[t] == a.nodes@[t],
        0 <= i < a.nodes@.len(),
        b.nodes@[i].path == a.nodes@[i].path,
    ensures
        b.has_node(q) == a.has_node(q),
{
    if a.has_node(q) {
        let t = choose|t: int| 0 <= t < a.nodes@.len() && a.nodes@[t].path.deep_view() == q;
        assert(b.nodes@[t].path.deep_view() == q);
    }
    if b.has_node(q) {
        let t = choose|t: int| 0 <= t < b.nodes@.len() && b.nodes@[t].path.deep_view() == q;
        assert(a.nodes@[t].path.deep_view() == q);
    }
}

/// A world that differs from a well-formed one only in the property
/// records of one directory's objects, keeping every object name, is well
/// formed, has the same shape, and agrees on object lookups outside the
/// changed entry.
proof fn lemma_store_update_common(a: Sekai, b: Sekai, i: int)
    requires
        a.wf(),
        0 <= i < a.nodes@.len(),
        b.nodes@.len() == a.nodes@.len(),
        forall|t: int| 0 <= t < a.nodes@.len() && t != i ==> b.nodes@[t] == a.nodes@[t],
        b.nodes@[i].path == a.nodes@[i].path,
        b.nodes@[i].is_dir == a.nodes@[i].is_dir,
        b.nodes@[i].info.location == a.nodes@[i].info.location,
        b.nodes@[i].info.about == a.nodes@[i].info.about,
        b.nodes@[i].info.objects@.len() >= a.nodes@[i].info.objects@.len(),
        forall|u: int| 0 <= u < a.nodes@[i].info.objects@.len() ==>
            (#[trigger] b.nodes@[i].info.objects@[u]).name@
                == a.nodes@[i].info.objects@[u].name@,
    ensures
        a.same_shape(b),
        forall|q: Seq<Seq<char>>| #[trigger] b.has_node(q) == a.has_node(q),
        forall|q: Seq<Seq<char>>| a.has_node(q) ==>
            #[trigger] b.node_idx(q) == a.node_idx(q),
{
    assert forall|q: Seq<Seq<char>>| #[trigger] b.has_node(q) == a.has_node(q) by {
        lemma_same_has_node(a, b, q, i);
    }
    assert forall|q: Seq<Seq<char>>| a.has_node(q) implies
        #[trigger] b.node_idx(q) == a.node_idx(q) by {
        let t = a.node_idx(q);
        assert(0 <= t < a.nodes@.len() && a.nodes@[t].path.deep_view() == q);
        assert(b.nodes@[t].path.deep_view() == q);
        lemma_unique_idx(b, q, t);
    }
}

proof fn lemma_set_prop_post(
    a: Sekai,
    b: Sekai,
    p: Seq<Seq<char>>,
    i: int,
    k: int,
    key: PropKey,
    value: Option<Seq<char>>,
)
    requires
        a.wf(),
        p.len() > 0,
        0 <= i < a.nodes@.len(),
        a.nodes@[i].path.deep_view() == p.drop_last(),
        a.nodes@[i].is_dir,
        0 <= k < a.nodes@[i].info.objects@.len(),
        a.nodes@[i].info.objects@[k].name@ == p.last(),
        b.nodes@.len() == a.nodes@.len(),
        forall|t: int| 0 <= t < a.nodes@.len() && t != i ==> b.nodes@[t] == a.nodes@[t],
        b.nodes@[i].path == a.nodes@[i].path,
        b.nodes@[i].is_dir == a.nodes@[i].is_dir,
        b.nodes@[i].info.location == a.nodes@[i].info.location,
        b.nodes@[i].info.about == a.nodes@[i].info.about,
        b.nodes@[i].info.objects@.len() == a.nodes@[i].info.objects@.len(),
        forall|t: int| 0 <= t < a.nodes@[i].info.objects@.len() && t != k ==>
            b.nodes@[i].info.objects@[t] == a.nodes@[i].info.objects@[t],
        b.nodes@[i].info.objects@[k].name == a.nodes@[i].info.objects@[k].name,
        prop_field(b.nodes@[i].info.objects@[k].props, key) == value,
        forall|kk: PropKey| kk != key ==>
            prop_field(b.nodes@[i].info.objects@[k].props, kk)
                == prop_field(a.nodes@[i].info.objects@[k].props, kk),
        b.has_restore == a.has_restore,
        b.has_save == a.has_save,
    ensures
        b.wf(),
        a.same_shape(b),
        b.has_restore == a.has_restore,
        b.has_save == a.has_save,
        b.prop_at(p, key) == value,
        forall|kk: PropKey| kk != key ==> b.prop_at(p, kk) == a.prop_at(p, kk),
        forall|q: Seq<Seq<char>>, kk: PropKey| q != p ==> b.prop_at(q, kk) == a.prop_at(q, kk),
{
    lemma_store_update_common(a, b, i);
    // wf of b
    assert forall|t: int, u1: int, u2: int|
        0 <= t < b.nodes@.len() && 0 <= u1 < u2 < b.nodes@[t].info.objects@.len() implies
        b.nodes@[t].info.objects@[u1].name@ != b.nodes@[t].info.objects@[u2].name@ by {
        if t != i {
            assert(b.nodes@[t] == a.nodes@[t]);
        } else {
            assert(b.nodes@[i].info.objects@[u1].name@ == a.nodes@[i].info.objects@[u1].name@);
            assert(b.nodes@[i].info.objects@[u2].name@ == a.nodes@[i].info.objects@[u2].name@);
        }
    }
    assert(a.has_node(Seq::empty()));
    assert(b.node_idx(Seq::empty()) == a.node_idx(Seq::empty()));
    assert(b.wf());
    lemma_unique_idx(a, p.drop_last(), i);
    lemma_unique_idx(b, p.drop_last(), i);
    lemma_unique_obj(a, i, k, p.last());
    lemma_unique_obj(b, i, k, p.last());
    assert(a.obj_entry_at(p) == Some(a.nodes@[i].info.objects@[k]));
    assert(b.obj_entry_at(p) == Some(b.nodes@[i].info.objects@[k]));
    assert forall|q: Seq<Seq<char>>, kk: PropKey| q != p implies
        b.prop_at(q, kk) == a.prop_at(q, kk) by {
        lemma_untouched_entry(a, b, p, i, k, q);
    }
}

/// Object lookups away from the changed path are unchanged.
proof fn lemma_untouched_entry(a: Sekai, b: Sekai, p: Seq<Seq<char>>, i: int, k: int, q: Seq<Seq<char>>)
    requires
        a.wf(),
        b.wf(),
        p.len() > 0,
        0 <= i < a.nodes@.len(),
        a.nodes@[i].path.deep_view() == p.drop_last(),
        b.nodes@.len() == a.nodes@.len(),
        forall|t: int| 0 <= t < a.nodes@.len() && t != i ==> b.nodes@[t] == a.nodes@[t],
        b.nodes@[i].path == a.nodes@[i].path,
        0 <= k <= a.nodes@[i].info.objects@.len(),
        b.nodes@[i].info.objects@.len() >= a.nodes@[i].info.objects@.len(),
        b.nodes@[i].info.objects@.len() <= a.nodes@[i].info.objects@.len() + 1,
        b.nodes@[i].info.objects@.len() == a.nodes@[i].info.objects@.len() + 1 ==>
            k == a.nodes@[i].info.objects@.len(),
        k < b.nodes@[i].info.objects@.len(),
        b.nodes@[i].info.objects@[k].name@ == p.last(),
        forall|t: int| 0 <= t < a.nodes@[i].info.objects@.len() && t != k ==>
            b.nodes@[i].info.objects@[t] == a.nodes@[i].info.objects@[t],
        forall|t: int| 0 <= t < a.nodes@[i].info.objects@.len() ==>
            (#[trigger] b.nodes@[i].info.objects@[t]).name@
                == a.nodes@[i].info.objects@[t].name@,
        q != p,
    ensures
        b.obj_entry_at(q) == a.obj_entry_at(q),
{
    if q.len() > 0 && a.has_node(q.drop_last()) {
        let t = a.node_idx(q.drop_last());
        lemma_unique_idx(a, q.drop_last(), t);
        lemma_unique_idx(b, q.drop_last(), t);
        if t != i {
            assert(b.nodes@[t] == a.nodes@[t]);
        } else {
            // Same directory: only the entry named `p.last()` changed.
            assert(q.drop_last() == p.drop_last());
            if q.last() == p.last() {
                lemma_path_parts(p, q);
            }
            assert(q.last() != p.last());
            let objects_a = a.nodes@[i].info.objects@;
            let objects_b = b.nodes@[i].info.objects@;
            if exists|u: int| 0 <= u < objects_a.len() && objects_a[u].name@ == q.last() {
                let u = choose|u: int| 0 <= u < objects_a.len() && objects_a[u].name@ == q.last();
                assert(objects_b[u].name@ == q.last());
                lemma_unique_obj(a, i, u, q.last());
                lemma_unique_obj(b, i, u, q.last());
                if u == k {
                    assert(k < objects_a.len());
                    assert(objects_b[k].name@ == objects_a[k].name@);
                    assert(false);
                }
                assert(objects_b[u] == objects_a[u]);
                assert(a.obj_entry_at(q) == Some(objects_a[u]));
                assert(b.obj_entry_at(q) == Some(objects_b[u]));
            } else {
                assert(a.obj_entry_at(q) is None);
                assert forall|u: int| 0 <= u < objects_b.len() implies
                    (#[trigger] objects_b[u]).name@ != q.last() by {
                    if u < objects_a.len() {
                        assert(objects_b[u].name@ == objects_a[u].name@);
                    } else {
                        assert(u == k);
                    }
                }
                assert(b.obj_entry_at(q) is None);
            }
        }
    } else {
        if q.len() > 0 {
            lemma_same_has_node(a, b, q.drop_last(), i);
        }
        assert(a.obj_entry_at(q) is None);
        assert(b.obj_entry_at(q) is None);
    }
}

proof fn lemma_push_prop_post(
    a: Sekai,
    b: Sekai,
    p: Seq<Seq<char>>,
    i: int,
    key: PropKey,
    value: Option<Seq<char>>,
)
    requires
        a.wf(),
        p.len() > 0,
        0 <= i < a.nodes@.len(),
        a.nodes@[i].path.deep_view() == p.drop_last(),
        a.nodes@[i].is_dir,
        forall|t: int| 0 <= t < a.nodes@[i].info.objects@.len() ==>
            (#[trigger] a.nodes@[i].info.objects@[t]).name@ != p.last(),
        b.nodes@.len() == a.nodes@.len(),
        forall|t: int| 0 <= t < a.nodes@.len() && t != i ==> b.nodes@[t] == a.nodes@[t],
        b.nodes@[i].path == a.nodes@[i].path,
        b.nodes@[i].is_dir == a.nodes@[i].is_dir,
        b.nodes@[i].info.location == a.nodes@[i].info.location,
        b.nodes@[i].info.about == a.nodes@[i].info.about,
        b.nodes@[i].info.objects@.len() == a.nodes@[i].info.objects@.len() + 1,
        forall|t: int| 0 <= t < a.nodes@[i].info.objects@.len() ==>
            b.nodes@[i].info.objects@[t] == a.nodes@[i].info.objects@[t],
        b.nodes@[i].info.objects@.last().name@ == p.last(),
        prop_field(b.nodes@[i].info.objects@.last().props, key) == value,
        forall|kk: PropKey| kk != key ==>
            prop_field(b.nodes@[i].info.objects@.last().props, kk) == None::<Seq<char>>,
        b.has_restore == a.has_restore,
        b.has_save == a.has_save,
    ensures
        b.wf(),
        a.same_shape(b),
        b.prop_at(p, key) == value,
        forall|kk: PropKey| kk != key ==> b.prop_at(p, kk) == a.prop_at(p, kk),
        forall|q: Seq<Seq<char>>, kk: PropKey| q != p ==> b.prop_at(q, kk) == a.prop_at(q, kk),
{
    let objects_a = a.nodes@[i].info.objects@;
    let objects_b = b.nodes@[i].info.objects@;
    let newk = objects_a.len() as int;
    assert(objects_b[newk] == objects_b.last());
    assert forall|u: int| 0 <= u < objects_a.len() implies
        (#[trigger] objects_b[u]).name@ == objects_a[u].name@ by {}
    lemma_store_update_common(a, b, i);
    // wf of b: the pushed name matched no existing entry.
    assert forall|t: int, u1: int, u2: int|
        0 <= t < b.nodes@.len() && 0 <= u1 < u2 < b.nodes@[t].info.objects@.len() implies
        b.nodes@[t].info.objects@[u1].name@ != b.nodes@[t].info.objects@[u2].name@ by {
        if t != i {
            assert(b.nodes@[t] == a.nodes@[t]);
        } else {
            if u2 < newk {
                assert(b.nodes@[t].info.objects@[u1] == objects_a[u1]);
                assert(b.nodes@[t].info.objects@[u2] == objects_a[u2]);
            } else {
                assert(u2 == newk);
                assert(b.nodes@[t].info.objects@[u1] == objects_a[u1]);
            }
        }
    }
    assert(a.has_node(Seq::empty()));
    assert(b.node_idx(Seq::empty()) == a.node_idx(Seq::empty()));
    assert(b.wf());
    lemma_unique_idx(a, p.drop_last(), i);
    lemma_unique_idx(b, p.drop_last(), i);
    lemma_unique_obj(b, i, newk, p.last());
    assert(a.obj_entry_at(p) is None);
    assert(b.obj_entry_at(p) == Some(objects_b[newk]));
    assert forall|kk: PropKey| kk != key implies b.prop_at(p, kk) == a.prop_at(p, kk) by {}
    assert forall|q: Seq<Seq<char>>, kk: PropKey| q != p implies
        b.prop_at(q, kk) == a.prop_at(q, kk) by {
        lemma_untouched_entry(a, b, p, i, newk, q);
    }
}

/// Compare two paths segment by segment.
pub fn path_eq(a: &Vec<String>, b: &Vec<String>) -> (r: bool)
    ensures
        r == (a.deep_view() == b.deep_view()),
{
    if a.len() != b.len() {
        proof {
            assert(a.deep_view().len() == a@.len());
            assert(b.deep_view().len() == b@.len());
        }
        return false;
    }
    let n = a.len();
    let mut i: usize = 0;
    while i < n
        invariant
            n == a@.len(),
            n == b@.len(),
            i <= n,
            forall|t: int| 0 <= t < i ==> a.deep_view()[t] == b.deep_view()[t],
        decreases n - i,
    {
        if !str_eq(a[i].as_str(), b[i].as_str()) {
            proof {
                assert(a.deep_view()[i as int] == a@[i as int]@);
                assert(b.deep_view()[i as int] == b@[i as int]@);
            }
            return false;
        }
        proof {
            assert(a.deep_view()[i as int] == a@[i as int]@);
            assert(b.deep_view()[i as int] == b@[i as int]@);
        }
        i += 1;
    }
    proof {
        assert(a.deep_view() =~= b.deep_view());
    }
    true
}

/// Copy a path.
#[verifier::loop_isolation(false)]
pub fn clone_path(path: &Vec<String>) -> (r: Vec<String>)
    ensures
        r.deep_view() == path.deep_view(),
{
    let mut r: Vec<String> = Vec::new();
    let n = path.len();
    let mut i: usize = 0;
    while i < n
        invariant
            i <= n,
            r.deep_view() == path.deep_view().take(i as int),
        decreases n - i,
    {
        r.push(path[i].clone());
        proof {
            assert(r.deep_view() =~= path.deep_view().take(i + 1 as int));
        }
        i += 1;
    }
    proof {
        assert(path.deep_view().take(n as int) =~= path.deep_view());
    }
    r
}

/// The path of the containing directory: all segments but the last.
#[verifier::loop_isolation(false)]
pub fn parent_of(path: &Vec<String>) -> (r: Vec<String>)
    requires
        path@.len() > 0,
    ensures
        r.deep_view() == path.deep_view().drop_last(),
{
    let mut r: Vec<String> = Vec::new();
    let n = path.len() - 1;
    let mut i: usize = 0;
    while i < n
        invariant
            i <= n,
            r@.len() == i,
            forall|t: int| 0 <= t < i ==> #[trigger] r@[t]@ == path@[t]@,
        decreases n - i,
    {
        r.push(path[i].clone());
        i += 1;
    }
    proof {
        assert forall|t: int| 0 <= t < n implies
            r.deep_view()[t] == path.deep_view().drop_last()[t] by {
            assert(r.deep_view()[t] == r@[t]@);
            assert(path.deep_view().drop_last()[t] == path@[t]@);
        }
        assert(r.deep_view() =~= path.deep_view().drop_last());
    }
    r
}

} // verus!
