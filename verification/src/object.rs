//! The object-store view of the library: typed objects, references into a
//! repository's store, and peeling an object to a requested kind by
//! following commit-tree and tag-target links.

use vstd::prelude::*;

use crate::hash::{all_hex, copy_bytes, decode_id, decoded, is_hex_digit, ObjectId};

verus! {

/// ASCII `t`.
pub const LETTER_T: u8 = 116;

/// ASCII `r`.
pub const LETTER_R: u8 = 114;

/// ASCII `e`.
pub const LETTER_E: u8 = 101;

/// ASCII `o`.
pub const LETTER_O: u8 = 111;

/// ASCII `b`.
pub const LETTER_B: u8 = 98;

/// ASCII `j`.
pub const LETTER_J: u8 = 106;

/// ASCII `c`.
pub const LETTER_C: u8 = 99;

/// ASCII space.
pub const SPACE: u8 = 32;

/// ASCII line feed.
pub const NEWLINE: u8 = 10;

/// The kind of a stored object.
#[derive(Debug, Clone, Copy, PartialEq, Eq, Structural)]
pub enum Kind {
    Commit,
    Tree,
    Tag,
    Blob,
}

/// Mathematical view of one stored object.
pub ghost struct ObjectView {
    pub id: Seq<u8>,
    pub kind: Kind,
    pub data: Seq<u8>,
}

/// An owned object: its id, its kind, and its payload bytes.
#[derive(Debug, PartialEq, Eq)]
pub struct Object {
    pub id: ObjectId,
    pub kind: Kind,
    pub data: Vec<u8>,
}

impl View for Object {
    type V = ObjectView;

    open spec fn view(&self) -> ObjectView {
        ObjectView { id: self.id@, kind: self.kind, data: self.data@ }
    }
}

/// A commit payload opens with a `tree ` line naming the commit's tree in
/// forty hex digits.
pub open spec fn valid_commit_data(d: Seq<u8>) -> bool {
    &&& d.len() >= 46
    &&& d[0] == LETTER_T
    &&& d[1] == LETTER_R
    &&& d[2] == LETTER_E
    &&& d[3] == LETTER_E
    &&& d[4] == SPACE
    &&& forall|j: int| 5 <= j < 45 ==> is_hex_digit(#[trigger] d[j])
    &&& d[45] == NEWLINE
}

/// The tree id a valid commit payload names.
pub open spec fn commit_tree_id(d: Seq<u8>) -> Seq<u8> {
    decoded(d.subrange(5, 45))
}

/// A tag payload opens with an `object ` line naming the tag's target in
/// forty hex digits.
pub open spec fn valid_tag_data(d: Seq<u8>) -> bool {
    &&& d.len() >= 48
    &&& d[0] == LETTER_O
    &&& d[1] == LETTER_B
    &&& d[2] == LETTER_J
    &&& d[3] == LETTER_E
    &&& d[4] == LETTER_C
    &&& d[5] == LETTER_T
    &&& d[6] == SPACE
    &&& forall|j: int| 7 <= j < 47 ==> is_hex_digit(#[trigger] d[j])
    &&& d[47] == NEWLINE
}

/// The target id a valid tag payload names.
pub open spec fn tag_target_id(d: Seq<u8>) -> Seq<u8> {
    decoded(d.subrange(7, 47))
}

/// What a stored payload must look like for its kind: commits and tags
/// carry a parseable link line; trees and blobs are unconstrained here.
pub open spec fn header_wf(kind: Kind, d: Seq<u8>) -> bool {
    match kind {
        Kind::Commit => valid_commit_data(d),
        Kind::Tag => valid_tag_data(d),
        Kind::Tree | Kind::Blob => true,
    }
}

/// The id an object peels to: a commit to its tree, a tag to its target;
/// trees and blobs peel no further.
pub open spec fn link_id(o: ObjectView) -> Option<Seq<u8>> {
    match o.kind {
        Kind::Commit => Some(commit_tree_id(o.data)),
        Kind::Tag => Some(tag_target_id(o.data)),
        Kind::Tree | Kind::Blob => None,
    }
}

/// The first stored object carrying this id.
pub open spec fn find_in(repo: Seq<ObjectView>, id: Seq<u8>) -> Option<ObjectView>
    decreases repo.len(),
{
    if repo.len() == 0 {
        None
    } else if repo[0].id == id {
        Some(repo[0])
    } else {
        find_in(repo.skip(1), id)
    }
}

/// What a found object is: a member of the store.
proof fn lemma_find_in_member(repo: Seq<ObjectView>, id: Seq<u8>)
    ensures
        find_in(repo, id) matches Some(w) ==> exists|i: int|
            0 <= i < repo.len() && repo[i] == w,
    decreases repo.len(),
{
    if repo.len() != 0 && repo[0].id != id {
        lemma_find_in_member(repo.skip(1), id);
        if find_in(repo, id) is Some {
            let w = find_in(repo, id)->Some_0;
            let i = choose|i: int| 0 <= i < repo.skip(1).len() && repo.skip(1)[i] == w;
            assert(repo[i + 1] == w);
        }
    }
}

/// The object one peel step away, looked up in the store.
pub open spec fn peel_step(repo: Seq<ObjectView>, o: ObjectView) -> Option<ObjectView> {
    match link_id(o) {
        None => None,
        Some(id) => find_in(repo, id),
    }
}

/// The object `n` peel steps away from `o`, while every step finds its
/// target in the store.
pub open spec fn peel_steps(repo: Seq<ObjectView>, o: ObjectView, n: nat) -> Option<ObjectView>
    decreases n,
{
    if n == 0 {
        Some(o)
    } else {
        match peel_steps(repo, o, (n - 1) as nat) {
            None => None,
            Some(p) => peel_step(repo, p),
        }
    }
}

/// An in-memory object store: the repository a reference or id is
/// attached to. Insertion admits only objects whose payload is well
/// formed for their kind, so every stored commit and tag can be peeled
/// without faulting.
#[derive(Debug)]
pub struct Repository {
    objects: Vec<Object>,
    refs: Vec<RefEntry>,
}

/// One named reference of a repository: a name and the id it points at.
#[derive(Debug, PartialEq, Eq)]
pub struct RefEntry {
    pub name: String,
    pub target: ObjectId,
}

impl View for RefEntry {
    type V = (Seq<char>, Seq<u8>);

    open spec fn view(&self) -> (Seq<char>, Seq<u8>) {
        (self.name@, self.target@)
    }
}

impl View for Repository {
    type V = Seq<ObjectView>;

    closed spec fn view(&self) -> Seq<ObjectView> {
        self.objects@.map_values(|o: Object| o@)
    }
}

impl Repository {
    /// Every stored payload is well formed for its kind.
    pub open spec fn wf(&self) -> bool {
        forall|i: int|
            0 <= i < self@.len() ==> header_wf(
                (#[trigger] self@[i]).kind,
                self@[i].data,
            )
    }

    /// The repository's references, in insertion order.
    pub closed spec fn refs(&self) -> Seq<(Seq<char>, Seq<u8>)> {
        self.refs@.map_values(|e: RefEntry| e@)
    }

    /// An empty store.
    pub fn new() -> (r: Repository)
        ensures
            r@ == Seq::<ObjectView>::empty(),
            r.refs() == Seq::<(Seq<char>, Seq<u8>)>::empty(),
            r.wf(),
    {
        let r = Repository { objects: Vec::new(), refs: Vec::new() };
        proof {
            assert(r@ =~= Seq::<ObjectView>::empty());
            assert(r.refs() =~= Seq::<(Seq<char>, Seq<u8>)>::empty());
        }
        r
    }

    /// Adds a reference to the repository.
    pub fn insert_ref(&mut self, name: String, target: ObjectId)
        requires
            old(self).wf(),
        ensures
            final(self).wf(),
            final(self)@ == old(self)@,
            final(self).refs() == old(self).refs().push((name@, target@)),
    {
        let ghost prev = self.refs();
        self.refs.push(RefEntry { name, target });
        proof {
            assert(self.refs() =~= prev.push(self.refs@.last()@));
        }
    }

    /// Adds an object to the store; rejects one whose payload is not well
    /// formed for its kind.
    pub fn insert(&mut self, object: Object) -> (ok: bool)
        requires
            old(self).wf(),
        ensures
            final(self).wf(),
            final(self).refs() == old(self).refs(),
            ok == header_wf(object@.kind, object@.data),
            ok ==> final(self)@ == old(self)@.push(object@),
            !ok ==> final(self)@ == old(self)@,
    {
        if check_header(&object.kind, &object.data) {
            let ghost prev = self@;
            self.objects.push(object);
            proof {
                assert(self@ =~= prev.push(object@));
            }
            true
        } else {
            false
        }
    }

    /// The target of the first reference of this name, if any.
    pub fn ref_target(&self, name: &str) -> (r: Option<ObjectId>)
        ensures
            match r {
                Some(id) => crate::ext::find_ref_in(self.refs(), name@) == Some(id@),
                None => crate::ext::find_ref_in(self.refs(), name@) is None,
            },
    {
        let n = self.refs.len();
        let mut i: usize = 0;
        proof {
            assert(self.refs().skip(0) =~= self.refs());
        }
        while i < n
            invariant
                n == self.refs@.len(),
                i <= n,
                crate::ext::find_ref_in(self.refs(), name@) == crate::ext::find_ref_in(
                    self.refs().skip(i as int),
                    name@,
                ),
            decreases n - i,
        {
            let ghost pre = self.refs().skip(i as int);
            let entry: &RefEntry = &self.refs[i];
            if crate::strutil::str_eq(entry.name.as_str(), name) {
                proof {
                    assert(pre[0] == self.refs()[i as int]);
                }
                return Some(entry.target.duplicate());
            }
            i = i + 1;
            proof {
                assert(pre[0] == self.refs()[i - 1]);
                assert(pre.skip(1) =~= self.refs().skip(i as int));
            }
        }
        proof {
            assert(self.refs().skip(n as int) =~= Seq::<(Seq<char>, Seq<u8>)>::empty());
        }
        None
    }

    /// How many objects the store holds.
    pub fn store_len(&self) -> (r: usize)
        ensures
            r == self@.len(),
    {
        self.objects.len()
    }

    /// A copy of the first stored object carrying this id.
    pub fn find_object(&self, id: &ObjectId) -> (r: Option<Object>)
        ensures
            match r {
                Some(o) => find_in(self@, id@) == Some(o@),
                None => find_in(self@, id@) is None,
            },
    {
        let n = self.objects.len();
        let mut i: usize = 0;
        proof {
            assert(self@.skip(0) =~= self@);
        }
        while i < n
            invariant
                n == self.objects@.len(),
                i <= n,
                find_in(self@, id@) == find_in(self@.skip(i as int), id@),
            decreases n - i,
        {
            let ghost pre = self@.skip(i as int);
            let candidate: &Object = &self.objects[i];
            if candidate.id.eq_id(id) {
                proof {
                    assert(pre[0] == self@[i as int]);
                }
                return Some(
                    Object {
                        id: candidate.id.duplicate(),
                        kind: candidate.kind,
                        data: copy_bytes(&candidate.data),
                    },
                );
            }
            i = i + 1;
            proof {
                assert(pre[0] == self@[i - 1]);
                assert(pre.skip(1) =~= self@.skip(i as int));
            }
        }
        proof {
            assert(self@.skip(n as int) =~= Seq::<ObjectView>::empty());
        }
        None
    }
}

/// Why an object that had to exist could not be produced.
#[derive(Debug, Clone, Copy, PartialEq, Eq)]
pub enum FindExistingError {
    /// No object of the requested id is in the store.
    NotFound,
}

/// Why a lookup itself failed. The in-memory store of this library cannot
/// corrupt, so no lookup ever produces this error; the variant stands for
/// the backend faults a persistent store could raise.
#[derive(Debug, Clone, Copy, PartialEq, Eq)]
pub enum FindError {
    Backend,
}

/// Why peeling stopped short of the requested kind.
#[derive(Debug, PartialEq, Eq)]
pub enum PeelError {
    /// A commit or tag named an object the store does not hold.
    FindExisting(FindExistingError),
    /// Peeling bottomed out at `actual` without meeting the `expected`
    /// kind.
    NotFound { actual: Kind, expected: Kind },
    /// The link chain ran a full store's worth of lookups and one more
    /// without terminating. More objects were visited after the start
    /// than the store holds, so some stored object recurred: the chain is
    /// cyclic and can never reach the requested kind.
    Cycle,
}

/// A reader over a commit payload.
#[derive(Debug)]
pub struct CommitIter<'a> {
    pub data: &'a Vec<u8>,
}

impl<'a> CommitIter<'a> {
    /// The id of the commit's tree, read from the payload's `tree ` line;
    /// `None` when the payload is not a well-formed commit.
    pub fn tree_id(&self) -> (r: Option<ObjectId>)
        ensures
            match r {
                Some(id) => valid_commit_data(self.data@) && id@ == commit_tree_id(self.data@)
                    && id.wf(),
                None => !valid_commit_data(self.data@),
            },
    {
        let d = self.data;
        if d.len() >= 46 && d[0] == LETTER_T && d[1] == LETTER_R && d[2] == LETTER_E && d[3]
            == LETTER_E && d[4] == SPACE && all_hex(d, 5, 45) && d[45] == NEWLINE {
            let id = decode_id(d, 5);
            proof {
                assert(d@.subrange(5, 45) =~= d@.subrange(5int, 5int + 40));
            }
            Some(id)
        } else {
            None
        }
    }
}

/// A reader over a tag payload.
#[derive(Debug)]
pub struct TagIter<'a> {
    pub data: &'a Vec<u8>,
}

impl<'a> TagIter<'a> {
    /// The id of the tag's target, read from the payload's `object `
    /// line; `None` when the payload is not a well-formed tag.
    pub fn target_id(&self) -> (r: Option<ObjectId>)
        ensures
            match r {
                Some(id) => valid_tag_data(self.data@) && id@ == tag_target_id(self.data@)
                    && id.wf(),
                None => !valid_tag_data(self.data@),
            },
    {
        let d = self.data;
        if d.len() >= 48 && d[0] == LETTER_O && d[1] == LETTER_B && d[2] == LETTER_J && d[3]
            == LETTER_E && d[4] == LETTER_C && d[5] == LETTER_T && d[6] == SPACE && all_hex(
            d,
            7,
            47,
        ) && d[47] == NEWLINE {
            let id = decode_id(d, 7);
            proof {
                assert(d@.subrange(7, 47) =~= d@.subrange(7int, 7int + 40));
            }
            Some(id)
        } else {
            None
        }
    }
}

/// An object attached to the repository it was produced from.
#[derive(Debug)]
pub struct ObjectRef<'repo> {
    pub id: ObjectId,
    pub kind: Kind,
    pub data: Vec<u8>,
    pub access: &'repo Repository,
}

impl<'repo> View for ObjectRef<'repo> {
    type V = ObjectView;

    open spec fn view(&self) -> ObjectView {
        ObjectView { id: self.id@, kind: self.kind, data: self.data@ }
    }
}

/// The first stored object of this id, attached to its repository; an
/// error when the store holds none.
pub fn find_existing_object<'repo>(access: &'repo Repository, id: &ObjectId) -> (r: Result<
    ObjectRef<'repo>,
    FindExistingError,
>)
    ensures
        match r {
            Ok(o) => find_in(access@, id@) == Some(o@) && o.access@ == access@,
            Err(e) => find_in(access@, id@) is None && e == FindExistingError::NotFound,
        },
{
    match access.find_object(id) {
        Some(o) => Ok(ObjectRef { id: o.id, kind: o.kind, data: o.data, access }),
        None => Err(FindExistingError::NotFound),
    }
}

impl Object {
    /// Attaches the object to a repository, so that it can be peeled
    /// against that repository's store.
    pub fn attach<'repo>(self, access: &'repo Repository) -> (r: ObjectRef<'repo>)
        ensures
            r@ == self@,
            r.access@ == access@,
    {
        ObjectRef { id: self.id, kind: self.kind, data: self.data, access }
    }
}

impl<'repo> ObjectRef<'repo> {
    /// An attached object built from already-loaded parts.
    pub fn from_current_buf(id: ObjectId, kind: Kind, data: Vec<u8>, access: &'repo Repository) -> (
        r: ObjectRef<'repo>)
        ensures
            r@ == (ObjectView { id: id@, kind, data: data@ }),
            r.access@ == access@,
    {
        ObjectRef { id, kind, data, access }
    }

    /// A detached copy of the object.
    pub fn to_owned(&self) -> (r: Object)
        ensures
            r@ == self@,
    {
        Object { id: self.id.duplicate(), kind: self.kind, data: copy_bytes(&self.data) }
    }

    /// The object, detached from its repository.
    pub fn into_owned(self) -> (r: Object)
        ensures
            r@ == self@,
    {
        Object { id: self.id, kind: self.kind, data: self.data }
    }

    /// The object, detached from its repository.
    pub fn detach(self) -> (r: Object)
        ensures
            r@ == self@,
    {
        self.into_owned()
    }

    /// A commit reader over the payload, for a commit object.
    pub fn to_commit_iter(&self) -> (r: Option<CommitIter<'_>>)
        ensures
            match r {
                Some(it) => self.kind == Kind::Commit && it.data@ == self.data@,
                None => self.kind != Kind::Commit,
            },
    {
        match self.kind {
            Kind::Commit => Some(CommitIter { data: &self.data }),
            _ => None,
        }
    }

    /// A tag reader over the payload, for a tag object.
    pub fn to_tag_iter(&self) -> (r: Option<TagIter<'_>>)
        ensures
            match r {
                Some(it) => self.kind == Kind::Tag && it.data@ == self.data@,
                None => self.kind != Kind::Tag,
            },
    {
        match self.kind {
            Kind::Tag => Some(TagIter { data: &self.data }),
            _ => None,
        }
    }

    /// Follows commit-tree and tag-target links until an object of the
    /// requested kind is reached.
    ///
    /// The result, when peeling succeeds, is an object some number of
    /// peel steps away from this one, of the requested kind, and every
    /// object passed on the way was of another kind. Peeling stops with
    /// an error at a tree or blob of the wrong kind, or when a link names
    /// an object the store does not hold.
    pub fn peel_to_kind(self, kind: Kind) -> (r: Result<ObjectRef<'repo>, PeelError>)
        requires
            self.access.wf(),
            header_wf(self.kind, self.data@),
        ensures
            match r {
                Ok(o) => o.access@ == self.access@ && o.kind == kind && exists|n: nat|
                    peeled(self.access@, self@, kind, n) == Some(o@),
                Err(PeelError::NotFound { actual, expected }) => {
                    &&& expected == kind
                    &&& actual != kind
                    &&& (actual == Kind::Tree || actual == Kind::Blob)
                    &&& exists|n: nat|
                        #[trigger] peeled(self.access@, self@, kind, n) matches Some(w)
                            && w.kind == actual
                },
                Err(PeelError::FindExisting(e)) => {
                    &&& e == FindExistingError::NotFound
                    &&& exists|n: nat|
                        #[trigger] peeled(self.access@, self@, kind, n) matches Some(w)
                            && link_id(w) matches Some(id) && find_in(self.access@, id) is None
                },
                Err(PeelError::Cycle) => peeled(
                    self.access@,
                    self@,
                    kind,
                    (self.access@.len() + 1) as nat,
                ) is Some,
            },
    {
        let ghost repo = self.access@;
        let ghost v0 = self@;
        let limit = self.access.store_len();
        let mut used: usize = 0;
        let mut cur = self;
        #[verifier::loop_isolation(false)]
        loop
            invariant
                cur.access.wf(),
                cur.access@ == repo,
                header_wf(cur.kind, cur.data@),
                used <= limit,
                limit == repo.len(),
                peel_steps(repo, v0, used as nat) == Some(cur@),
                forall|m: nat|
                    m < used as nat ==> ((#[trigger] peel_steps(repo, v0, m)) matches Some(w)
                        && w.kind != kind),
            decreases limit - used,
        {
            proof {
                lemma_peeled_here(repo, v0, kind, used as nat, cur@);
            }
            if kinds_equal(&cur.kind, &kind) {
                return Ok(cur);
            }
            let link: Option<ObjectId> = match cur.kind {
                Kind::Commit => {
                    let it = cur.to_commit_iter().unwrap();
                    let id = it.tree_id().unwrap();
                    Some(id)
                },
                Kind::Tag => {
                    let it = cur.to_tag_iter().unwrap();
                    let id = it.target_id().unwrap();
                    Some(id)
                },
                Kind::Tree | Kind::Blob => None,
            };
            match link {
                None => {
                    return Err(PeelError::NotFound { actual: cur.kind, expected: kind });
                },
                Some(id) => {
                    proof {
                        assert(link_id(cur@) == Some(id@));
                    }
                    let access = cur.access;
                    match find_existing_object(access, &id) {
                        Ok(next) => {
                            proof {
                                lemma_find_in_member(repo, id@);
                                assert(peel_steps(repo, v0, used as nat + 1) == Some(next@));
                                assert(forall|m: nat|
                                    m < used as nat + 1 ==> ((#[trigger] peel_steps(repo, v0, m))
                                        matches Some(w) && w.kind != kind));
                            }
                            if used == limit {
                                proof {
                                    lemma_peeled_here(repo, v0, kind, (limit + 1) as nat, next@);
                                }
                                return Err(PeelError::Cycle);
                            }
                            used = used + 1;
                            cur = next;
                        },
                        Err(e) => {
                            return Err(PeelError::FindExisting(e));
                        },
                    }
                },
            }
        }
    }
}

/// The object `n` peel steps away, provided no earlier step already
/// reached the requested kind: the chain `peel_to_kind` walks, step by
/// step.
pub open spec fn peeled(repo: Seq<ObjectView>, from: ObjectView, kind: Kind, n: nat) -> Option<
    ObjectView,
> {
    if (forall|m: nat|
        m < n ==> ((#[trigger] peel_steps(repo, from, m)) matches Some(w) && w.kind != kind)) {
        peel_steps(repo, from, n)
    } else {
        None
    }
}

/// At the loop's state the chain predicate coincides with the plain step
/// count.
proof fn lemma_peeled_here(
    repo: Seq<ObjectView>,
    from: ObjectView,
    kind: Kind,
    n: nat,
    cur: ObjectView,
)
    requires
        peel_steps(repo, from, n) == Some(cur),
        forall|m: nat|
            m < n ==> ((#[trigger] peel_steps(repo, from, m)) matches Some(w) && w.kind != kind),
    ensures
        peeled(repo, from, kind, n) == Some(cur),
{
}

/// True iff the two kinds are the same.
fn kinds_equal(a: &Kind, b: &Kind) -> (r: bool)
    ensures
        r == (a == b),
{
    match (a, b) {
        (Kind::Commit, Kind::Commit) => true,
        (Kind::Tree, Kind::Tree) => true,
        (Kind::Tag, Kind::Tag) => true,
        (Kind::Blob, Kind::Blob) => true,
        _ => false,
    }
}

/// An object id attached to the repository it can be resolved in.
#[derive(Debug)]
pub struct Oid<'repo> {
    pub id: ObjectId,
    pub access: &'repo Repository,
}

impl<'repo> Oid<'repo> {
    /// Attaches an id to a repository.
    pub fn from_id(id: ObjectId, access: &'repo Repository) -> (r: Oid<'repo>)
        ensures
            r.id@ == id@,
            r.access@ == access@,
    {
        Oid { id, access }
    }

    /// The bare id, detached from its repository.
    pub fn detach(self) -> (r: ObjectId)
        ensures
            r@ == self.id@,
    {
        self.id
    }

    /// The object this id names, which must exist in the store.
    pub fn existing_object(&self) -> (r: Result<ObjectRef<'repo>, FindExistingError>)
        ensures
            match r {
                Ok(o) => find_in(self.access@, self.id@) == Some(o@) && o.access@ == self.access@,
                Err(e) => find_in(self.access@, self.id@) is None && e
                    == FindExistingError::NotFound,
            },
    {
        find_existing_object(self.access, &self.id)
    }

    /// The object this id names, if the store holds one. The in-memory
    /// store cannot fail, so the result is always `Ok`.
    pub fn object(&self) -> (r: Result<Option<ObjectRef<'repo>>, FindError>)
        ensures
            r matches Ok(opt) && (match opt {
                Some(o) => find_in(self.access@, self.id@) == Some(o@) && o.access@
                    == self.access@,
                None => find_in(self.access@, self.id@) is None,
            }),
    {
        match self.access.find_object(&self.id) {
            Some(o) => Ok(
                Some(ObjectRef { id: o.id, kind: o.kind, data: o.data, access: self.access }),
            ),
            None => Ok(None),
        }
    }
}

/// True iff the payload is well formed for the kind.
fn check_header(kind: &Kind, data: &Vec<u8>) -> (r: bool)
    ensures
        r == header_wf(*kind, data@),
{
    match kind {
        Kind::Commit => {
            data.len() >= 46 && data[0] == LETTER_T && data[1] == LETTER_R && data[2] == LETTER_E
                && data[3] == LETTER_E && data[4] == SPACE && all_hex(data, 5, 45) && data[45]
                == NEWLINE
        },
        Kind::Tag => {
            data.len() >= 48 && data[0] == LETTER_O && data[1] == LETTER_B && data[2] == LETTER_J
                && data[3] == LETTER_E && data[4] == LETTER_C && data[5] == LETTER_T && data[6]
                == SPACE && all_hex(data, 7, 47) && data[47] == NEWLINE
        },
        Kind::Tree | Kind::Blob => true,
    }
}

} // verus!
