//! A collection: a named, user-owned grouping of hitokoto references.

use vstd::prelude::*;
use crate::error::AppError;
use crate::gen;
use crate::text;

verus! {

/// A named grouping of hitokoto uuids owned by one user. Its membership
/// list never holds the same uuid twice.
#[derive(Debug, Clone)]
pub struct Collection {
    pub collection_uuid: String,
    pub title: String,
    pub description: Option<String>,
    pub user_id: u32,
    pub hitokoto_uuids: Vec<String>,
    pub created_at: u64,
}

/// A request to create a collection.
#[derive(Debug, Clone)]
pub struct NewCollectionRequest {
    pub user_id: u32,
    pub title: String,
    pub description: Option<String>,
}

/// A request to add a hitokoto to a collection.
#[derive(Debug, Clone)]
pub struct AddToCollectionRequest {
    pub hitokoto_uuid: String,
}

/// The mathematical content of a collection.
pub struct CollectionView {
    pub collection_uuid: Seq<char>,
    pub title: Seq<char>,
    pub description: Option<Seq<char>>,
    pub user_id: u32,
    pub hitokoto_uuids: Seq<Seq<char>>,
    pub created_at: u64,
}

impl View for Collection {
    type V = CollectionView;

    open spec fn view(&self) -> CollectionView {
        CollectionView {
            collection_uuid: self.collection_uuid@,
            title: self.title@,
            description: self.description.deep_view(),
            user_id: self.user_id,
            hitokoto_uuids: self.hitokoto_uuids.deep_view(),
            created_at: self.created_at,
        }
    }
}

impl DeepView for Collection {
    type V = CollectionView;

    open spec fn deep_view(&self) -> CollectionView {
        self.view()
    }
}

impl Collection {
    /// An independent copy with the same content.
    pub fn duplicate(&self) -> (r: Self)
        ensures
            r@ == self@,
    {
        proof {
            broadcast use vstd::std_specs::vec::vec_clone_deep_view_proof;

        }
        Collection {
            collection_uuid: self.collection_uuid.clone(),
            title: self.title.clone(),
            description: self.description.clone(),
            user_id: self.user_id,
            hitokoto_uuids: self.hitokoto_uuids.clone(),
            created_at: self.created_at,
        }
    }

    /// The membership list holds no uuid twice.
    pub open spec fn wf(&self) -> bool {
        forall|i: int, j: int|
            0 <= i < j < self.hitokoto_uuids@.len() ==> self.hitokoto_uuids@[i]@
                != self.hitokoto_uuids@[j]@
    }

    /// Builds a collection with a fresh uuid, empty membership and the
    /// current time; rejects a title that is empty once trimmed.
    pub fn new(title: String, description: Option<String>, user_id: u32) -> (r: Result<
        Self,
        AppError,
    >)
        ensures
            text::is_blank(title@) <==> r is Err,
            r is Err ==> (r matches Err(AppError::Collection(m)) && m@ == "文集标题不能为空"@),
            r matches Ok(c) ==> c.title@ == title@ && c.description == description && c.user_id
                == user_id && c.hitokoto_uuids@.len() == 0 && c.collection_uuid@.len() == 36
                && c.wf(),
    {
        if text::trimmed_empty(title.as_str()) {
            return Err(AppError::Collection("文集标题不能为空".to_owned()));
        }

        let collection_uuid = gen::fresh_uuid();
        let created_at = gen::now_secs();

        Ok(
            Collection {
                collection_uuid,
                title,
                description,
                user_id,
                hitokoto_uuids: Vec::new(),
                created_at,
            },
        )
    }

    /// Appends the uuid to the membership unless it is already present;
    /// re-adding an existing member is a silent no-op.
    pub fn add_hitokoto(&mut self, hitokoto_uuid: String)
        ensures
            final(self).hitokoto_uuids@ == text::add_unique(old(self).hitokoto_uuids@, hitokoto_uuid),
            final(self).collection_uuid == old(self).collection_uuid,
            final(self).title == old(self).title,
            final(self).description == old(self).description,
            final(self).user_id == old(self).user_id,
            final(self).created_at == old(self).created_at,
            old(self).wf() ==> final(self).wf(),
    {
        if !text::str_vec_contains(&self.hitokoto_uuids, hitokoto_uuid.as_str()) {
            self.hitokoto_uuids.push(hitokoto_uuid);
        }
    }

    /// Removes the first entry equal to the uuid; reports whether one was found.
    pub fn remove_hitokoto(&mut self, hitokoto_uuid: &str) -> (r: bool)
        ensures
            r == text::contains_string(old(self).hitokoto_uuids@, hitokoto_uuid@),
            r ==> exists|i: int|
                0 <= i < old(self).hitokoto_uuids@.len() && old(self).hitokoto_uuids@[i]@
                    == hitokoto_uuid@ && (forall|j: int|
                    0 <= j < i ==> old(self).hitokoto_uuids@[j]@ != hitokoto_uuid@)
                    && final(self).hitokoto_uuids@ == old(self).hitokoto_uuids@.remove(i),
            !r ==> final(self).hitokoto_uuids@ == old(self).hitokoto_uuids@,
            final(self).collection_uuid == old(self).collection_uuid,
            final(self).title == old(self).title,
            final(self).description == old(self).description,
            final(self).user_id == old(self).user_id,
            final(self).created_at == old(self).created_at,
            old(self).wf() ==> final(self).wf(),
    {
        let ghost pre = *self;
        match text::str_vec_index_of(&self.hitokoto_uuids, hitokoto_uuid) {
            Some(i) => {
                self.hitokoto_uuids.remove(i);
                proof {
                    if pre.wf() {
                        assert forall|a: int, b: int|
                            0 <= a < b < self.hitokoto_uuids@.len() implies self.hitokoto_uuids@[a]@
                            != self.hitokoto_uuids@[b]@ by {
                            assert(self.hitokoto_uuids@[a] == if a < i {
                                pre.hitokoto_uuids@[a]
                            } else {
                                pre.hitokoto_uuids@[a + 1]
                            });
                            assert(self.hitokoto_uuids@[b] == if b < i {
                                pre.hitokoto_uuids@[b]
                            } else {
                                pre.hitokoto_uuids@[b + 1]
                            });
                        }
                    }
                }
                true
            },
            None => false,
        }
    }
}

/// Adding the same member uuid twice is idempotent: a membership that
/// did not hold the uuid holds exactly one occurrence after the first
/// add, and the second add changes nothing.
pub proof fn lemma_add_member_twice(l: Seq<String>, x: String, y: String)
    requires
        x@ == y@,
        !text::contains_string(l, x@),
    ensures
        text::add_unique(text::add_unique(l, x), y) == text::add_unique(l, x),
        exists|i: int|
            0 <= i < text::add_unique(l, x).len() && text::add_unique(l, x)[i]@ == x@ && (forall|
                j: int,
            |
                0 <= j < text::add_unique(l, x).len() && j != i ==> text::add_unique(l, x)[j]@
                    != x@),
{
    let once = text::add_unique(l, x);
    assert(once == l.push(x));
    let last = l.len() as int;
    assert(once[last]@ == x@);
    assert(forall|j: int| 0 <= j < last ==> once[j] == l[j]);
    assert(text::contains_string(once, y@));
}

} // verus!
