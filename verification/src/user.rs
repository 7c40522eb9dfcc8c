//! The user account: a name and the references it owns.

use vstd::prelude::*;
use crate::collection::Collection;
use crate::error::AppError;
use crate::gen;
use crate::hitokoto::Hitokoto;
use crate::text;

verus! {

/// An account. The two reference lists only ever grow, through the
/// sanctioned record-ownership operations below.
#[derive(Debug, Clone)]
pub struct User {
    pub user_id: u32,
    pub username: String,
    pub hitokotos: Vec<String>,
    pub collections: Vec<String>,
}

/// A user registration request.
#[derive(Debug, Clone)]
pub struct NewUserRequest {
    pub username: String,
}

/// A user with every owned reference resolved to its record.
#[derive(Debug, Clone)]
pub struct UserWithDetails {
    pub user_id: u32,
    pub username: String,
    pub hitokotos: Vec<Hitokoto>,
    pub collections: Vec<CollectionWithDetails>,
}

/// A collection with every member reference resolved to its record.
#[derive(Debug, Clone)]
pub struct CollectionWithDetails {
    pub collection_uuid: String,
    pub title: String,
    pub description: Option<String>,
    pub user_id: u32,
    pub hitokotos: Vec<Hitokoto>,
    pub created_at: u64,
}

/// The mathematical content of a user account.
pub struct UserView {
    pub user_id: u32,
    pub username: Seq<char>,
    pub hitokotos: Seq<Seq<char>>,
    pub collections: Seq<Seq<char>>,
}

impl View for User {
    type V = UserView;

    open spec fn view(&self) -> UserView {
        UserView {
            user_id: self.user_id,
            username: self.username@,
            hitokotos: self.hitokotos.deep_view(),
            collections: self.collections.deep_view(),
        }
    }
}

impl DeepView for User {
    type V = UserView;

    open spec fn deep_view(&self) -> UserView {
        self.view()
    }
}

/// The mathematical content of a resolved collection.
pub struct CollectionWithDetailsView {
    pub collection_uuid: Seq<char>,
    pub title: Seq<char>,
    pub description: Option<Seq<char>>,
    pub user_id: u32,
    pub hitokotos: Seq<crate::hitokoto::HitokotoView>,
    pub created_at: u64,
}

impl View for CollectionWithDetails {
    type V = CollectionWithDetailsView;

    open spec fn view(&self) -> CollectionWithDetailsView {
        CollectionWithDetailsView {
            collection_uuid: self.collection_uuid@,
            title: self.title@,
            description: self.description.deep_view(),
            user_id: self.user_id,
            hitokotos: self.hitokotos.deep_view(),
            created_at: self.created_at,
        }
    }
}

impl DeepView for CollectionWithDetails {
    type V = CollectionWithDetailsView;

    open spec fn deep_view(&self) -> CollectionWithDetailsView {
        self.view()
    }
}

impl User {
    /// An independent copy with the same content.
    pub fn duplicate(&self) -> (r: Self)
        ensures
            r@ == self@,
    {
        proof {
            broadcast use vstd::std_specs::vec::vec_clone_deep_view_proof;

        }
        User {
            user_id: self.user_id,
            username: self.username.clone(),
            hitokotos: self.hitokotos.clone(),
            collections: self.collections.clone(),
        }
    }

    /// Builds an account with a fresh numeric id and empty reference
    /// lists; rejects a username that is empty once trimmed.
    pub fn new(username: String) -> (r: Result<User, AppError>)
        ensures
            text::is_blank(username@) <==> r is Err,
            r is Err ==> (r matches Err(AppError::User(m)) && m@ == "用户名不能为空"@),
            r matches Ok(u) ==> u.username@ == username@ && u.hitokotos@.len() == 0
                && u.collections@.len() == 0,
    {
        if text::trimmed_empty(username.as_str()) {
            return Err(AppError::User("用户名不能为空".to_owned()));
        }

        let user_id = gen::fresh_user_id();
        Ok(User { user_id, username, hitokotos: Vec::new(), collections: Vec::new() })
    }

    /// Records ownership of a hitokoto by appending its uuid.
    pub fn add_hitokoto_uuid(&mut self, uuid: String)
        ensures
            final(self).hitokotos@ == old(self).hitokotos@.push(uuid),
            final(self).user_id == old(self).user_id,
            final(self).username == old(self).username,
            final(self).collections == old(self).collections,
    {
        self.hitokotos.push(uuid);
    }

    /// Records ownership of a collection by appending its id, unless an
    /// equal id is already recorded.
    pub fn add_collection_id(&mut self, collection_id: String)
        ensures
            final(self).collections@ == text::add_unique(old(self).collections@, collection_id),
            final(self).user_id == old(self).user_id,
            final(self).username == old(self).username,
            final(self).hitokotos == old(self).hitokotos,
    {
        if !text::str_vec_contains(&self.collections, collection_id.as_str()) {
            self.collections.push(collection_id);
        }
    }
}

} // verus!
