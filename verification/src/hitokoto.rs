//! The hitokoto record: an attributed text, immutable once created.

use vstd::prelude::*;
use vstd::string::StrSliceExecFns;
use crate::gen;

verus! {

/// A stored hitokoto entry. `length` is always derived from the text,
/// never supplied by a caller.
#[derive(Debug, Clone)]
pub struct Hitokoto {
    pub uuid: String,
    pub hitokoto: String,
    pub hitokoto_type: String,
    pub from: String,
    pub from_who: Option<String>,
    pub user: String,
    pub user_id: u32,
    pub created_at: u64,
    pub length: u32,
}

/// A submitted hitokoto: no uuid, creator name, timestamp or length yet.
#[derive(Debug, Clone)]
pub struct NewHitokotoRequest {
    pub hitokoto: String,
    pub hitokoto_type: String,
    pub from: String,
    pub from_who: Option<String>,
    pub user_id: u32,
}

/// The mathematical content of a hitokoto record.
pub struct HitokotoView {
    pub uuid: Seq<char>,
    pub hitokoto: Seq<char>,
    pub hitokoto_type: Seq<char>,
    pub from: Seq<char>,
    pub from_who: Option<Seq<char>>,
    pub user: Seq<char>,
    pub user_id: u32,
    pub created_at: u64,
    pub length: u32,
}

impl View for Hitokoto {
    type V = HitokotoView;

    open spec fn view(&self) -> HitokotoView {
        HitokotoView {
            uuid: self.uuid@,
            hitokoto: self.hitokoto@,
            hitokoto_type: self.hitokoto_type@,
            from: self.from@,
            from_who: self.from_who.deep_view(),
            user: self.user@,
            user_id: self.user_id,
            created_at: self.created_at,
            length: self.length,
        }
    }
}

impl DeepView for Hitokoto {
    type V = HitokotoView;

    open spec fn deep_view(&self) -> HitokotoView {
        self.view()
    }
}

impl Hitokoto {
    /// An independent copy with the same content.
    pub fn duplicate(&self) -> (r: Self)
        ensures
            r@ == self@,
    {
        Hitokoto {
            uuid: self.uuid.clone(),
            hitokoto: self.hitokoto.clone(),
            hitokoto_type: self.hitokoto_type.clone(),
            from: self.from.clone(),
            from_who: self.from_who.clone(),
            user: self.user.clone(),
            user_id: self.user_id,
            created_at: self.created_at,
            length: self.length,
        }
    }

    /// Builds a record from the submitted fields: a fresh uuid, the
    /// current time, and the character count of the text as its length.
    pub fn new(
        hitokoto: String,
        hitokoto_type: String,
        from: String,
        from_who: Option<String>,
        user: String,
        user_id: u32,
    ) -> (r: Self)
        requires
            hitokoto@.len() <= u32::MAX,
        ensures
            r.hitokoto@ == hitokoto@,
            r.hitokoto_type@ == hitokoto_type@,
            r.from@ == from@,
            r.from_who == from_who,
            r.user@ == user@,
            r.user_id == user_id,
            r.length as nat == hitokoto@.len(),
            r.uuid@.len() == 36,
    {
        let uuid = gen::fresh_uuid();
        let created_at = gen::now_secs();
        let n = hitokoto.as_str().unicode_len();
        let length: u32 = n as u32;
        Hitokoto {
            uuid,
            hitokoto,
            hitokoto_type,
            from,
            from_who,
            user,
            user_id,
            created_at,
            length,
        }
    }
}

} // verus!
