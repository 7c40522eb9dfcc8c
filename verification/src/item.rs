//! A hitokoto item variant whose timestamp is kept as text.

use vstd::prelude::*;
use vstd::string::StrSliceExecFns;
use crate::dec;
use crate::gen;

verus! {

/// A hitokoto entry whose creation time is a decimal numeral string.
#[derive(Debug, Clone)]
pub struct HitokotoItem {
    pub uuid: String,
    pub hitokoto: String,
    pub item_type: String,
    pub from: String,
    pub from_who: Option<String>,
    pub user: String,
    pub user_id: u32,
    pub created_at: String,
    pub length: u32,
}

/// A submitted item: no uuid, user id, timestamp or length yet.
#[derive(Debug, Clone)]
pub struct RequestedHitokotoItem {
    pub hitokoto: String,
    pub item_type: String,
    pub from: String,
    pub from_who: Option<String>,
    pub user: String,
}

impl HitokotoItem {
    /// Builds an item from the submitted fields: a fresh uuid, the current
    /// time written as a decimal numeral, a zero user id, and the character
    /// count of the text as its length.
    pub fn new(
        hitokoto: String,
        item_type: String,
        from: String,
        from_who: Option<String>,
        user: String,
    ) -> (r: Self)
        requires
            hitokoto@.len() <= u32::MAX,
        ensures
            r.hitokoto@ == hitokoto@,
            r.item_type@ == item_type@,
            r.from@ == from@,
            r.from_who == from_who,
            r.user@ == user@,
            r.user_id == 0,
            r.length as nat == hitokoto@.len(),
            r.uuid@.len() == 36,
            exists|t: u64| r.created_at@ == dec::dec_digits(t as nat),
    {
        let uuid = gen::fresh_uuid();
        let now = gen::now_secs();
        let created_at = dec::u64_to_string(now);
        let n = hitokoto.as_str().unicode_len();
        let length: u32 = n as u32;
        proof {
            assert(created_at@ == dec::dec_digits(now as nat));
        }
        HitokotoItem {
            uuid,
            hitokoto,
            item_type,
            from,
            from_who,
            user,
            user_id: 0,
            created_at,
            length,
        }
    }
}

} // verus!
