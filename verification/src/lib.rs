pub mod collection;
pub mod dec;
pub mod error;
mod gen;
pub mod hitokoto;
pub mod item;
pub mod json;
pub mod password;
pub mod persist;
pub mod storage;
pub mod text;
pub mod user;

pub use collection::{AddToCollectionRequest, Collection, NewCollectionRequest};
pub use error::{AppError, AppResult, ErrorResponse};
pub use hitokoto::{Hitokoto, NewHitokotoRequest};
pub use item::{HitokotoItem, RequestedHitokotoItem};
pub use password::HashedPassword;
pub use storage::{
    add_hitokoto_to_collection, add_hitokoto_to_data, add_user_to_state, create_collection,
    get_random_hitokoto, get_user_by_id, get_user_with_details, AppState,
};
pub use user::{CollectionWithDetails, NewUserRequest, User, UserWithDetails};

use vstd::prelude::*;

verus! {

/// The element-wise deep view of a sequence.
pub open spec fn deep_seq<T: DeepView>(s: Seq<T>) -> Seq<T::V> {
    s.map_values(|t: T| t.deep_view())
}

/// Deep views commute with appending one element.
pub proof fn lemma_deep_seq_push<T: DeepView>(s: Seq<T>, x: T)
    ensures
        deep_seq(s.push(x)) == deep_seq(s).push(x.deep_view()),
{
    assert(deep_seq(s.push(x)) =~= deep_seq(s).push(x.deep_view()));
}

} // verus!
