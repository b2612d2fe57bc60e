//! User records: one row per chat identity that has interacted with the bot.
use vstd::prelude::*;

verus! {

/// A user of the bot. Identity is the externally assigned `tg_user_id`,
/// unique across the store; `tg_chat_id` is the target messages are sent to.
pub struct User {
    pub first_name: String,
    pub last_name: Option<String>,
    pub username: Option<String>,
    pub tg_user_id: i64,
    pub tg_chat_id: i64,
}

fn clone_opt_string(s: &Option<String>) -> (res: Option<String>)
    ensures
        res == *s,
{
    match s {
        Some(v) => Some(v.clone()),
        None => None,
    }
}

impl Clone for User {
    fn clone(&self) -> (res: Self)
        ensures
            res == *self,
    {
        User {
            first_name: self.first_name.clone(),
            last_name: clone_opt_string(&self.last_name),
            username: clone_opt_string(&self.username),
            tg_user_id: self.tg_user_id,
            tg_chat_id: self.tg_chat_id,
        }
    }
}

} // verus!
