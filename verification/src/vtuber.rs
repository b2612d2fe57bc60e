//! Creator records: the roster entries the bot tracks, the waves they are
//! grouped into, and the fixed debut order of those waves.
use vstd::prelude::*;
use crate::text::str_eq;

verus! {

/// A creator tracked by the bot. Identity is the internal `id`; the pair of
/// first and last name is unique across the roster and is what callback
/// payloads carry.
pub struct Vtuber {
    pub id: i64,
    pub first_name: String,
    pub last_name: String,
    pub wave_name: String,
    pub emoji: String,
    pub youtube_channel_id: String,
    pub youtube_handle: String,
}

impl Clone for Vtuber {
    fn clone(&self) -> (res: Self)
        ensures
            res == *self,
    {
        Vtuber {
            id: self.id,
            first_name: self.first_name.clone(),
            last_name: self.last_name.clone(),
            wave_name: self.wave_name.clone(),
            emoji: self.emoji.clone(),
            youtube_channel_id: self.youtube_channel_id.clone(),
            youtube_handle: self.youtube_handle.clone(),
        }
    }
}

/// A named wave together with its members, as the seed data lists them.
pub struct VtuberWave {
    pub name: String,
    pub members: Vec<Vtuber>,
}

/// The fixed debut order of the waves. Menu screens list waves in this
/// order, never in store order. An unknown wave name has no position.
pub open spec fn wave_order_spec(name: Seq<char>) -> Option<i64> {
    if name == "LazuLight"@ {
        Some(1i64)
    } else if name == "OBSYDIA"@ {
        Some(2i64)
    } else if name == "Ethyria"@ {
        Some(3i64)
    } else if name == "Luxiem"@ {
        Some(4i64)
    } else if name == "Noctyx"@ {
        Some(5i64)
    } else if name == "ILUNA"@ {
        Some(6i64)
    } else if name == "XSOLEIL"@ {
        Some(7i64)
    } else if name == "Krisis"@ {
        Some(8i64)
    } else {
        None
    }
}

/// Looks a wave name up in the fixed debut order.
pub fn wave_order(name: &str) -> (r: Option<i64>)
    ensures
        r == wave_order_spec(name@),
{
    if str_eq(name, "LazuLight") {
        Some(1)
    } else if str_eq(name, "OBSYDIA") {
        Some(2)
    } else if str_eq(name, "Ethyria") {
        Some(3)
    } else if str_eq(name, "Luxiem") {
        Some(4)
    } else if str_eq(name, "Noctyx") {
        Some(5)
    } else if str_eq(name, "ILUNA") {
        Some(6)
    } else if str_eq(name, "XSOLEIL") {
        Some(7)
    } else if str_eq(name, "Krisis") {
        Some(8)
    } else {
        None
    }
}

} // verus!
