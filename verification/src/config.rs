//! Static configuration of the bot process, loaded once at startup.
use vstd::prelude::*;

verus! {

/// Secrets and tunables read at startup. The poll interval
/// (`timer_duration_sec`) drives the notify cycle; the rest is wiring for
/// the unverified edges of the process.
pub struct Config {
    pub holodex_api_key: String,
    pub telegram_bot_token: String,
    pub sql_connection_string: String,
    pub startup_data_path: String,
    pub max_connections: u32,
    pub timer_duration_sec: u64,
}

impl Clone for Config {
    fn clone(&self) -> (res: Self)
        ensures
            res == *self,
    {
        Config {
            holodex_api_key: self.holodex_api_key.clone(),
            telegram_bot_token: self.telegram_bot_token.clone(),
            sql_connection_string: self.sql_connection_string.clone(),
            startup_data_path: self.startup_data_path.clone(),
            max_connections: self.max_connections,
            timer_duration_sec: self.timer_duration_sec,
        }
    }
}

} // verus!
