//! The bot's credentials, from the values of the `API_ID`, `API_HASH` and `BOT_TOKEN`
//! environment variables.
use vstd::prelude::*;
use crate::foreign::{parse_i32, spec_parse_i32};
use crate::text::opt_string_view;

verus! {

/// What the bot needs to connect to Telegram.
#[derive(Clone)]
pub struct Credentials {
    pub api_id: i32,
    pub api_hash: String,
    pub bot_token: String,
}

/// Why the credentials cannot be had.
#[derive(PartialEq, Eq, Structural, Clone, Copy, Debug)]
pub enum CredentialsError {
    /// `API_ID` is not set.
    ApiIdNotSet,
    /// `API_ID` is not a 32-bit integer.
    ApiIdInvalid,
    /// `API_HASH` is not set.
    ApiHashNotSet,
    /// `BOT_TOKEN` is not set.
    BotTokenNotSet,
}

impl CredentialsError {
    /// The error's message.
    pub fn message(&self) -> (m: &'static str)
        ensures
            *self == CredentialsError::ApiIdNotSet ==> m == "API_ID env is not set",
            *self == CredentialsError::ApiIdInvalid ==> m == "Failed to parse API_ID",
            *self == CredentialsError::ApiHashNotSet ==> m == "API_HASH env is not set",
            *self == CredentialsError::BotTokenNotSet ==> m == "BOT_TOKEN env is not set",
    {
        match self {
            CredentialsError::ApiIdNotSet => "API_ID env is not set",
            CredentialsError::ApiIdInvalid => "Failed to parse API_ID",
            CredentialsError::ApiHashNotSet => "API_HASH env is not set",
            CredentialsError::BotTokenNotSet => "BOT_TOKEN env is not set",
        }
    }
}

/// The credentials from the three variables' values (`None` for a variable that is not
/// set), checked in order: `API_ID` set, `API_ID` an `i32`, `API_HASH` set, `BOT_TOKEN` set.
pub fn load_credentials(
    api_id: Option<String>,
    api_hash: Option<String>,
    bot_token: Option<String>,
) -> (r: Result<Credentials, CredentialsError>)
    ensures
        match r {
            Ok(c) => {
                &&& api_id matches Some(id) && spec_parse_i32(id@) == Some(c.api_id)
                &&& opt_string_view(api_hash) == Some(c.api_hash@)
                &&& opt_string_view(bot_token) == Some(c.bot_token@)
            },
            Err(e) => e == if api_id is None {
                CredentialsError::ApiIdNotSet
            } else if spec_parse_i32(api_id.unwrap()@) is None {
                CredentialsError::ApiIdInvalid
            } else if api_hash is None {
                CredentialsError::ApiHashNotSet
            } else {
                CredentialsError::BotTokenNotSet
            },
        },
        r is Err <==> (api_id is None || spec_parse_i32(api_id.unwrap()@) is None || api_hash is None
            || bot_token is None),
{
    let api_id_text = match api_id {
        Some(text) => text,
        None => return Err(CredentialsError::ApiIdNotSet),
    };
    let api_id = match parse_i32(api_id_text.as_str()) {
        Some(id) => id,
        None => return Err(CredentialsError::ApiIdInvalid),
    };
    let api_hash = match api_hash {
        Some(hash) => hash,
        None => return Err(CredentialsError::ApiHashNotSet),
    };
    let bot_token = match bot_token {
        Some(token) => token,
        None => return Err(CredentialsError::BotTokenNotSet),
    };
    Ok(Credentials { api_id, api_hash, bot_token })
}

} // verus!
