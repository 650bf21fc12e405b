//! What a run is configured with, and the credentials it needs to start.

use vstd::prelude::*;
use vstd::string::*;
use crate::eligibility::Rules;

verus! {

/// Why a run cannot start.
#[derive(Clone, Copy, Debug, PartialEq, Eq, Structural)]
pub enum ConfigError {
    /// The bot's token is missing.
    MissingToken,
    /// The identifier of the chat is missing.
    MissingChatId,
}

impl ConfigError {
    /// The error in words.
    pub fn message(&self) -> (text: String)
        ensures
            text@ == match *self {
                ConfigError::MissingToken => "TELEGRAM_TOKEN not found in .env file."@,
                ConfigError::MissingChatId => "CHAT_ID not found in .env file."@,
            },
    {
        match self {
            ConfigError::MissingToken => "TELEGRAM_TOKEN not found in .env file.".to_owned(),
            ConfigError::MissingChatId => "CHAT_ID not found in .env file.".to_owned(),
        }
    }
}

/// What the notifier needs to deliver a message.
#[derive(Debug, PartialEq, Eq)]
pub struct Credentials {
    pub token: String,
    pub chat_id: String,
}

impl Credentials {
    /// The credentials made of the two values, where both are there. A
    /// missing token is reported before a missing chat.
    pub fn from_values(token: Option<String>, chat_id: Option<String>) -> (outcome: Result<
        Credentials,
        ConfigError,
    >)
        ensures
            match outcome {
                Ok(credentials) => token == Some(credentials.token) && chat_id == Some(
                    credentials.chat_id,
                ),
                Err(ConfigError::MissingToken) => token is None,
                Err(ConfigError::MissingChatId) => token is Some && chat_id is None,
            },
    {
        match token {
            Some(token) => match chat_id {
                Some(chat_id) => Ok(Credentials { token, chat_id }),
                None => Err(ConfigError::MissingChatId),
            },
            None => Err(ConfigError::MissingToken),
        }
    }
}

/// The configuration of a run.
#[derive(Debug, PartialEq, Eq)]
pub struct Settings {
    /// The address of the listing.
    pub source_url: String,
    /// The address under which the detail pages stand.
    pub detail_base: String,
    /// The words that exclude a category.
    pub exclusions: Vec<String>,
    /// The highest age in years that is let pass.
    pub max_age: u8,
    /// The seconds to sleep between two cycles.
    pub interval_seconds: u64,
    /// After how many cycles the run is over, if ever.
    pub cycle_limit: Option<u64>,
}

impl Settings {
    /// The configuration that the watch runs with unless told otherwise. Its
    /// ninety-one cycles are the one that seeds the store and ninety more.
    pub fn standard() -> (settings: Settings)
        ensures
            settings.source_url@ == "https://www.oregonhumane.org/adopt/?type=dogs"@,
            settings.detail_base@ == "https://www.oregonhumane.org/adopt/details/"@,
            settings.exclusions.deep_view() == seq!["Pit"@, "Bull"@, "Chihuahua"@, "Terrier"@],
            settings.max_age == 4,
            settings.interval_seconds == 60,
            settings.cycle_limit == Some(91u64),
    {
        let mut exclusions: Vec<String> = Vec::new();
        exclusions.push("Pit".to_owned());
        exclusions.push("Bull".to_owned());
        exclusions.push("Chihuahua".to_owned());
        exclusions.push("Terrier".to_owned());
        assert(exclusions.deep_view() =~= seq!["Pit"@, "Bull"@, "Chihuahua"@, "Terrier"@]);
        Settings {
            source_url: "https://www.oregonhumane.org/adopt/?type=dogs".to_owned(),
            detail_base: "https://www.oregonhumane.org/adopt/details/".to_owned(),
            exclusions,
            max_age: 4,
            interval_seconds: 60,
            cycle_limit: Some(91),
        }
    }

    /// The rules of the filter that this configuration asks for.
    pub fn rules(&self) -> (rules: Rules)
        ensures
            rules@.exclusions == self.exclusions.deep_view(),
            rules@.max_age == self.max_age,
    {
        Rules::new(&self.exclusions, self.max_age)
    }
}

} // verus!
