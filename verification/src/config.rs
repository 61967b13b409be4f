//! What the engine is set up with.

use vstd::prelude::*;

verus! {

/// The configuration of the engine.
#[derive(Clone, Debug)]
pub struct Config {
    /// The token that a request has to bring to create a board. With none,
    /// everybody may create boards.
    pub create_token: Option<String>,
}

/// What a [`Config`] says, with its strings as sequences of characters.
pub struct ConfigView {
    pub create_token: Option<Seq<char>>,
}

impl View for Config {
    type V = ConfigView;

    open spec fn view(&self) -> ConfigView {
        ConfigView {
            create_token: match self.create_token {
                Some(token) => Some(token@),
                None => None,
            },
        }
    }
}

impl Config {
    /// A configuration under which the creation of boards asks for `token`.
    pub fn gated(token: String) -> (config: Config)
        ensures
            config@.create_token == Some(token@),
    {
        Config { create_token: Some(token) }
    }

    /// A configuration under which everybody may create boards.
    pub fn open() -> (config: Config)
        ensures
            config@.create_token == None::<Seq<char>>,
    {
        Config { create_token: None }
    }
}

} // verus!
