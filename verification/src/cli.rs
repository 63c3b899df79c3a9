//! The command line.
use crate::text::same;
use vstd::prelude::*;

verus! {

/// What the command line asks for.
#[derive(Debug)]
pub struct Cli {
    pub api_key: Option<String>,
    pub base_url: Option<String>,
    pub model: Option<String>,
    /// The session to take up again: its identifier, or `last`.
    pub resume: Option<String>,
    /// Run every tool without asking.
    pub yolo: bool,
}

/// The session to begin with.
#[derive(Debug)]
pub enum Resume {
    /// A new one.
    New,
    /// The one that was written last; a new one where there is none.
    Last,
    /// The one with the identifier.
    Load(String),
}

impl Cli {
    /// Which session the command line asks for.
    pub fn session_choice(&self) -> (r: Resume)
        ensures
            match self.resume {
                None => r is New,
                Some(id) => if id@ == "last"@ {
                    r is Last
                } else {
                    r matches Resume::Load(s) && s@ == id@
                },
            },
    {
        match &self.resume {
            None => Resume::New,
            Some(id) => if same(id.as_str(), "last") {
                Resume::Last
            } else {
                Resume::Load(id.clone())
            },
        }
    }
}

} // verus!
