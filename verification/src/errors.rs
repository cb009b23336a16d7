use vstd::prelude::*;
use vstd::string::*;

verus! {

/// Errors of the scene file index.
#[derive(Debug)]
pub enum ScenesIOError {
    /// A path that is not valid text; it holds the path as far as it
    /// could be shown.
    InvalidPath(String),
}

impl ScenesIOError {
    /// The message shown to the user: `Invalid path : <path>`.
    pub fn message(&self) -> (m: String)
        ensures
            match self {
                ScenesIOError::InvalidPath(p) => m@ == "Invalid path : "@ + p@,
            },
    {
        match self {
            ScenesIOError::InvalidPath(p) => {
                let mut m = String::from_str("Invalid path : ");
                m.append(p.as_str());
                m
            },
        }
    }
}

/// Errors of the avatar sprite sheet maker.
#[derive(Debug, Clone, Copy, PartialEq, Eq, Structural)]
pub enum AvatarMakerError {
    /// The avatar's profile names no entity.
    MissingEntityId,
}

impl AvatarMakerError {
    /// The message shown to the user.
    pub fn message(&self) -> (m: String)
        ensures
            m@ == "Missing entity ID"@,
    {
        String::from_str("Missing entity ID")
    }
}

} // verus!
