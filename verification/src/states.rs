use vstd::prelude::*;

verus! {

/// The screens of the client: the wallet login first, then the game.
#[derive(Debug, Clone, Copy, PartialEq, Eq, Structural, Hash)]
pub enum AppState {
    MetamaskLogin,
    InGame,
}

impl Default for AppState {
    /// The client starts at the wallet login.
    fn default() -> (s: Self)
        ensures
            s == AppState::MetamaskLogin,
    {
        AppState::MetamaskLogin
    }
}

} // verus!
