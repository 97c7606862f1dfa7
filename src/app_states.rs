use vstd::prelude::*;

verus! {

/// The screens a host application moves between.
#[derive(Debug, Clone, Copy, PartialEq, Eq, Structural, Hash)]
pub enum AppState {
    MainMenu,
    OptionsMenu,
    CreditsMenu,
    InGame,
}

} // verus!
