//! Names of the vendor's downloadable components and platforms, as
//! they appear in component manifest URLs.
use vstd::prelude::*;

verus! {

/// A platform a component is built for.
#[derive(PartialEq, Eq, Structural, Clone, Copy, Debug)]
pub enum Platform {
    Windows,
    Mac,
}

impl Platform {
    /// The platform's name in manifest URLs.
    pub fn platform_name(&self) -> (r: String)
        ensures
            (*self == Platform::Windows ==> r@ == "windows"@),
            (*self == Platform::Mac ==> r@ == "osx"@),
    {
        match self {
            Self::Windows => String::from_str("windows"),
            Self::Mac => String::from_str("osx"),
        }
    }
}

/// A downloadable component.
#[derive(PartialEq, Eq, Structural, Clone, Copy, Debug)]
pub enum Component {
    Peer,
    Overlay,
    Web,
}

impl Component {
    /// The component's name in manifest URLs.
    pub fn component_name(&self) -> (r: String)
        ensures
            (*self == Component::Peer ==> r@ == "desktop-galaxy-peer"@),
            (*self == Component::Overlay ==> r@ == "desktop-galaxy-overlay"@),
            (*self == Component::Web ==> r@ == "desktop-galaxy-client"@),
    {
        match self {
            Self::Peer => String::from_str("desktop-galaxy-peer"),
            Self::Overlay => String::from_str("desktop-galaxy-overlay"),
            Self::Web => String::from_str("desktop-galaxy-client"),
        }
    }
}

} // verus!
