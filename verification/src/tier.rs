//! The backends of the third tier, by name.

use vstd::prelude::*;
use vstd::string::*;

verus! {

/// A backend of the third tier.
#[derive(Debug, Copy, Clone, PartialEq, Eq, Structural)]
pub enum TierThree {
    Csat3PlonkAztec,
}

/// The backends of the third tier, each with its name.
pub const TIER_THREE_MAP: [(&'static str, TierThree); 1] = [("csat_3_plonk_aztec", TierThree::Csat3PlonkAztec)];

impl TierThree {
    /// The name of the backend.
    pub open spec fn spec_name(&self) -> Seq<char> {
        match self {
            TierThree::Csat3PlonkAztec => "csat_3_plonk_aztec"@,
        }
    }

    /// The name under which the backend is chosen.
    pub fn name(&self) -> (r: &'static str)
        ensures
            r@ == self.spec_name(),
    {
        match self {
            TierThree::Csat3PlonkAztec => "csat_3_plonk_aztec",
        }
    }

    /// The backend of the given name, if there is one.
    pub fn from_name(name: &str) -> (r: Option<TierThree>)
        ensures
            match r {
                Some(tier) => tier.spec_name() == name@,
                None => forall|tier: TierThree| tier.spec_name() != name@,
            },
    {
        let wanted = name.to_owned();
        let known = TierThree::Csat3PlonkAztec.name().to_owned();
        if wanted == known {
            Some(TierThree::Csat3PlonkAztec)
        } else {
            None
        }
    }
}

} // verus!
