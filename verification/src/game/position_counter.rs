//! How positions are counted.
use vstd::prelude::*;

use crate::text::str_equals;

verus! {

/// Which positions to count: every position, or those the alpha-beta search visits.
#[derive(Debug, Clone, Copy, PartialEq, Eq, Structural)]
pub enum CountPositionsStrategy {
    All,
    AlphaBeta,
}

impl CountPositionsStrategy {
    /// The strategy named `s`: "all" or "alpha-beta".
    pub fn parse(s: &str) -> (r: Result<CountPositionsStrategy, &'static str>)
        ensures
            s@ == "all"@ ==> r == Ok::<CountPositionsStrategy, &'static str>(CountPositionsStrategy::All),
            s@ == "alpha-beta"@ ==> r == Ok::<CountPositionsStrategy, &'static str>(CountPositionsStrategy::AlphaBeta),
            s@ != "all"@ && s@ != "alpha-beta"@ ==> (r matches Err(e) && e@
                == "invalid strategy; options are: all, alpha-beta"@),
    {
        proof {
            reveal_strlit("all");
            reveal_strlit("alpha-beta");
            assert("all"@.len() == 3 && "alpha-beta"@.len() == 10);
            assert("all"@ != "alpha-beta"@);
        }
        if str_equals(s, "all") {
            Ok(CountPositionsStrategy::All)
        } else if str_equals(s, "alpha-beta") {
            Ok(CountPositionsStrategy::AlphaBeta)
        } else {
            Err("invalid strategy; options are: all, alpha-beta")
        }
    }
}

impl core::str::FromStr for CountPositionsStrategy {
    type Err = &'static str;

    fn from_str(s: &str) -> (r: Result<Self, Self::Err>)
        ensures
            s@ == "all"@ ==> r == Ok::<CountPositionsStrategy, &'static str>(CountPositionsStrategy::All),
            s@ == "alpha-beta"@ ==> r == Ok::<CountPositionsStrategy, &'static str>(CountPositionsStrategy::AlphaBeta),
            s@ != "all"@ && s@ != "alpha-beta"@ ==> (r matches Err(e) && e@
                == "invalid strategy; options are: all, alpha-beta"@),
    {
        CountPositionsStrategy::parse(s)
    }
}

} // verus!
