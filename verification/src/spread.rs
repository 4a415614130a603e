//! Placing free space around a row of things, one after the other.
//!
//! `justify-content` places the free space of a line around its items, and
//! `align-content` places the free space of the container around its lines.
//! Both walk along the row and take, before and behind each thing, the next
//! share of what is still left.

use vstd::prelude::*;
use crate::distribute::justify_lead;
use crate::options::{AlignContent, JustifyContent};
use crate::share::{
    lemma_share_is_running_quotient, lemma_shares_given_bounds, lemma_shares_given_none,
    next_share, shares_given,
};
use crate::stack::content_lead;

verus! {

/// How free space is placed around a row of things.
#[derive(Debug, Clone, Copy, PartialEq, Eq, Hash, Structural)]
pub enum Spread {
    /// All of it behind the last.
    Start,
    /// All of it before the first.
    End,
    /// Half of it before the first.
    Center,
    /// A share between each two neighbours.
    Between,
    /// A share before and a share behind each.
    Around,
    /// A share before each and one behind the last.
    Evenly,
    /// A share behind each.
    Behind,
}

impl JustifyContent {
    /// How this policy places free space.
    pub open spec fn spread(self) -> Spread {
        match self {
            JustifyContent::FlexStart => Spread::Start,
            JustifyContent::FlexEnd => Spread::End,
            JustifyContent::Center => Spread::Center,
            JustifyContent::SpaceBetween => Spread::Between,
            JustifyContent::SpaceAround => Spread::Around,
            JustifyContent::SpaceEvenly => Spread::Evenly,
        }
    }

    /// How this policy places free space.
    pub fn to_spread(&self) -> (spread: Spread)
        ensures
            spread == self.spread(),
    {
        match self {
            JustifyContent::FlexStart => Spread::Start,
            JustifyContent::FlexEnd => Spread::End,
            JustifyContent::Center => Spread::Center,
            JustifyContent::SpaceBetween => Spread::Between,
            JustifyContent::SpaceAround => Spread::Around,
            JustifyContent::SpaceEvenly => Spread::Evenly,
        }
    }
}

impl AlignContent {
    /// How this policy places free space.
    pub open spec fn spread(self) -> Spread {
        match self {
            AlignContent::FlexStart => Spread::Start,
            AlignContent::FlexEnd => Spread::End,
            AlignContent::Center => Spread::Center,
            AlignContent::Stretch => Spread::Behind,
            AlignContent::SpaceBetween => Spread::Between,
            AlignContent::SpaceAround => Spread::Around,
        }
    }

    /// How this policy places free space.
    pub fn to_spread(&self) -> (spread: Spread)
        ensures
            spread == self.spread(),
    {
        match self {
            AlignContent::FlexStart => Spread::Start,
            AlignContent::FlexEnd => Spread::End,
            AlignContent::Center => Spread::Center,
            AlignContent::Stretch => Spread::Behind,
            AlignContent::SpaceBetween => Spread::Between,
            AlignContent::SpaceAround => Spread::Around,
        }
    }
}

/// The free space that lies before thing `i` of `count` things.
pub open spec fn lead(spread: Spread, free: int, count: int, i: int) -> int {
    match spread {
        Spread::Start => 0,
        Spread::End => free,
        Spread::Center => free / 2,
        Spread::Between => shares_given(free, count - 1, i),
        Spread::Around => shares_given(free, 2 * count, 2 * i + 1),
        Spread::Evenly => shares_given(free, count + 1, i + 1),
        Spread::Behind => shares_given(free, count, i),
    }
}

/// The free space that has been placed when the walk reaches thing `i`.
pub open spec fn handed(spread: Spread, free: int, count: int, i: int) -> int {
    match spread {
        Spread::Start => 0,
        Spread::End => if i > 0 {
            free
        } else {
            0
        },
        Spread::Center => if i > 0 {
            free / 2
        } else {
            0
        },
        Spread::Between => shares_given(
            free,
            count - 1,
            if i < count {
                i
            } else {
                count - 1
            },
        ),
        Spread::Around => shares_given(free, 2 * count, 2 * i),
        Spread::Evenly => shares_given(free, count + 1, i),
        Spread::Behind => shares_given(free, count, i),
    }
}

/// The free space that is still to be placed when the walk reaches thing
/// `i`.
pub open spec fn unspent(spread: Spread, free: int, count: int, i: int) -> int {
    match spread {
        Spread::Start => free,
        Spread::End | Spread::Center => if i > 0 {
            0
        } else {
            free
        },
        _ => free - handed(spread, free, count, i),
    }
}

/// The free space that is still to be placed once the start of thing `i` is
/// fixed.
pub open spec fn unspent_at(spread: Spread, free: int, count: int, i: int) -> int {
    match spread {
        Spread::Start => free,
        Spread::End | Spread::Center => 0,
        _ => free - lead(spread, free, count, i),
    }
}

/// `justify-content` places free space before an item as its spread does.
pub proof fn lemma_justify_lead_is_lead(justify: JustifyContent, free: int, count: int, i: int)
    ensures
        justify_lead(justify, free, count, i) == lead(justify.spread(), free, count, i),
{
}

/// `align-content` places free space before a line as its spread does.
pub proof fn lemma_content_lead_is_lead(align: AlignContent, free: int, count: int, s: int)
    ensures
        content_lead(align, free, count, s) == lead(align.spread(), free, count, s),
{
}

/// What has been placed and what is still to be placed make up the free
/// space, and neither is negative.
pub proof fn lemma_walk_bounds(spread: Spread, free: int, count: int, i: int)
    requires
        0 <= free,
        0 <= i <= count,
    ensures
        0 <= handed(spread, free, count, i) <= free,
        0 <= unspent(spread, free, count, i) <= free,
        i == 0 ==> handed(spread, free, count, i) == 0,
{
    match spread {
        Spread::Between => {
            if count > 1 {
                lemma_shares_given_bounds(
                    free,
                    count - 1,
                    if i < count {
                        i
                    } else {
                        count - 1
                    },
                );
                lemma_shares_given_none(free, count - 1);
            }
        },
        Spread::Around => {
            if count > 0 {
                lemma_shares_given_bounds(free, 2 * count, 2 * i);
                lemma_shares_given_none(free, 2 * count);
            }
        },
        Spread::Evenly => {
            lemma_shares_given_bounds(free, count + 1, i);
            lemma_shares_given_none(free, count + 1);
        },
        Spread::Behind => {
            if count > 0 {
                lemma_shares_given_bounds(free, count, i);
                lemma_shares_given_none(free, count);
            }
        },
        _ => {},
    }
}

/// The free space that is placed directly before thing `i`, and what is left
/// to place after that.
pub(crate) fn space_before(
    spread: Spread,
    free: usize,
    count: usize,
    i: usize,
    assignable_free_space: usize,
) -> (taken: (usize, usize))
    requires
        i < count,
        assignable_free_space == unspent(spread, free as int, count as int, i as int),
    ensures
        handed(spread, free as int, count as int, i as int) + taken.0 == lead(
            spread,
            free as int,
            count as int,
            i as int,
        ),
        taken.1 == unspent_at(spread, free as int, count as int, i as int),
        taken.0 <= assignable_free_space,
{
    match spread {
        Spread::End => { (assignable_free_space, 0) },
        Spread::Center => { (assignable_free_space / 2, 0) },
        Spread::Around => {
            proof {
                lemma_share_is_running_quotient(free as int, 2 * count, 2 * i);
            }
            let extra_free_space = next_share(
                assignable_free_space,
                2 * (count as u128) - 2 * (i as u128),
            );
            (extra_free_space, assignable_free_space - extra_free_space)
        },
        Spread::Evenly => {
            proof {
                lemma_share_is_running_quotient(free as int, count + 1, i as int);
            }
            let extra_free_space = next_share(
                assignable_free_space,
                (count as u128) + 1 - (i as u128),
            );
            (extra_free_space, assignable_free_space - extra_free_space)
        },
        _ => (0, assignable_free_space),
    }
}

/// The free space that is placed directly behind thing `i`, and what is left
/// to place after that.
pub(crate) fn space_behind(
    spread: Spread,
    free: usize,
    count: usize,
    i: usize,
    assignable_free_space: usize,
) -> (taken: (usize, usize))
    requires
        i < count,
        assignable_free_space == unspent_at(spread, free as int, count as int, i as int),
    ensures
        lead(spread, free as int, count as int, i as int) + taken.0 == handed(
            spread,
            free as int,
            count as int,
            i + 1,
        ),
        taken.1 == unspent(spread, free as int, count as int, i + 1),
        taken.0 <= assignable_free_space,
{
    match spread {
        Spread::Between => {
            if i + 1 < count {
                proof {
                    lemma_share_is_running_quotient(free as int, count - 1, i as int);
                }
                let extra_free_space = next_share(
                    assignable_free_space,
                    (count as u128) - 1 - (i as u128),
                );
                (extra_free_space, assignable_free_space - extra_free_space)
            } else {
                (0, assignable_free_space)
            }
        },
        Spread::Around => {
            proof {
                lemma_share_is_running_quotient(free as int, 2 * count, 2 * i + 1);
            }
            let extra_free_space = next_share(
                assignable_free_space,
                2 * (count as u128) - (2 * (i as u128) + 1),
            );
            (extra_free_space, assignable_free_space - extra_free_space)
        },
        Spread::Behind => {
            proof {
                lemma_share_is_running_quotient(free as int, count as int, i as int);
            }
            let extra_free_space = next_share(
                assignable_free_space,
                (count as u128) - (i as u128),
            );
            (extra_free_space, assignable_free_space - extra_free_space)
        },
        _ => (0, assignable_free_space),
    }
}

} // verus!
