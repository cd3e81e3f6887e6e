//! A shirt giveaway and a shoe shelf.

use crate::text::lemma_filter_push;
use vstd::prelude::*;

verus! {

/// The colors that shirts come in.
#[derive(Clone, Copy, Debug, PartialEq, Eq, Structural)]
pub enum ShirtColor {
    Red,
    Blue,
}

/// The shirts in stock.
pub struct Inventory {
    pub shirts: Vec<ShirtColor>,
}

/// Whether a shirt has the given color.
pub open spec fn has_color(color: ShirtColor) -> spec_fn(ShirtColor) -> bool {
    |c: ShirtColor| c == color
}

/// The number of shirts of `color` among `shirts`.
pub open spec fn count_of(shirts: Seq<ShirtColor>, color: ShirtColor) -> nat {
    shirts.filter(has_color(color)).len()
}

/// The color that most of `shirts` have: blue unless red is in the
/// majority.
pub open spec fn most_stocked_of(shirts: Seq<ShirtColor>) -> ShirtColor {
    if count_of(shirts, ShirtColor::Red) > count_of(shirts, ShirtColor::Blue) {
        ShirtColor::Red
    } else {
        ShirtColor::Blue
    }
}

impl Inventory {
    /// The shirt that a user gets: of the color preferred, or else of the
    /// color most in stock.
    pub fn giveaway(&self, user_preference: Option<ShirtColor>) -> (given: ShirtColor)
        ensures
            given == match user_preference {
                Some(color) => color,
                None => most_stocked_of(self.shirts@),
            },
    {
        match user_preference {
            Some(color) => color,
            None => self.most_stocked(),
        }
    }

    /// The color most in stock: blue unless red is in the majority.
    pub fn most_stocked(&self) -> (color: ShirtColor)
        ensures
            color == most_stocked_of(self.shirts@),
    {
        let mut num_red: usize = 0;
        let mut num_blue: usize = 0;
        let ghost is_red = has_color(ShirtColor::Red);
        let ghost is_blue = has_color(ShirtColor::Blue);
        let mut i: usize = 0;
        proof {
            reveal(Seq::filter);
            assert(self.shirts@.take(0) =~= Seq::<ShirtColor>::empty());
        }
        while i < self.shirts.len()
            invariant
                i <= self.shirts.len(),
                is_red == has_color(ShirtColor::Red),
                is_blue == has_color(ShirtColor::Blue),
                num_red == self.shirts@.take(i as int).filter(is_red).len(),
                num_blue == self.shirts@.take(i as int).filter(is_blue).len(),
                num_red + num_blue == i,
            decreases self.shirts.len() - i,
        {
            let color = self.shirts[i];
            proof {
                let seen = self.shirts@.take(i as int);
                assert(self.shirts@.take(i + 1) =~= seen.push(color));
                lemma_filter_push(seen, color, is_red);
                lemma_filter_push(seen, color, is_blue);
            }
            match color {
                ShirtColor::Red => {
                    num_red += 1;
                },
                ShirtColor::Blue => {
                    num_blue += 1;
                },
            }
            i += 1;
        }
        proof {
            assert(self.shirts@.take(i as int) =~= self.shirts@);
        }
        if num_red > num_blue {
            ShirtColor::Red
        } else {
            ShirtColor::Blue
        }
    }
}

/// A pair of shoes.
#[derive(Debug, PartialEq)]
pub struct Shoe {
    pub size: u32,
    pub style: String,
}

/// The shoes of `shoes` that have the given size, in their order.
pub fn shoes_in_size(shoes: Vec<Shoe>, shoe_size: u32) -> (fitting: Vec<Shoe>)
    ensures
        fitting@ == shoes@.filter(|s: Shoe| s.size == shoe_size),
{
    let ghost fits = |s: Shoe| s.size == shoe_size;
    let ghost all = shoes@;
    let mut fitting: Vec<Shoe> = Vec::new();
    proof {
        reveal(Seq::filter);
        assert(all.take(0) =~= Seq::<Shoe>::empty());
    }
    for shoe in it: shoes
        invariant
            it.seq() == all,
            fits == |s: Shoe| s.size == shoe_size,
            fitting@ == all.take(it.index() as int).filter(fits),
    {
        proof {
            let seen = all.take(it.index() as int);
            assert(all.take(it.index() + 1) =~= seen.push(shoe));
            lemma_filter_push(seen, shoe, fits);
        }
        if shoe.size == shoe_size {
            fitting.push(shoe);
        }
    }
    proof {
        assert(all.take(all.len() as int) =~= all);
    }
    fitting
}

} // verus!
