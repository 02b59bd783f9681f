//! Star rendering for the status text. Ratings are carried in tenths of a
//! star, so `43` stands for a rating of 4.3: four filled stars and, because
//! a remainder is left, one hollow star.

use vstd::prelude::*;

verus! {

/// `n` filled stars.
pub open spec fn filled_stars(n: nat) -> Seq<char>
    decreases n,
{
    if n == 0 {
        Seq::empty()
    } else {
        filled_stars((n - 1) as nat).push('★')
    }
}

/// The glyph string for a rating in tenths: one filled star per whole star,
/// then one hollow star exactly when a fractional remainder is left.
pub open spec fn star_string(tenths: nat) -> Seq<char> {
    if tenths % 10 > 0 {
        filled_stars(tenths / 10).push('☆')
    } else {
        filled_stars(tenths / 10)
    }
}

/// Renders the star glyphs for a rating given in tenths of a star.
pub fn rating_stars(rating_tenths: u32) -> (r: String)
    ensures
        r@ == star_string(rating_tenths as nat),
{
    proof {
        reveal_strlit("★");
        reveal_strlit("☆");
    }
    let major = rating_tenths / 10;
    let minor = rating_tenths % 10;
    let mut s = String::new();
    let mut i: u32 = 0;
    while i < major
        invariant
            i <= major,
            s@ == filled_stars(i as nat),
        decreases major - i,
    {
        vstd::string::StringExecFns::append(&mut s, "★");
        i += 1;
        proof {
            reveal_strlit("★");
            assert(filled_stars((i - 1) as nat) + "★"@ =~= filled_stars(i as nat));
        }
    }
    if minor > 0 {
        vstd::string::StringExecFns::append(&mut s, "☆");
        proof {
            assert(filled_stars((rating_tenths as nat) / 10) + "☆"@ =~= star_string(
                rating_tenths as nat,
            ));
        }
    }
    s
}

} // verus!
