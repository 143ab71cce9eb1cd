//! Flattening a doctrine into its ship names and the "x-up" line.
//!
//! A doctrine's ships are the concatenation, in document order, of the
//! ship lists of all its categories.  The x-up line is `"x "` followed by
//! those names joined with `" / "`.

use crate::doctrine::{CategoryV, Doctrine, DoctrineV};
use vstd::prelude::*;
use vstd::string::StringExecFns;

verus! {

/// The ship names of `cats[i..]`, concatenated in order.
pub open spec fn spec_ships_of_categories(cats: Seq<CategoryV>, i: int) -> Seq<Seq<char>>
    decreases cats.len() - i,
{
    if i < 0 || i >= cats.len() {
        Seq::empty()
    } else {
        cats[i].ships + spec_ships_of_categories(cats, i + 1)
    }
}

/// All ship names of a doctrine, in document order.
pub open spec fn spec_all_ships(d: DoctrineV) -> Seq<Seq<char>> {
    spec_ships_of_categories(d.categories, 0)
}

/// The first `i` of `items` joined with `sep` between neighbours.
pub open spec fn spec_join_upto(items: Seq<Seq<char>>, sep: Seq<char>, i: int) -> Seq<char>
    decreases i,
{
    if i <= 0 {
        Seq::empty()
    } else if i == 1 {
        items[0]
    } else {
        spec_join_upto(items, sep, i - 1) + sep + items[i - 1]
    }
}

/// The x-up line of a doctrine: `"x "` and its ship names joined by
/// `" / "`.
pub open spec fn spec_xup(d: DoctrineV) -> Seq<char> {
    "x "@ + spec_join_upto(spec_all_ships(d), " / "@, spec_all_ships(d).len() as int)
}

/// Every ship name of the doctrine, over all its categories in order.
pub fn ships(doctrine: &Doctrine) -> (r: Vec<String>)
    ensures
        r.deep_view() == spec_all_ships(doctrine.deep_view()),
{
    let cats = &doctrine.categories;
    let mut out: Vec<String> = Vec::new();
    let mut i: usize = 0;
    proof {
        assert(out.deep_view() =~= Seq::<Seq<char>>::empty());
        assert(out.deep_view() + spec_ships_of_categories(cats.deep_view(), 0)
            =~= spec_ships_of_categories(cats.deep_view(), 0));
        assert(cats.deep_view() =~= doctrine.deep_view().categories);
    }
    while i < cats.len()
        invariant
            0 <= i <= cats@.len(),
            cats.deep_view() == doctrine.deep_view().categories,
            spec_ships_of_categories(cats.deep_view(), 0) == out.deep_view()
                + spec_ships_of_categories(cats.deep_view(), i as int),
        decreases cats@.len() - i,
    {
        let cat_ships = &cats[i].ships;
        let mut j: usize = 0;
        proof {
            assert(cats.deep_view()[i as int] == cats[i as int].deep_view());
            assert(cat_ships.deep_view().subrange(0, 0) =~= Seq::<Seq<char>>::empty());
        }
        while j < cat_ships.len()
            invariant
                0 <= j <= cat_ships@.len(),
                cats.deep_view() == doctrine.deep_view().categories,
                0 <= i < cats@.len(),
                *cat_ships == cats[i as int].ships,
                spec_ships_of_categories(cats.deep_view(), 0) == out.deep_view()
                    + cat_ships.deep_view().subrange(j as int, cat_ships.deep_view().len() as int)
                    + spec_ships_of_categories(cats.deep_view(), i as int + 1),
            decreases cat_ships@.len() - j,
        {
            let ghost old_out = out.deep_view();
            out.push(cat_ships[j].clone());
            proof {
                let svs = cat_ships.deep_view();
                assert(out.deep_view() =~= old_out.push(svs[j as int]));
                assert(svs.subrange(j as int, svs.len() as int) =~= seq![svs[j as int]]
                    + svs.subrange(j as int + 1, svs.len() as int));
                assert(old_out + (seq![svs[j as int]] + svs.subrange(
                    j as int + 1,
                    svs.len() as int,
                )) + spec_ships_of_categories(cats.deep_view(), i as int + 1) =~= out.deep_view()
                    + svs.subrange(j as int + 1, svs.len() as int) + spec_ships_of_categories(
                    cats.deep_view(),
                    i as int + 1,
                ));
            }
            j += 1;
        }
        proof {
            let svs = cat_ships.deep_view();
            assert(svs.subrange(svs.len() as int, svs.len() as int) =~= Seq::<Seq<char>>::empty());
            assert(out.deep_view() + Seq::<Seq<char>>::empty() + spec_ships_of_categories(
                cats.deep_view(),
                i as int + 1,
            ) =~= out.deep_view() + spec_ships_of_categories(cats.deep_view(), i as int + 1));
            assert(cats.deep_view()[i as int].ships == svs);
        }
        i += 1;
    }
    proof {
        assert(out.deep_view() + Seq::<Seq<char>>::empty() =~= out.deep_view());
    }
    out
}

/// The x-up line: `"x "` followed by the doctrine's ship names separated
/// by `" / "`.
pub fn xup(doctrine: &Doctrine) -> (r: String)
    ensures
        r@ == spec_xup(doctrine.deep_view()),
{
    let all = ships(doctrine);
    let mut out: String = "x ".to_owned();
    let mut i: usize = 0;
    proof {
        assert(out@ + Seq::<char>::empty() =~= out@);
    }
    while i < all.len()
        invariant
            0 <= i <= all@.len(),
            all.deep_view() == spec_all_ships(doctrine.deep_view()),
            out@ == "x "@ + spec_join_upto(all.deep_view(), " / "@, i as int),
        decreases all@.len() - i,
    {
        let ghost old_out = out@;
        if i > 0 {
            out.append(" / ");
        }
        out.append(all[i].as_str());
        proof {
            let items = all.deep_view();
            assert(all[i as int]@ == items[i as int]);
            if i == 0 {
                assert(("x "@ + Seq::<char>::empty()) + items[0] =~= "x "@ + items[0]);
            } else {
                assert((("x "@ + spec_join_upto(items, " / "@, i as int)) + " / "@)
                    + items[i as int] =~= "x "@ + (spec_join_upto(items, " / "@, i as int) + " / "@
                    + items[i as int]));
            }
        }
        i += 1;
    }
    out
}

} // verus!
