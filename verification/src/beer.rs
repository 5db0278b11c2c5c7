use vstd::prelude::*;

verus! {

/// One beer of a brand's lineup, named by its catalogue number.
#[derive(Clone, Copy, Debug, PartialEq, Eq, Structural)]
pub struct Beer {
    pub id: u64,
}

/// A brand and the beers it brews, in catalogue order.
#[derive(Debug)]
pub struct BeerBrand {
    pub name: String,
    pub beers: Vec<Beer>,
}

/// The beers of a row of brands: each brand's lineup in order, brand after
/// brand.
pub open spec fn spec_all_beers(brands: Seq<BeerBrand>) -> Seq<Beer>
    decreases brands.len(),
{
    if brands.len() == 0 {
        Seq::empty()
    } else {
        spec_all_beers(brands.drop_last()) + brands.last().beers@
    }
}

/// Flattens a list of brands into the list of every beer they brew,
/// keeping the order of the brands and each brand's own order.
pub fn beer_brand_list_to_beer_list(beer_brands: &[BeerBrand]) -> (r: Vec<Beer>)
    ensures
        r@ == spec_all_beers(beer_brands@),
{
    let mut beer_list: Vec<Beer> = Vec::new();
    let nb = beer_brands.len();
    let mut bi: usize = 0;
    proof {
        assert(beer_list@ =~= spec_all_beers(beer_brands@.take(0)));
    }
    while bi < nb
        invariant
            nb == beer_brands@.len(),
            bi <= nb,
            beer_list@ == spec_all_beers(beer_brands@.take(bi as int)),
        decreases nb - bi,
    {
        let brand = &beer_brands[bi];
        let nk = brand.beers.len();
        let mut ki: usize = 0;
        proof {
            assert(brand.beers@.take(0) =~= Seq::<Beer>::empty());
            assert(beer_list@ =~= spec_all_beers(beer_brands@.take(bi as int))
                + brand.beers@.take(0));
        }
        while ki < nk
            invariant
                nb == beer_brands@.len(),
                bi < nb,
                brand == beer_brands@[bi as int],
                nk == brand.beers@.len(),
                ki <= nk,
                beer_list@ == spec_all_beers(beer_brands@.take(bi as int)) + brand.beers@.take(
                    ki as int,
                ),
            decreases nk - ki,
        {
            beer_list.push(brand.beers[ki]);
            proof {
                assert(brand.beers@.take(ki as int + 1) =~= brand.beers@.take(ki as int).push(
                    brand.beers@[ki as int],
                ));
                assert(beer_list@ =~= spec_all_beers(beer_brands@.take(bi as int))
                    + brand.beers@.take(ki as int + 1));
            }
            ki = ki + 1;
        }
        proof {
            assert(brand.beers@.take(nk as int) =~= brand.beers@);
            let taken = beer_brands@.take(bi as int + 1);
            assert(taken.drop_last() =~= beer_brands@.take(bi as int));
            assert(taken.last() == beer_brands@[bi as int]);
            assert(beer_list@ =~= spec_all_beers(beer_brands@.take(bi as int + 1)));
        }
        bi = bi + 1;
    }
    proof {
        assert(beer_brands@.take(nb as int) =~= beer_brands@);
    }
    beer_list
}

} // verus!
