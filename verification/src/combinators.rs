//! List-level combinators shared by the graph's collection views.

use vstd::prelude::*;

verus! {

/// The views of a sequence of vectors.
pub open spec fn views_of<T>(s: Seq<Vec<T>>) -> Seq<Seq<T>> {
    s.map_values(|v: Vec<T>| v@)
}

/// Flatten a collection of collections, keeping the outer order and each
/// inner order: the combinator behind a container's flattened sub-item view.
pub fn flatten_vec<T>(input: Vec<Vec<T>>) -> (r: Vec<T>)
    ensures
        r@ == views_of(input@).flatten(),
{
    let mut rest = input;
    let ghost whole = rest@;
    let mut out: Vec<T> = Vec::new();
    while rest.len() > 0
        invariant
            out@ + views_of(rest@).flatten() == views_of(whole).flatten(),
        decreases rest@.len(),
    {
        let ghost before = rest@;
        let mut first = rest.remove(0);
        proof {
            assert(rest@ =~= before.drop_first());
            assert(views_of(rest@) =~= views_of(before).drop_first());
            assert(views_of(before).flatten() == views_of(before).first().add(
                views_of(before).drop_first().flatten(),
            ));
            assert(views_of(before).first() == first@);
        }
        let ghost out_before = out@;
        out.append(&mut first);
        proof {
            assert(out@ + views_of(rest@).flatten() =~= out_before + (views_of(
                before,
            ).first().add(views_of(rest@).flatten())));
        }
    }
    proof {
        assert(views_of(rest@).flatten() =~= Seq::<T>::empty());
        assert(out@ =~= out@ + views_of(rest@).flatten());
    }
    out
}

} // verus!
