use vstd::prelude::*;

verus! {

/// The places of a list of marks that hold `true`, in rising order.
pub open spec fn marked(marks: Seq<bool>) -> Seq<usize>
    decreases marks.len(),
{
    if marks.len() == 0 {
        Seq::empty()
    } else if marks.last() {
        marked(marks.drop_last()).push((marks.len() - 1) as usize)
    } else {
        marked(marks.drop_last())
    }
}

/// The marked places are places of the list, each marked, in strictly rising
/// order, and every place that is marked is among them.
pub proof fn lemma_marked(marks: Seq<bool>)
    requires
        marks.len() <= usize::MAX,
    ensures
        marked(marks).len() <= marks.len(),
        forall|i: int|
            0 <= i < marked(marks).len() ==> (#[trigger] marked(marks)[i]) < marks.len()
                && marks[marked(marks)[i] as int],
        forall|i: int, j: int|
            0 <= i < j < marked(marks).len() ==> marked(marks)[i] < marked(marks)[j],
        forall|k: int| 0 <= k < marks.len() && marks[k] ==> marked(marks).contains(k as usize),
    decreases marks.len(),
{
    if marks.len() > 0 {
        let earlier = marks.drop_last();
        lemma_marked(earlier);
        let places = marked(marks);
        assert forall|k: int| 0 <= k < marks.len() && marks[k] implies places.contains(
            k as usize,
        ) by {
            if k < marks.len() - 1 {
                assert(earlier[k]);
                let i = choose|i: int|
                    0 <= i < marked(earlier).len() && marked(earlier)[i] == k as usize;
                assert(places[i] == k as usize);
            } else {
                assert(places[places.len() - 1] == k as usize);
            }
        }
    }
}

/// Lists the places of a list of marks that hold `true`, in rising order.
pub fn marked_places(marks: &Vec<bool>) -> (places: Vec<usize>)
    ensures
        places@ == marked(marks@),
{
    let mut places: Vec<usize> = Vec::new();
    let mut i: usize = 0;
    while i < marks.len()
        invariant
            i <= marks@.len(),
            places@ == marked(marks@.take(i as int)),
        decreases marks@.len() - i,
    {
        proof {
            assert(marks@.take(i + 1).drop_last() == marks@.take(i as int));
        }
        if marks[i] {
            places.push(i);
        }
        i += 1;
    }
    proof {
        assert(marks@.take(i as int) == marks@);
    }
    places
}

} // verus!
