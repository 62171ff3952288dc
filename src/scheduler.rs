//! Helpers of the scheduler that drives one queue.
use vstd::prelude::*;

verus! {

/// The values held by the `Some` entries of `s`, in their order.
pub open spec fn present<T>(s: Seq<Option<T>>) -> Seq<T>
    decreases s.len(),
{
    if s.len() == 0 {
        Seq::empty()
    } else {
        let rest = present(s.drop_last());
        match s.last() {
            Some(v) => rest.push(v),
            None => rest,
        }
    }
}

/// Hands each element, first to last, to `f`, which gives back the element to
/// keep (possibly changed) or `None` to drop it; the kept elements stay in
/// their order.
pub fn retain_mut<T, F>(vec: &mut Vec<T>, f: F)
    where
        F: FnMut(T) -> Option<T>,
    requires
        forall|x: T| call_requires(f, (x,)),
    ensures
        exists|outs: Seq<Option<T>>|
            {
                &&& outs.len() == old(vec)@.len()
                &&& forall|i: int|
                    0 <= i < outs.len() ==> call_ensures(f, (old(vec)@[i],), #[trigger] outs[i])
                &&& final(vec)@ == present(outs)
            },
{
    let ghost start = vec@;
    let mut g = f;
    let len = vec.len();
    let ghost mut outs: Seq<Option<T>> = Seq::empty();
    let mut i: usize = 0;
    while i < len
        invariant
            g == f,
            forall|x: T| call_requires(f, (x,)),
            len == start.len(),
            0 <= i <= len,
            outs.len() == i,
            forall|j: int| 0 <= j < i ==> call_ensures(f, (start[j],), #[trigger] outs[j]),
            vec@ == start.subrange(i as int, len as int) + present(outs),
        decreases len - i,
    {
        let ghost before = vec@;
        let ghost outs0 = outs;
        assert(before[0] == start[i as int]);
        let x = vec.remove(0);
        let out = g(x);
        proof {
            outs = outs.push(out);
            assert(outs.drop_last() =~= outs0);
            assert forall|j: int| 0 <= j < i + 1 implies call_ensures(
                f,
                (start[j],),
                #[trigger] outs[j],
            ) by {
                if j < i {
                    assert(outs[j] == outs0[j]);
                }
            }
        }
        match out {
            Some(y) => {
                vec.push(y);
            },
            None => {},
        }
        proof {
            assert(start.subrange(i as int + 1, len as int) =~= before.drop_first().subrange(
                0,
                len - i - 1,
            ));
        }
        i = i + 1;
        assert(vec@ =~= start.subrange(i as int, len as int) + present(outs));
    }
    assert(start.subrange(len as int, len as int) + present(outs) =~= present(outs));
}

} // verus!
