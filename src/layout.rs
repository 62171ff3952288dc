//! Placement of an actor's payload behind the record's header.
use vstd::prelude::*;

verus! {

/// `size` rounded up to the next multiple of `align`.
pub open spec fn round_up(size: nat, align: nat) -> nat
    recommends
        align > 0,
{
    if size % align == 0 {
        size
    } else {
        size + (align - size % align) as nat
    }
}

/// The offset at which a payload aligned to `align` bytes starts behind a
/// header of `header` bytes: the header size rounded up to the alignment.
pub fn inner_data_offset_align(header: usize, align: usize) -> (r: usize)
    requires
        align > 0,
        header + align <= usize::MAX,
    ensures
        r == round_up(header as nat, align as nat),
        r % align == 0,
        header <= r < header + align,
{
    let rem = header % align;
    if rem == 0 {
        header
    } else {
        let r = header + (align - rem);
        assert(r % align == 0) by (nonlinear_arith)
            requires
                r == header + (align - rem),
                rem == header % align,
                align > 0,
        {
            assert(header == align * (header / align) + rem);
            assert(r == align * (header / align + 1));
        }
        r
    }
}

} // verus!
