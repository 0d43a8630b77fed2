//! Offsets, paddings and size of a struct whose members are laid out in
//! declaration order, each at the next multiple of its alignment.

use vstd::prelude::*;
use vstd::arithmetic::div_mod::{
    lemma_fundamental_div_mod, lemma_mod_bound, lemma_mod_multiples_basic,
};

verus! {

/// Size and alignment of one member, in bytes.
#[derive(Debug, Clone, Copy)]
pub struct TypeInfo {
    /// The bytes the member takes.
    pub size: usize,
    /// The member stands at a multiple of this many bytes.
    pub alignment: usize,
}

/// Where the members of a struct stand.
#[derive(Debug)]
pub struct StructLayout {
    /// The offset of each member, in declaration order.
    pub member_offsets: Vec<usize>,
    /// The unused bytes between each member and the next.
    pub paddings: Vec<usize>,
    /// The size of the struct, trailing padding included.
    pub total_size: usize,
    /// The alignment of the struct.
    pub alignment: usize,
}

/// `x` rounded up to a multiple of `alignment`.
pub open spec fn padded(x: int, alignment: int) -> int {
    ((x + alignment - 1) / alignment) * alignment
}

/// `padded(x, alignment)` is a multiple of `alignment`, and the first
/// that is not below `x`: it lies less than one `alignment` above `x`.
pub proof fn law_padded_next_multiple(x: int, alignment: int)
    requires
        0 <= x,
        0 < alignment,
    ensures
        padded(x, alignment) % alignment == 0,
        x <= padded(x, alignment) < x + alignment,
{
    let q = (x + alignment - 1) / alignment;
    lemma_fundamental_div_mod(x + alignment - 1, alignment);
    lemma_mod_bound(x + alignment - 1, alignment);
    lemma_mod_multiples_basic(q, alignment);
    assert(alignment * q == q * alignment) by (nonlinear_arith);
}

/// No multiple of `alignment` lies between `x` and `padded(x, alignment)`.
pub proof fn law_padded_least(x: int, alignment: int, m: int)
    requires
        0 <= x <= m,
        0 < alignment,
        m % alignment == 0,
    ensures
        padded(x, alignment) <= m,
{
    let q = (x + alignment - 1) / alignment;
    let k = m / alignment;
    law_padded_next_multiple(x, alignment);
    lemma_fundamental_div_mod(m, alignment);
    assert(alignment * q == q * alignment) by (nonlinear_arith);
    assert(k >= q) by (nonlinear_arith)
        requires
            alignment * k > alignment * q - alignment,
            alignment > 0,
    ;
    assert(alignment * k >= alignment * q) by (nonlinear_arith)
        requires
            k >= q,
            alignment > 0,
    ;
}

/// Rounds `x` up to a multiple of `alignment`.
pub fn pad(x: usize, alignment: usize) -> (r: usize)
    requires
        alignment > 0,
        x + alignment <= usize::MAX,
    ensures
        r == padded(x as int, alignment as int),
        r % alignment == 0,
        x <= r < x + alignment,
{
    proof {
        law_padded_next_multiple(x as int, alignment as int);
    }
    ((x + alignment - 1) / alignment) * alignment
}

/// The offset of member `i`: zero for the first, and for each other the
/// end of the member before it, rounded up to its own alignment.
pub open spec fn offset_at(members: Seq<TypeInfo>, i: int) -> int
    decreases i,
{
    if i <= 0 {
        0
    } else {
        padded(offset_at(members, i - 1) + members[i - 1].size, members[i].alignment as int)
    }
}

/// The first byte behind member `i`.
pub open spec fn end_at(members: Seq<TypeInfo>, i: int) -> int {
    offset_at(members, i) + members[i].size
}

/// The largest alignment among `members`, and 1 where there is none.
pub open spec fn max_alignment(members: Seq<TypeInfo>) -> int
    decreases members.len(),
{
    if members.len() == 0 {
        1
    } else {
        let before = max_alignment(members.drop_last());
        if members.last().alignment > before {
            members.last().alignment as int
        } else {
            before
        }
    }
}

/// The size of the struct: the end of its last member, rounded up to the
/// struct's alignment; zero for a struct without members.
pub open spec fn total_size_of(members: Seq<TypeInfo>) -> int {
    if members.len() == 0 {
        0
    } else {
        padded(end_at(members, members.len() - 1), max_alignment(members))
    }
}

/// Every alignment of `members` is positive.
pub open spec fn alignments_positive(members: Seq<TypeInfo>) -> bool {
    forall|i: int| 0 <= i < members.len() ==> (#[trigger] members[i]).alignment > 0
}

/// Every alignment is positive, and each rounding of the layout can be
/// computed in a `usize`.
pub open spec fn representable(members: Seq<TypeInfo>) -> bool {
    &&& alignments_positive(members)
    &&& forall|i: int|
        1 <= i < members.len() ==> end_at(members, i - 1) + (#[trigger] members[i]).alignment
            <= usize::MAX
    &&& members.len() > 0 ==> end_at(members, members.len() - 1) + max_alignment(members)
        <= usize::MAX
}

impl StructLayout {
    /// This is the layout of a struct with the given members.
    pub open spec fn describes(&self, members: Seq<TypeInfo>) -> bool {
        &&& self.member_offsets@.len() == members.len()
        &&& forall|i: int|
            0 <= i < members.len() ==> #[trigger] self.member_offsets@[i] == offset_at(members, i)
        &&& self.paddings@.len() == if members.len() == 0 {
            0
        } else {
            members.len() - 1
        }
        &&& forall|i: int|
            0 <= i < members.len() - 1 ==> #[trigger] self.paddings@[i] == offset_at(members, i + 1)
                - end_at(members, i)
        &&& self.total_size == total_size_of(members)
        &&& self.alignment == max_alignment(members)
    }

    /// Lays out a struct with the given members.
    pub fn compute(members: &[TypeInfo]) -> (layout: Self)
        requires
            representable(members@),
        ensures
            layout.describes(members@),
    {
        if members.is_empty() {
            return StructLayout {
                member_offsets: vec![],
                paddings: vec![],
                total_size: 0,
                alignment: 1,
            };
        }
        let n = members.len();
        let mut offsets: Vec<usize> = Vec::with_capacity(n);
        let mut paddings: Vec<usize> = Vec::with_capacity(n - 1);
        offsets.push(0);
        let mut struct_alignment = members[0].alignment;
        proof {
            assert(members@.take(1).drop_last() =~= Seq::<TypeInfo>::empty());
            assert(max_alignment(Seq::<TypeInfo>::empty()) == 1);
        }
        let mut i: usize = 1;
        while i < n
            invariant
                1 <= i <= n,
                n == members@.len(),
                representable(members@),
                offsets@.len() == i,
                paddings@.len() == i - 1,
                forall|k: int| 0 <= k < i ==> #[trigger] offsets@[k] == offset_at(members@, k),
                forall|k: int|
                    0 <= k < i - 1 ==> #[trigger] paddings@[k] == offset_at(members@, k + 1) - end_at(
                        members@,
                        k,
                    ),
                struct_alignment == max_alignment(members@.take(i as int)),
            decreases n - i,
        {
            let member = &members[i];
            let previous_end = offsets[i - 1] + members[i - 1].size;
            let aligned_offset = pad(previous_end, member.alignment);
            paddings.push(aligned_offset - previous_end);
            offsets.push(aligned_offset);
            if member.alignment > struct_alignment {
                struct_alignment = member.alignment;
            }
            proof {
                assert(members@.take(i + 1).drop_last() =~= members@.take(i as int));
            }
            i += 1;
        }
        proof {
            assert(members@.take(n as int) =~= members@);
        }
        let last_member_end = offsets[n - 1] + members[n - 1].size;
        let total_size = pad(last_member_end, struct_alignment);
        StructLayout { member_offsets: offsets, paddings, total_size, alignment: struct_alignment }
    }

    /// Whether a struct with the given members can be laid out: whether
    /// `compute` accepts them.
    pub fn fits(members: &[TypeInfo]) -> (ok: bool)
        ensures
            ok == representable(members@),
    {
        let n = members.len();
        if n == 0 {
            return true;
        }
        if members[0].alignment == 0 {
            return false;
        }
        let mut offset: usize = 0;
        let mut struct_alignment = members[0].alignment;
        proof {
            assert(members@.take(1).drop_last() =~= Seq::<TypeInfo>::empty());
            assert(max_alignment(Seq::<TypeInfo>::empty()) == 1);
        }
        let mut i: usize = 1;
        while i < n
            invariant
                1 <= i <= n,
                n == members@.len(),
                offset == offset_at(members@, i - 1),
                struct_alignment == max_alignment(members@.take(i as int)),
                forall|k: int| 0 <= k < i ==> (#[trigger] members@[k]).alignment > 0,
                forall|k: int|
                    1 <= k < i ==> end_at(members@, k - 1) + (#[trigger] members@[k]).alignment
                        <= usize::MAX,
            decreases n - i,
        {
            let alignment = members[i].alignment;
            if alignment == 0 {
                return false;
            }
            let previous_end = match offset.checked_add(members[i - 1].size) {
                Some(end) => end,
                None => {
                    return false;
                },
            };
            if previous_end.checked_add(alignment).is_none() {
                return false;
            }
            offset = pad(previous_end, alignment);
            if alignment > struct_alignment {
                struct_alignment = alignment;
            }
            proof {
                assert(members@.take(i + 1).drop_last() =~= members@.take(i as int));
            }
            i += 1;
        }
        proof {
            assert(members@.take(n as int) =~= members@);
        }
        match offset.checked_add(members[n - 1].size) {
            Some(end) => end.checked_add(struct_alignment).is_some(),
            None => false,
        }
    }

    /// Lays out a struct with the given members where that can be done,
    /// and returns `None` where an alignment is zero or the layout does
    /// not fit.
    pub fn try_compute(members: &[TypeInfo]) -> (r: Option<Self>)
        ensures
            r is Some <==> representable(members@),
            r matches Some(layout) ==> layout.describes(members@),
    {
        if Self::fits(members) {
            Some(Self::compute(members))
        } else {
            None
        }
    }
}

/// No member stands below zero.
pub proof fn lemma_offset_nonnegative(members: Seq<TypeInfo>, i: int)
    requires
        alignments_positive(members),
        0 <= i < members.len(),
    ensures
        0 <= offset_at(members, i),
    decreases i,
{
    if i > 0 {
        lemma_offset_nonnegative(members, i - 1);
        law_padded_next_multiple(end_at(members, i - 1), members[i].alignment as int);
    }
}

/// Every member stands at a multiple of its own alignment.
pub proof fn law_member_aligned(members: Seq<TypeInfo>, i: int)
    requires
        alignments_positive(members),
        0 <= i < members.len(),
    ensures
        offset_at(members, i) % (members[i].alignment as int) == 0,
{
    let alignment = members[i].alignment as int;
    if i > 0 {
        lemma_offset_nonnegative(members, i - 1);
        law_padded_next_multiple(end_at(members, i - 1), alignment);
    } else {
        assert(0int % alignment == 0) by (nonlinear_arith)
            requires
                alignment > 0,
        ;
    }
}

/// Members do not overlap, and the gap in front of a member is smaller
/// than its alignment.
pub proof fn law_members_in_order(members: Seq<TypeInfo>, i: int)
    requires
        alignments_positive(members),
        0 <= i,
        i + 1 < members.len(),
    ensures
        end_at(members, i) <= offset_at(members, i + 1) < end_at(members, i) + members[i
            + 1].alignment,
{
    lemma_offset_nonnegative(members, i);
    law_padded_next_multiple(end_at(members, i), members[i + 1].alignment as int);
}

/// No member is aligned more strictly than the struct.
pub proof fn law_max_alignment_bounds(members: Seq<TypeInfo>, i: int)
    requires
        0 <= i < members.len(),
    ensures
        members[i].alignment <= max_alignment(members),
    decreases members.len(),
{
    if i < members.len() - 1 {
        law_max_alignment_bounds(members.drop_last(), i);
    }
}

/// The alignment of a struct with members is that of one of them.
pub proof fn law_max_alignment_attained(members: Seq<TypeInfo>) -> (i: int)
    requires
        alignments_positive(members),
        members.len() > 0,
    ensures
        0 <= i < members.len(),
        members[i].alignment == max_alignment(members),
    decreases members.len(),
{
    let front = members.drop_last();
    if members.last().alignment > max_alignment(front) {
        members.len() - 1
    } else if front.len() == 0 {
        members.len() - 1
    } else {
        assert forall|k: int| 0 <= k < front.len() implies (#[trigger] front[k]).alignment > 0 by {
            assert(front[k] == members[k]);
        }
        law_max_alignment_attained(front)
    }
}

/// The size of a struct is a multiple of its alignment, and the padding
/// behind the last member is smaller than that alignment.
pub proof fn law_total_size_aligned(members: Seq<TypeInfo>)
    requires
        alignments_positive(members),
        members.len() > 0,
    ensures
        total_size_of(members) % max_alignment(members) == 0,
        end_at(members, members.len() - 1) <= total_size_of(members) < end_at(
            members,
            members.len() - 1,
        ) + max_alignment(members),
{
    lemma_offset_nonnegative(members, members.len() - 1);
    law_max_alignment_bounds(members, members.len() - 1);
    law_padded_next_multiple(end_at(members, members.len() - 1), max_alignment(members));
}

} // verus!
