use comment_stripping::layout::{pad, StructLayout, TypeInfo};

fn member(size: usize, alignment: usize) -> TypeInfo {
    TypeInfo { size, alignment }
}

#[test]
fn pad_rounds_up_to_the_next_multiple() {
    assert_eq!(pad(0, 4), 0);
    assert_eq!(pad(1, 4), 4);
    assert_eq!(pad(4, 4), 4);
    assert_eq!(pad(5, 4), 8);
    assert_eq!(pad(6, 2), 6);
    assert_eq!(pad(7, 1), 7);
    assert_eq!(pad(16, 8), 16);
    assert_eq!(pad(17, 8), 24);
    assert_eq!(pad(10, 3), 12);
}

#[test]
fn pad_result_is_the_least_multiple() {
    for alignment in 1..9usize {
        for x in 0..40usize {
            let r = pad(x, alignment);
            assert_eq!(r % alignment, 0);
            assert!(x <= r && r < x + alignment);
        }
    }
}

#[test]
fn empty_struct() {
    let layout = StructLayout::compute(&[]);
    assert!(layout.member_offsets.is_empty());
    assert!(layout.paddings.is_empty());
    assert_eq!(layout.total_size, 0);
    assert_eq!(layout.alignment, 1);
}

#[test]
fn single_member() {
    let layout = StructLayout::compute(&[member(3, 2)]);
    assert_eq!(layout.member_offsets, vec![0]);
    assert!(layout.paddings.is_empty());
    assert_eq!(layout.total_size, 4);
    assert_eq!(layout.alignment, 2);
}

#[test]
fn three_members() {
    let members = vec![member(4, 4), member(2, 2), member(8, 8)];
    let layout = StructLayout::compute(&members);
    assert_eq!(layout.member_offsets, vec![0, 4, 8]);
    assert_eq!(layout.paddings, vec![0, 2]);
    assert_eq!(layout.total_size, 16);
    assert_eq!(layout.alignment, 8);
}

#[test]
fn small_member_before_large_one() {
    let members = vec![member(1, 1), member(8, 8), member(1, 1)];
    let layout = StructLayout::compute(&members);
    assert_eq!(layout.member_offsets, vec![0, 8, 16]);
    assert_eq!(layout.paddings, vec![7, 0]);
    assert_eq!(layout.total_size, 24);
    assert_eq!(layout.alignment, 8);
}

#[test]
fn largest_alignment_may_stand_anywhere() {
    assert_eq!(StructLayout::compute(&[member(8, 8), member(1, 1)]).alignment, 8);
    assert_eq!(StructLayout::compute(&[member(1, 1), member(8, 8)]).alignment, 8);
    assert_eq!(StructLayout::compute(&[member(2, 2), member(4, 4), member(1, 1)]).alignment, 4);
}

#[test]
fn members_are_aligned_and_in_order() {
    let members = vec![member(1, 1), member(2, 2), member(1, 1), member(4, 4), member(3, 1), member(8, 8)];
    let layout = StructLayout::compute(&members);
    assert_eq!(layout.member_offsets.len(), members.len());
    assert_eq!(layout.paddings.len(), members.len() - 1);
    for i in 0..members.len() {
        assert_eq!(layout.member_offsets[i] % members[i].alignment, 0);
    }
    for i in 0..members.len() - 1 {
        let end = layout.member_offsets[i] + members[i].size;
        assert_eq!(layout.member_offsets[i + 1], end + layout.paddings[i]);
        assert!(layout.paddings[i] < members[i + 1].alignment);
    }
    assert_eq!(layout.total_size % layout.alignment, 0);
    assert_eq!(layout.member_offsets, vec![0, 2, 4, 8, 12, 16]);
    assert_eq!(layout.total_size, 24);
}

#[test]
fn fits_accepts_ordinary_members() {
    assert!(StructLayout::fits(&[]));
    assert!(StructLayout::fits(&[member(4, 4), member(2, 2), member(8, 8)]));
    assert!(StructLayout::fits(&[member(0, 1)]));
}

#[test]
fn fits_rejects_zero_alignment() {
    assert!(!StructLayout::fits(&[member(4, 0)]));
    assert!(!StructLayout::fits(&[member(4, 4), member(2, 0)]));
    assert!(StructLayout::try_compute(&[member(4, 4), member(2, 0), member(1, 1)]).is_none());
}

#[test]
fn fits_rejects_what_overflows() {
    assert!(!StructLayout::fits(&[member(usize::MAX, 1)]));
    assert!(!StructLayout::fits(&[member(usize::MAX - 1, 1), member(1, 2)]));
    assert!(!StructLayout::fits(&[member(8, 8), member(usize::MAX - 8, 1)]));
    assert!(StructLayout::fits(&[member(usize::MAX - 1, 1)]));
    assert!(StructLayout::try_compute(&[member(usize::MAX, 1), member(1, 1)]).is_none());
}

#[test]
fn try_compute_agrees_with_compute() {
    let members = vec![member(4, 4), member(2, 2), member(8, 8)];
    let layout = StructLayout::try_compute(&members).unwrap();
    assert_eq!(layout.member_offsets, vec![0, 4, 8]);
    assert_eq!(layout.paddings, vec![0, 2]);
    assert_eq!(layout.total_size, 16);
    assert_eq!(layout.alignment, 8);
    let largest = StructLayout::try_compute(&[member(usize::MAX - 1, 1)]).unwrap();
    assert_eq!(largest.total_size, usize::MAX - 1);
}
