//! What holds of the rows of a well-formed image: how many there are, where
//! each segment's block lies, and in which order the rows come.

use vstd::prelude::*;
use crate::layout::{ImageModel, SegmentModel};
use crate::rows::{
    DefectModel,
    first_defect,
    first_unnamed,
    image_rows,
    present,
    section_block,
    segment_block,
    segment_defect,
    well_formed,
    RowModel,
};

verus! {

/// A segment that walking meets no defect in.
pub open spec fn sound(seg: SegmentModel) -> bool {
    &&& present(seg.name)
    &&& seg.sections is Some
    &&& seg.sections->0.len() == seg.declared_sections
    &&& forall|j: int| 0 <= j < seg.sections->0.len() ==> present(#[trigger] seg.sections->0[j])
}

/// The index at which the block of segment number `k` starts: each earlier
/// segment takes one header row and one row per declared section.
pub open spec fn block_start(image: ImageModel, k: int) -> int
    decreases k,
{
    if k <= 0 {
        0
    } else {
        block_start(image, k - 1) + 1 + image[k - 1].declared_sections
    }
}

/// How many of the rows are segment headers.
pub open spec fn header_count(rows: Seq<RowModel>) -> nat
    decreases rows.len(),
{
    if rows.len() == 0 {
        0
    } else {
        header_count(rows.drop_last()) + if rows.last() is SegmentHeader {
            1nat
        } else {
            0nat
        }
    }
}

/// No section lacks a name exactly when every section has one.
pub proof fn lemma_all_named(names: Seq<Option<Seq<char>>>)
    ensures
        first_unnamed(names) is None <==> forall|j: int|
            0 <= j < names.len() ==> present(#[trigger] names[j]),
        first_unnamed(names) matches Some(j) ==> 0 <= j < names.len() && !present(names[j])
            && forall|i: int| 0 <= i < j ==> present(#[trigger] names[i]),
    decreases names.len(),
{
    if names.len() > 0 {
        let shorter = names.drop_last();
        lemma_all_named(shorter);
        assert forall|j: int| 0 <= j < shorter.len() implies shorter[j] == names[j] by {}
        if first_unnamed(names) is None {
            assert forall|j: int| 0 <= j < names.len() implies present(#[trigger] names[j]) by {
                if j < shorter.len() {
                    assert(present(shorter[j]));
                }
            }
        } else {
            let j = first_unnamed(names)->0;
            assert forall|i: int| 0 <= i < j implies present(#[trigger] names[i]) by {
                assert(present(shorter[i]));
            }
        }
    }
}

/// A segment has no defect exactly when it is sound.
pub proof fn lemma_sound_segment(seg: SegmentModel, k: int)
    ensures
        segment_defect(seg, k) is None <==> sound(seg),
{
    if seg.sections is Some {
        lemma_all_named(seg.sections->0);
    }
}

/// An image is well formed exactly when each of its segments is sound.
pub proof fn lemma_well_formed_segments(image: ImageModel)
    ensures
        well_formed(image) <==> forall|k: int| 0 <= k < image.len() ==> sound(#[trigger] image[k]),
    decreases image.len(),
{
    if image.len() > 0 {
        let shorter = image.drop_last();
        lemma_well_formed_segments(shorter);
        lemma_sound_segment(image.last(), image.len() - 1);
        assert forall|k: int| 0 <= k < shorter.len() implies shorter[k] == image[k] by {}
        if well_formed(image) {
            assert forall|k: int| 0 <= k < image.len() implies sound(#[trigger] image[k]) by {
                if k < shorter.len() {
                    assert(sound(shorter[k]));
                }
            }
        } else if well_formed(shorter) {
            assert(!sound(image[image.len() - 1]));
        } else {
            let k = choose|k: int| 0 <= k < shorter.len() && !sound(#[trigger] shorter[k]);
            assert(!sound(image[k]));
        }
    }
}

/// The segment that a defect lies in.
pub open spec fn defect_segment(defect: DefectModel) -> int {
    match defect {
        DefectModel::SegmentName { segment } => segment,
        DefectModel::Sections { segment } => segment,
        DefectModel::SectionCount { segment, .. } => segment,
        DefectModel::SectionName { segment, .. } => segment,
    }
}

/// The first defect of an image lies in its first unsound segment, and is
/// that segment's defect.
pub proof fn lemma_first_defect(image: ImageModel)
    requires
        first_defect(image) is Some,
    ensures
        ({
            let k = defect_segment(first_defect(image)->0);
            &&& 0 <= k < image.len()
            &&& first_defect(image) == segment_defect(image[k], k)
            &&& forall|i: int| 0 <= i < k ==> sound(#[trigger] image[i])
        }),
    decreases image.len(),
{
    let shorter = image.drop_last();
    if first_defect(shorter) is Some {
        lemma_first_defect(shorter);
        let k = defect_segment(first_defect(image)->0);
        assert(shorter[k] == image[k]);
        assert forall|i: int| 0 <= i < k implies sound(#[trigger] image[i]) by {
            assert(sound(shorter[i]));
        }
    } else {
        lemma_well_formed_segments(shorter);
        assert forall|i: int| 0 <= i < image.len() - 1 implies sound(#[trigger] image[i]) by {
            assert(sound(shorter[i]));
        }
    }
}

/// Where a block starts depends only on the segments before it.
pub proof fn lemma_block_start_of_prefix(image: ImageModel, n: int, k: int)
    requires
        0 <= k <= n <= image.len(),
    ensures
        block_start(image.take(n), k) == block_start(image, k),
    decreases k,
{
    if k > 0 {
        lemma_block_start_of_prefix(image, n, k - 1);
    }
}

/// Blocks start in the order of their segments.
pub proof fn lemma_block_starts_increase(image: ImageModel, a: int, b: int)
    requires
        0 <= a < b,
    ensures
        block_start(image, a) < block_start(image, b),
    decreases b,
{
    if a < b - 1 {
        lemma_block_starts_increase(image, a, b - 1);
    }
}

/// A well-formed image has one row per segment and one per declared
/// section: the rows end where a further block would start.
pub proof fn lemma_row_count(image: ImageModel)
    requires
        well_formed(image),
    ensures
        image_rows(image).len() == block_start(image, image.len() as int),
    decreases image.len(),
{
    if image.len() > 0 {
        let shorter = image.drop_last();
        lemma_row_count(shorter);
        lemma_block_start_of_prefix(image, image.len() - 1, image.len() - 1);
        assert(image.take(image.len() - 1) =~= shorter);
        lemma_sound_segment(image.last(), image.len() - 1);
    }
}

/// The rows of a well-formed image, block by block: at the start of the
/// block of segment `k` stands its header, with its name and its declared
/// count; the rows that follow, as many as it declares, are its sections in
/// on-disk order; and the block lies within the rows.
pub proof fn lemma_block_layout(image: ImageModel, k: int)
    requires
        well_formed(image),
        0 <= k < image.len(),
    ensures
        block_start(image, k + 1) <= image_rows(image).len(),
        image_rows(image)[block_start(image, k)] == (RowModel::SegmentHeader {
            name: image[k].name->0,
            section_count: image[k].declared_sections,
        }),
        forall|j: int|
            0 <= j < image[k].declared_sections ==> #[trigger] image_rows(image)[block_start(
                image,
                k,
            ) + 1 + j] == (RowModel::SectionEntry { name: image[k].sections->0[j]->0 }),
    decreases image.len(),
{
    let n = image.len() as int;
    let shorter = image.drop_last();
    let rows = image_rows(image);
    let block = segment_block(image.last());
    assert(image.take(n - 1) =~= shorter);
    lemma_row_count(shorter);
    lemma_row_count(image);
    lemma_sound_segment(image.last(), n - 1);
    lemma_block_start_of_prefix(image, n - 1, n - 1);
    if k == n - 1 {
        let start = block_start(image, k);
        assert(rows[start] == block[0]);
        assert forall|j: int| 0 <= j < image[k].declared_sections implies #[trigger] rows[start
            + 1 + j] == (RowModel::SectionEntry { name: image[k].sections->0[j]->0 }) by {
            assert(rows[start + 1 + j] == block[1 + j]);
            assert(block[1 + j] == section_block(image[k].sections->0)[j]);
        }
    } else {
        lemma_block_layout(shorter, k);
        lemma_block_start_of_prefix(image, n - 1, k);
        lemma_block_start_of_prefix(image, n - 1, k + 1);
        assert(shorter[k] == image[k]);
        let start = block_start(image, k);
        if k > 0 {
            lemma_block_starts_increase(image, 0, k);
        }
        assert(block_start(shorter, k) == start);
        assert(block_start(shorter, k + 1) == start + 1 + shorter[k].declared_sections);
        assert(start + 1 + image[k].declared_sections <= image_rows(shorter).len());
        assert(rows =~= image_rows(shorter) + block);
        assert(rows[start] == image_rows(shorter)[start]);
        assert forall|j: int| 0 <= j < image[k].declared_sections implies #[trigger] rows[start
            + 1 + j] == (RowModel::SectionEntry { name: image[k].sections->0[j]->0 }) by {
            assert(rows[start + 1 + j] == image_rows(shorter)[start + 1 + j]);
        }
    }
}

/// Header counts add up over concatenation.
pub proof fn lemma_header_count_concat(front: Seq<RowModel>, back: Seq<RowModel>)
    ensures
        header_count(front + back) == header_count(front) + header_count(back),
    decreases back.len(),
{
    if back.len() == 0 {
        assert(front + back =~= front);
    } else {
        assert((front + back).drop_last() =~= front + back.drop_last());
        lemma_header_count_concat(front, back.drop_last());
    }
}

/// Rows of sections hold no header.
pub proof fn lemma_no_header_among_sections(sections: Seq<Option<Seq<char>>>)
    ensures
        header_count(section_block(sections)) == 0,
    decreases sections.len(),
{
    if sections.len() > 0 {
        assert(section_block(sections).drop_last() =~= section_block(sections.drop_last()));
        lemma_no_header_among_sections(sections.drop_last());
    }
}

/// The rows of a well-formed image hold exactly one header per segment.
pub proof fn lemma_one_header_per_segment(image: ImageModel)
    requires
        well_formed(image),
    ensures
        header_count(image_rows(image)) == image.len(),
    decreases image.len(),
{
    if image.len() > 0 {
        lemma_one_header_per_segment(image.drop_last());
        let seg = image.last();
        let header = seq![
            RowModel::SegmentHeader { name: seg.name->0, section_count: seg.declared_sections },
        ];
        assert(header.drop_last() =~= Seq::<RowModel>::empty());
        assert(header_count(header.drop_last()) == 0);
        assert(header_count(header) == 1);
        lemma_no_header_among_sections(seg.sections->0);
        lemma_header_count_concat(header, section_block(seg.sections->0));
        lemma_header_count_concat(image_rows(image.drop_last()), segment_block(seg));
    }
}

/// Order of the rows of a well-formed image: the header of an earlier
/// segment stands before the header of a later one, and each section row
/// stands after the header of its own segment and before the header of the
/// next.
pub proof fn lemma_rows_in_order(image: ImageModel, a: int, b: int, j: int)
    requires
        well_formed(image),
        0 <= a < b < image.len(),
        0 <= j < image[a].declared_sections,
    ensures
        0 <= block_start(image, a) < block_start(image, a) + 1 + j < block_start(image, b),
        block_start(image, b) < image_rows(image).len(),
{
    if a > 0 {
        lemma_block_starts_increase(image, 0, a);
    }
    lemma_block_starts_increase(image, a, a + 1);
    if a + 1 < b {
        lemma_block_starts_increase(image, a + 1, b);
    }
    lemma_block_layout(image, b);
    lemma_block_starts_increase(image, b, b + 1);
}

} // verus!
