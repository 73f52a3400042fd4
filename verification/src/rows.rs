//! Traversal of one image into the ordered rows of its table.
//!
//! Each segment contributes a header row followed by one row per section,
//! in on-disk order. A segment or section without a name, a segment whose
//! sections cannot be enumerated, or one whose declared count differs from
//! the number enumerated, makes the whole image malformed: no rows are
//! produced for it.

use vstd::prelude::*;
use vstd::string::StringExecFns;
use crate::decimal::{decimal, push_decimal};
use crate::layout::{Image, ImageModel, SectionInfo, SectionModel, SegmentInfo, SegmentModel};

verus! {

/// One row of an image's table.
#[derive(Clone, Debug, PartialEq, Eq)]
pub enum Row {
    /// Header of a segment: its name and its declared section count.
    SegmentHeader { name: String, section_count: u32 },
    /// A section, listed under the segment header that precedes it.
    SectionEntry { name: String },
}

/// Mathematical model of a [`Row`].
pub enum RowModel {
    SegmentHeader { name: Seq<char>, section_count: nat },
    SectionEntry { name: Seq<char> },
}

impl View for Row {
    type V = RowModel;

    open spec fn view(&self) -> RowModel {
        match self {
            Row::SegmentHeader { name, section_count } => RowModel::SegmentHeader {
                name: name@,
                section_count: *section_count as nat,
            },
            Row::SectionEntry { name } => RowModel::SectionEntry { name: name@ },
        }
    }
}

impl DeepView for Row {
    type V = RowModel;

    open spec fn deep_view(&self) -> RowModel {
        self@
    }
}

/// Why an image is malformed. Indices count from zero in on-disk order.
#[derive(Clone, Copy, Debug, PartialEq, Eq, Structural)]
pub enum Defect {
    /// The segment has no name.
    SegmentName { segment: usize },
    /// The segment's sections could not be enumerated.
    Sections { segment: usize },
    /// The segment declares `declared` sections but `found` were enumerated.
    SectionCount { segment: usize, declared: u32, found: usize },
    /// The section has no name.
    SectionName { segment: usize, section: usize },
}

/// Mathematical model of a [`Defect`].
pub enum DefectModel {
    SegmentName { segment: int },
    Sections { segment: int },
    SectionCount { segment: int, declared: nat, found: nat },
    SectionName { segment: int, section: int },
}

impl View for Defect {
    type V = DefectModel;

    open spec fn view(&self) -> DefectModel {
        match *self {
            Defect::SegmentName { segment } => DefectModel::SegmentName { segment: segment as int },
            Defect::Sections { segment } => DefectModel::Sections { segment: segment as int },
            Defect::SectionCount { segment, declared, found } => DefectModel::SectionCount {
                segment: segment as int,
                declared: declared as nat,
                found: found as nat,
            },
            Defect::SectionName { segment, section } => DefectModel::SectionName {
                segment: segment as int,
                section: section as int,
            },
        }
    }
}

/// A name is present when its lookup succeeded and it is not empty.
pub open spec fn present(name: Option<Seq<char>>) -> bool {
    name is Some && name->0.len() > 0
}

/// Index of the first section without a name, if there is one.
pub open spec fn first_unnamed(sections: Seq<SectionModel>) -> Option<int>
    decreases sections.len(),
{
    if sections.len() == 0 {
        None
    } else {
        match first_unnamed(sections.drop_last()) {
            Some(j) => Some(j),
            None => if present(sections.last()) {
                None
            } else {
                Some(sections.len() - 1)
            },
        }
    }
}

/// The first defect met when segment number `k` is walked: its name, then
/// its section list, then the declared count, then each section's name.
pub open spec fn segment_defect(seg: SegmentModel, k: int) -> Option<DefectModel> {
    if !present(seg.name) {
        Some(DefectModel::SegmentName { segment: k })
    } else if seg.sections is None {
        Some(DefectModel::Sections { segment: k })
    } else if seg.sections->0.len() != seg.declared_sections {
        Some(
            DefectModel::SectionCount {
                segment: k,
                declared: seg.declared_sections,
                found: seg.sections->0.len(),
            },
        )
    } else {
        match first_unnamed(seg.sections->0) {
            Some(j) => Some(DefectModel::SectionName { segment: k, section: j }),
            None => None,
        }
    }
}

/// The first defect met when the image is walked in on-disk order.
pub open spec fn first_defect(image: ImageModel) -> Option<DefectModel>
    decreases image.len(),
{
    if image.len() == 0 {
        None
    } else {
        match first_defect(image.drop_last()) {
            Some(d) => Some(d),
            None => segment_defect(image.last(), image.len() - 1),
        }
    }
}

/// An image is well formed when walking it meets no defect.
pub open spec fn well_formed(image: ImageModel) -> bool {
    first_defect(image) is None
}

/// The rows of the sections in `sections`, in order.
pub open spec fn section_block(sections: Seq<SectionModel>) -> Seq<RowModel> {
    Seq::new(sections.len(), |j: int| RowModel::SectionEntry { name: sections[j]->0 })
}

/// The rows of one segment: its header, then its sections.
pub open spec fn segment_block(seg: SegmentModel) -> Seq<RowModel> {
    seq![RowModel::SegmentHeader { name: seg.name->0, section_count: seg.declared_sections }]
        + section_block(seg.sections->0)
}

/// The rows of an image: the blocks of its segments, one after another.
pub open spec fn image_rows(image: ImageModel) -> Seq<RowModel>
    decreases image.len(),
{
    if image.len() == 0 {
        Seq::empty()
    } else {
        image_rows(image.drop_last()) + segment_block(image.last())
    }
}

/// A defect found in a prefix of an image is the image's first defect.
pub proof fn lemma_defect_in_prefix(image: ImageModel, k: int)
    requires
        0 <= k <= image.len(),
        first_defect(image.take(k)) is Some,
    ensures
        first_defect(image) == first_defect(image.take(k)),
    decreases image.len() - k,
{
    if k < image.len() {
        assert(image.take(k + 1).drop_last() =~= image.take(k));
        lemma_defect_in_prefix(image, k + 1);
    } else {
        assert(image.take(k) =~= image);
    }
}

/// The name, where it is present.
fn present_name(name: &Option<String>) -> (r: Option<String>)
    ensures
        match r {
            Some(n) => name is Some && n@ == name->0@ && n@.len() > 0,
            None => name is None || name->0@.len() == 0,
        },
{
    match name {
        Some(n) => {
            if n.as_str().is_empty() {
                None
            } else {
                Some(n.clone())
            }
        },
        None => None,
    }
}

/// Walks one segment: appends its block to `rows`, or reports its first
/// defect.
fn push_segment(seg: &SegmentInfo, k: usize, rows: &mut Vec<Row>) -> (r: Option<Defect>)
    ensures
        match r {
            None => segment_defect(seg@, k as int) is None && final(rows).deep_view() == old(
                rows,
            ).deep_view() + segment_block(seg@),
            Some(d) => segment_defect(seg@, k as int) == Some(d@),
        },
{
    let name = match present_name(&seg.name) {
        Some(n) => n,
        None => {
            return Some(Defect::SegmentName { segment: k });
        },
    };
    let sections = match &seg.sections {
        Some(v) => v,
        None => {
            return Some(Defect::Sections { segment: k });
        },
    };
    let found = sections.len();
    if found as u64 != seg.declared_sections as u64 {
        return Some(
            Defect::SectionCount { segment: k, declared: seg.declared_sections, found },
        );
    }
    let ghost before = rows.deep_view();
    let ghost models = seg@.sections->0;
    rows.push(Row::SegmentHeader { name, section_count: seg.declared_sections });
    let ghost header = seq![
        RowModel::SegmentHeader { name: seg@.name->0, section_count: seg@.declared_sections },
    ];
    assert(rows.deep_view() =~= before + header);
    let mut j: usize = 0;
    while j < found
        invariant
            j <= found,
            found == sections@.len(),
            seg.sections == Some(*sections),
            models == seg@.sections->0,
            models.len() == found,
            present(seg@.name),
            found == seg@.declared_sections,
            first_unnamed(models.take(j as int)) is None,
            rows.deep_view() == before + header + section_block(models.take(j as int)),
        decreases found - j,
    {
        proof {
            assert(models.take(j + 1).drop_last() =~= models.take(j as int));
            assert(models[j as int] == sections@[j as int]@);
        }
        let ghost sofar = rows.deep_view();
        match present_name(&sections[j].name) {
            Some(n) => {
                rows.push(Row::SectionEntry { name: n });
                assert(rows.deep_view() =~= sofar.push(RowModel::SectionEntry { name: n@ }));
                assert(section_block(models.take(j + 1)) =~= section_block(
                    models.take(j as int),
                ).push(RowModel::SectionEntry { name: n@ }));
            },
            None => {
                proof {
                    assert(!present(models[j as int]));
                    assert(first_unnamed(models.take(j + 1)) == Some(j as int));
                    lemma_unnamed_in_prefix(models, j + 1);
                }
                return Some(Defect::SectionName { segment: k, section: j });
            },
        }
        j += 1;
    }
    proof {
        assert(models.take(found as int) =~= models);
    }
    None
}

/// A section without a name found in a prefix is the first one of the whole
/// list.
pub proof fn lemma_unnamed_in_prefix(sections: Seq<SectionModel>, j: int)
    requires
        0 <= j <= sections.len(),
        first_unnamed(sections.take(j)) is Some,
    ensures
        first_unnamed(sections) == first_unnamed(sections.take(j)),
    decreases sections.len() - j,
{
    if j < sections.len() {
        assert(sections.take(j + 1).drop_last() =~= sections.take(j));
        lemma_unnamed_in_prefix(sections, j + 1);
    } else {
        assert(sections.take(j) =~= sections);
    }
}

/// The rows of an image's table: for each segment in on-disk order its
/// header row, then one row for each of its sections in on-disk order.
///
/// Returns the rows exactly when the image is well formed, and otherwise
/// the first defect met in that order.
pub fn section_rows(image: &Image) -> (r: Result<Vec<Row>, Defect>)
    ensures
        match r {
            Ok(rows) => well_formed(image@) && rows.deep_view() == image_rows(image@),
            Err(d) => first_defect(image@) == Some(d@),
        },
{
    let mut rows: Vec<Row> = Vec::new();
    let n = image.segments.len();
    let mut k: usize = 0;
    assert(rows.deep_view() =~= image_rows(image@.take(0)));
    while k < n
        invariant
            k <= n,
            n == image.segments@.len(),
            first_defect(image@.take(k as int)) is None,
            rows.deep_view() == image_rows(image@.take(k as int)),
        decreases n - k,
    {
        proof {
            assert(image@.take(k + 1).drop_last() =~= image@.take(k as int));
            assert(image@.take(k + 1).last() == image.segments@[k as int]@);
        }
        match push_segment(&image.segments[k], k, &mut rows) {
            Some(d) => {
                proof {
                    lemma_defect_in_prefix(image@, k + 1);
                }
                return Err(d);
            },
            None => {},
        }
        k += 1;
    }
    proof {
        assert(image@.take(n as int) =~= image@);
    }
    Ok(rows)
}

/// The annotation that a segment header carries for `n` declared sections.
pub open spec fn annotation(n: nat) -> Seq<char> {
    "Contains "@ + decimal(n) + " sections"@
}

/// The two cells of a row: a header shows the segment's name and its
/// annotation; a section leaves the segment column blank.
pub open spec fn row_cells(row: RowModel) -> Seq<Seq<char>> {
    match row {
        RowModel::SegmentHeader { name, section_count } => seq![name, annotation(section_count)],
        RowModel::SectionEntry { name } => seq![Seq::empty(), name],
    }
}

/// The cells of a sequence of rows, row by row.
pub open spec fn table_cells(rows: Seq<RowModel>) -> Seq<Seq<Seq<char>>> {
    Seq::new(rows.len(), |i: int| row_cells(rows[i]))
}

impl Row {
    /// The text of the row's two cells, segment column first.
    pub fn cells(&self) -> (cells: Vec<String>)
        ensures
            cells.deep_view() == row_cells(self@),
    {
        let mut cells: Vec<String> = Vec::new();
        match self {
            Row::SegmentHeader { name, section_count } => {
                let mut note = String::from_str("Contains ");
                push_decimal(&mut note, *section_count);
                note.append(" sections");
                cells.push(name.clone());
                cells.push(note);
            },
            Row::SectionEntry { name } => {
                cells.push(String::new());
                cells.push(name.clone());
            },
        }
        assert(cells.deep_view() =~= row_cells(self@));
        cells
    }
}

/// The cells of `rows`, row by row.
pub fn cells_of(rows: &Vec<Row>) -> (cells: Vec<Vec<String>>)
    ensures
        cells.deep_view() == table_cells(rows.deep_view()),
{
    let mut cells: Vec<Vec<String>> = Vec::new();
    let mut i: usize = 0;
    while i < rows.len()
        invariant
            i <= rows.len(),
            cells@.len() == i,
            forall|p: int| 0 <= p < i ==> (#[trigger] cells@[p]).deep_view() == row_cells(rows@[p]@),
        decreases rows.len() - i,
    {
        cells.push(rows[i].cells());
        i += 1;
    }
    assert(cells.deep_view() =~= table_cells(rows.deep_view()));
    cells
}

/// The names of an image's segments as they were looked up, in order.
pub open spec fn segment_lookups(image: ImageModel) -> Seq<Option<Seq<char>>> {
    Seq::new(image.len(), |k: int| image[k].name)
}

/// The names of an image's segments, in on-disk order.
///
/// Returns them exactly when every segment has a name, and otherwise the
/// first segment that has none.
pub fn segment_names(image: &Image) -> (r: Result<Vec<String>, Defect>)
    ensures
        match r {
            Ok(names) => first_unnamed(segment_lookups(image@)) is None && names.deep_view()
                == Seq::new(image@.len(), |k: int| image@[k].name->0),
            Err(defect) => first_unnamed(segment_lookups(image@)) is Some && defect@
                == (DefectModel::SegmentName {
                segment: first_unnamed(segment_lookups(image@))->0,
            }),
        },
{
    let ghost lookups = segment_lookups(image@);
    let mut names: Vec<String> = Vec::new();
    let n = image.segments.len();
    let mut k: usize = 0;
    while k < n
        invariant
            k <= n,
            n == image.segments@.len(),
            lookups == segment_lookups(image@),
            first_unnamed(lookups.take(k as int)) is None,
            names@.len() == k,
            forall|i: int| 0 <= i < k ==> (#[trigger] names@[i])@ == image@[i].name->0,
        decreases n - k,
    {
        proof {
            assert(lookups.take(k + 1).drop_last() =~= lookups.take(k as int));
            assert(lookups[k as int] == image.segments@[k as int]@.name);
        }
        match present_name(&image.segments[k].name) {
            Some(name) => names.push(name),
            None => {
                proof {
                    assert(!present(lookups[k as int]));
                    assert(first_unnamed(lookups.take(k + 1)) == Some(k as int));
                    lemma_unnamed_in_prefix(lookups, k + 1);
                }
                return Err(Defect::SegmentName { segment: k });
            },
        }
        k += 1;
    }
    proof {
        assert(lookups.take(n as int) =~= lookups);
        assert(names.deep_view() =~= Seq::new(image@.len(), |k: int| image@[k].name->0));
    }
    Ok(names)
}

/// The cells of the segment-only table: one cell per row, the segment's
/// name.
pub open spec fn name_cells(names: Seq<Seq<char>>) -> Seq<Seq<Seq<char>>> {
    Seq::new(names.len(), |k: int| seq![names[k]])
}

/// One row of one cell for each name.
pub fn cells_of_names(names: &Vec<String>) -> (cells: Vec<Vec<String>>)
    ensures
        cells.deep_view() == name_cells(names.deep_view()),
{
    let mut cells: Vec<Vec<String>> = Vec::new();
    let mut k: usize = 0;
    while k < names.len()
        invariant
            k <= names.len(),
            cells@.len() == k,
            forall|i: int| 0 <= i < k ==> (#[trigger] cells@[i]).deep_view() == seq![names@[i]@],
        decreases names.len() - k,
    {
        let mut row: Vec<String> = Vec::new();
        row.push(names[k].clone());
        assert(row.deep_view() =~= seq![names@[k as int]@]);
        cells.push(row);
        k += 1;
    }
    assert(cells.deep_view() =~= name_cells(names.deep_view()));
    cells
}

/// The sections of all segments of an image, one segment after another.
pub open spec fn all_sections(image: ImageModel) -> Seq<SectionModel>
    decreases image.len(),
{
    if image.len() == 0 {
        Seq::empty()
    } else {
        all_sections(image.drop_last()) + image.last().sections->0
    }
}

/// The first segment whose sections could not be enumerated, if there is
/// one.
pub open spec fn first_unlisted(image: ImageModel) -> Option<int>
    decreases image.len(),
{
    if image.len() == 0 {
        None
    } else {
        match first_unlisted(image.drop_last()) {
            Some(k) => Some(k),
            None => if image.last().sections is Some {
                None
            } else {
                Some(image.len() - 1)
            },
        }
    }
}

/// A segment without a section list found in a prefix is the first one of
/// the whole image.
pub proof fn lemma_unlisted_in_prefix(image: ImageModel, k: int)
    requires
        0 <= k <= image.len(),
        first_unlisted(image.take(k)) is Some,
    ensures
        first_unlisted(image) == first_unlisted(image.take(k)),
    decreases image.len() - k,
{
    if k < image.len() {
        assert(image.take(k + 1).drop_last() =~= image.take(k));
        lemma_unlisted_in_prefix(image, k + 1);
    } else {
        assert(image.take(k) =~= image);
    }
}

impl Image {
    /// All the sections of the image, flattened: the sections of the first
    /// segment in on-disk order, then those of the second, and so on.
    ///
    /// Returns them exactly when the sections of every segment could be
    /// enumerated, and otherwise the first segment for which they could not.
    pub fn iter_sections(&self) -> (r: Result<Vec<SectionInfo>, Defect>)
        ensures
            match r {
                Ok(list) => first_unlisted(self@) is None && Seq::new(
                    list@.len(),
                    |j: int| list@[j]@,
                ) == all_sections(self@),
                Err(defect) => first_unlisted(self@) is Some && defect@ == (DefectModel::Sections {
                    segment: first_unlisted(self@)->0,
                }),
            },
    {
        let mut list: Vec<SectionInfo> = Vec::new();
        let n = self.segments.len();
        let mut k: usize = 0;
        assert(Seq::new(list@.len(), |j: int| list@[j]@) =~= all_sections(self@.take(0)));
        while k < n
            invariant
                k <= n,
                n == self.segments@.len(),
                first_unlisted(self@.take(k as int)) is None,
                Seq::new(list@.len(), |j: int| list@[j]@) == all_sections(self@.take(k as int)),
            decreases n - k,
        {
            proof {
                assert(self@.take(k + 1).drop_last() =~= self@.take(k as int));
                assert(self@.take(k + 1).last() == self.segments@[k as int]@);
            }
            let sections = match &self.segments[k].sections {
                Some(found) => found,
                None => {
                    proof {
                        lemma_unlisted_in_prefix(self@, k + 1);
                    }
                    return Err(Defect::Sections { segment: k });
                },
            };
            let ghost before = Seq::new(list@.len(), |j: int| list@[j]@);
            let ghost models = self.segments@[k as int]@.sections->0;
            let mut j: usize = 0;
            while j < sections.len()
                invariant
                    j <= sections.len(),
                    models.len() == sections@.len(),
                    forall|i: int| 0 <= i < sections@.len() ==> models[i] == (
                    #[trigger] sections@[i])@,
                    Seq::new(list@.len(), |j: int| list@[j]@) == before + models.take(j as int),
                decreases sections.len() - j,
            {
                let name = match &sections[j].name {
                    Some(text) => Some(text.clone()),
                    None => None,
                };
                let ghost sofar = Seq::new(list@.len(), |j: int| list@[j]@);
                list.push(SectionInfo { name });
                proof {
                    assert(Seq::new(list@.len(), |j: int| list@[j]@) =~= sofar.push(
                        models[j as int],
                    ));
                    assert(models.take(j + 1) =~= models.take(j as int).push(models[j as int]));
                }
                j += 1;
            }
            proof {
                assert(models.take(sections@.len() as int) =~= models);
            }
            k += 1;
        }
        proof {
            assert(self@.take(n as int) =~= self@);
        }
        Ok(list)
    }
}

} // verus!
