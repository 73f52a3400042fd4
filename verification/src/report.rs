//! From a byte buffer to its tables: one table per image, in container
//! order, up to the first image that cannot be presented.

use vstd::prelude::*;
use vstd::string::StringExecFns;
use crate::decode::{decode, decoded};
use crate::layout::{
    Container,
    ContainerModel,
    DecodeError,
    DecodeErrorModel,
    Image,
    ImageModel,
    Slice,
    SliceModel,
};
use crate::render::{render, rendered};
use crate::rows::{
    cells_of,
    cells_of_names,
    first_defect,
    first_unnamed,
    image_rows,
    name_cells,
    section_rows,
    segment_lookups,
    segment_names,
    table_cells,
    well_formed,
    Defect,
    DefectModel,
};

verus! {

/// Why an inspection stopped.
#[derive(Clone, Debug, PartialEq, Eq)]
pub enum Failure {
    /// The buffer is neither an image nor a multi-architecture container.
    Decode { error: DecodeError },
    /// Slice number `index` of a container could not be decoded.
    Undecodable { index: usize, error: DecodeError },
    /// Image number `image` is malformed.
    Malformed { image: usize, defect: Defect },
}

/// Mathematical model of a [`Failure`].
pub enum FailureModel {
    Decode { error: DecodeErrorModel },
    Undecodable { index: int, error: DecodeErrorModel },
    Malformed { image: int, defect: DefectModel },
}

impl View for Failure {
    type V = FailureModel;

    open spec fn view(&self) -> FailureModel {
        match self {
            Failure::Decode { error } => FailureModel::Decode { error: error@ },
            Failure::Undecodable { index, error } => FailureModel::Undecodable {
                index: *index as int,
                error: error@,
            },
            Failure::Malformed { image, defect } => FailureModel::Malformed {
                image: *image as int,
                defect: defect@,
            },
        }
    }
}

/// The outcome of an inspection: the tables of the images that could be
/// presented, in container order, and what stopped it, if anything did.
#[derive(Clone, Debug, PartialEq, Eq)]
pub struct Report {
    pub tables: Vec<String>,
    pub failure: Option<Failure>,
}

/// Mathematical model of a [`Report`].
pub struct ReportModel {
    pub tables: Seq<Seq<char>>,
    pub failure: Option<FailureModel>,
}

impl View for Report {
    type V = ReportModel;

    open spec fn view(&self) -> ReportModel {
        ReportModel {
            tables: self.tables.deep_view(),
            failure: match self.failure {
                Some(f) => Some(f@),
                None => None,
            },
        }
    }
}

/// The column titles of an image's table.
pub open spec fn section_titles() -> Seq<Seq<char>> {
    seq!["Segment"@, "Section"@]
}

/// The table of a well-formed image.
pub open spec fn image_table(image: ImageModel) -> Seq<char> {
    rendered(section_titles(), table_cells(image_rows(image)))
}

/// Why slice number `i` cannot be presented, if it cannot.
pub open spec fn slice_failure(slice: SliceModel, i: int) -> Option<FailureModel> {
    match slice {
        SliceModel::Undecodable(error) => Some(FailureModel::Undecodable { index: i, error }),
        SliceModel::Image(image) => match first_defect(image) {
            Some(defect) => Some(FailureModel::Malformed { image: i, defect }),
            None => None,
        },
    }
}

/// The report on a sequence of slices: the tables of the slices before the
/// first one that cannot be presented, and that slice's failure.
pub open spec fn slices_report(slices: Seq<SliceModel>) -> ReportModel
    decreases slices.len(),
{
    if slices.len() == 0 {
        ReportModel { tables: Seq::empty(), failure: None }
    } else {
        let before = slices_report(slices.drop_last());
        if before.failure is Some {
            before
        } else {
            match slice_failure(slices.last(), slices.len() - 1) {
                Some(failure) => ReportModel { tables: before.tables, failure: Some(failure) },
                None => ReportModel {
                    tables: before.tables.push(image_table(slices.last()->Image_0)),
                    failure: None,
                },
            }
        }
    }
}

/// The report on a container. A single image is reported as a container of
/// that one image.
pub open spec fn container_report(container: ContainerModel) -> ReportModel {
    match container {
        ContainerModel::Single(image) => slices_report(seq![SliceModel::Image(image)]),
        ContainerModel::MultiArch(slices) => slices_report(slices),
    }
}

/// The report on a byte buffer.
pub open spec fn inspection(data: Seq<u8>) -> ReportModel {
    match decoded(data) {
        Ok(container) => container_report(container),
        Err(error) => ReportModel {
            tables: Seq::empty(),
            failure: Some(FailureModel::Decode { error }),
        },
    }
}

/// The column titles of an image's table.
fn titles() -> (titles: Vec<String>)
    ensures
        titles.deep_view() == section_titles(),
{
    let mut titles: Vec<String> = Vec::new();
    titles.push(String::from_str("Segment"));
    titles.push(String::from_str("Section"));
    assert(titles.deep_view() =~= section_titles());
    titles
}

/// The table of one image: a "Segment" and a "Section" column, a row for
/// each segment and, under it, a row for each of its sections.
///
/// Returns the table exactly when the image is well formed, and otherwise
/// its first defect.
pub fn section_table(image: &Image) -> (r: Result<String, Defect>)
    ensures
        match r {
            Ok(text) => well_formed(image@) && text@ == image_table(image@),
            Err(defect) => first_defect(image@) == Some(defect@),
        },
{
    match section_rows(image) {
        Ok(rows) => Ok(render(&titles(), &cells_of(&rows))),
        Err(defect) => Err(defect),
    }
}

/// A failure met in a prefix of the slices is the failure of the whole
/// sequence, with the same tables.
pub proof fn lemma_report_of_prefix(slices: Seq<SliceModel>, i: int)
    requires
        0 <= i <= slices.len(),
        slices_report(slices.take(i)).failure is Some,
    ensures
        slices_report(slices) == slices_report(slices.take(i)),
    decreases slices.len() - i,
{
    if i < slices.len() {
        assert(slices.take(i + 1).drop_last() =~= slices.take(i));
        lemma_report_of_prefix(slices, i + 1);
    } else {
        assert(slices.take(i) =~= slices);
    }
}

/// A copy of a decode error.
fn same_error(error: &DecodeError) -> (copy: DecodeError)
    ensures
        copy@ == error@,
{
    match error {
        DecodeError::BadMagic { magic } => DecodeError::BadMagic { magic: *magic },
        DecodeError::LoadCommands { announced } => DecodeError::LoadCommands {
            announced: *announced,
        },
        DecodeError::Unreadable { diagnostic } => DecodeError::Unreadable {
            diagnostic: diagnostic.clone(),
        },
    }
}

/// Appends to `tables` the table of slice number `i`, or returns why the
/// slice cannot be presented.
fn push_slice(slice: &Slice, i: usize, tables: &mut Vec<String>) -> (r: Option<Failure>)
    ensures
        match r {
            Some(failure) => slice_failure(slice@, i as int) == Some(failure@) && *final(tables)
                == *old(tables),
            None => slice_failure(slice@, i as int) is None && final(tables).deep_view() == old(
                tables,
            ).deep_view().push(image_table(slice@->Image_0)),
        },
{
    match slice {
        Slice::Undecodable(error) => Some(
            Failure::Undecodable { index: i, error: same_error(error) },
        ),
        Slice::Image(image) => match section_table(image) {
            Ok(text) => {
                let ghost before = tables.deep_view();
                tables.push(text);
                assert(tables.deep_view() =~= before.push(text@));
                None
            },
            Err(defect) => Some(Failure::Malformed { image: i, defect }),
        },
    }
}

/// Presents a decoded container: the table of each image in container
/// order, stopping at the first slice that could not be decoded or whose
/// image is malformed.
pub fn report(container: &Container) -> (r: Report)
    ensures
        r@ == container_report(container@),
{
    let mut tables: Vec<String> = Vec::new();
    match container {
        Container::Single(image) => {
            let ghost one = seq![SliceModel::Image(image@)];
            assert(one.drop_last() =~= Seq::<SliceModel>::empty());
            assert(slices_report(one.drop_last()) == (ReportModel {
                tables: Seq::empty(),
                failure: None,
            }));
            assert(one.last() == SliceModel::Image(image@));
            assert(tables.deep_view() =~= Seq::<Seq<char>>::empty());
            let failure = match section_table(image) {
                Ok(text) => {
                    tables.push(text);
                    assert(tables.deep_view() =~= Seq::<Seq<char>>::empty().push(text@));
                    None
                },
                Err(defect) => Some(Failure::Malformed { image: 0, defect }),
            };
            Report { tables, failure }
        },
        Container::MultiArch(slices) => {
            let ghost models = container@->MultiArch_0;
            let n = slices.len();
            let mut i: usize = 0;
            assert(tables.deep_view() =~= Seq::<Seq<char>>::empty());
            while i < n
                invariant
                    i <= n,
                    n == slices@.len(),
                    models.len() == n,
                    container@ == ContainerModel::MultiArch(models),
                    forall|p: int| 0 <= p < n ==> models[p] == (#[trigger] slices@[p])@,
                    slices_report(models.take(i as int)) == (ReportModel {
                        tables: tables.deep_view(),
                        failure: None,
                    }),
                decreases n - i,
            {
                proof {
                    assert(models.take(i + 1).drop_last() =~= models.take(i as int));
                }
                match push_slice(&slices[i], i, &mut tables) {
                    Some(failure) => {
                        proof {
                            lemma_report_of_prefix(models, i + 1);
                        }
                        return Report { tables, failure: Some(failure) };
                    },
                    None => {},
                }
                i += 1;
            }
            proof {
                assert(models.take(n as int) =~= models);
            }
            Report { tables, failure: None }
        },
    }
}

/// Inspects a byte buffer: decodes it and presents what it holds.
///
/// A buffer that is not recognised yields no table and a decode failure.
pub fn inspect(data: &[u8]) -> (r: Report)
    ensures
        r@ == inspection(data@),
{
    match decode(data) {
        Ok(container) => report(&container),
        Err(error) => {
            let tables: Vec<String> = Vec::new();
            assert(tables.deep_view() =~= Seq::<Seq<char>>::empty());
            Report { tables, failure: Some(Failure::Decode { error }) }
        },
    }
}

/// The column title of the segment-only table.
pub open spec fn segment_titles() -> Seq<Seq<char>> {
    seq!["Segments"@]
}

/// The segment-only table of an image: a single "Segments" column with a
/// row for each segment's name, in on-disk order.
///
/// Returns the table exactly when every segment has a name, and otherwise
/// the first segment that has none.
pub fn segment_table(image: &Image) -> (r: Result<String, Defect>)
    ensures
        match r {
            Ok(text) => first_unnamed(segment_lookups(image@)) is None && text@ == rendered(
                segment_titles(),
                name_cells(Seq::new(image@.len(), |k: int| image@[k].name->0)),
            ),
            Err(defect) => first_unnamed(segment_lookups(image@)) is Some && defect@
                == (DefectModel::SegmentName {
                segment: first_unnamed(segment_lookups(image@))->0,
            }),
        },
{
    match segment_names(image) {
        Ok(names) => {
            let mut titles: Vec<String> = Vec::new();
            titles.push(String::from_str("Segments"));
            assert(titles.deep_view() =~= segment_titles());
            Ok(render(&titles, &cells_of_names(&names)))
        },
        Err(defect) => Err(defect),
    }
}

/// One table per presented slice, in slice order: the tables are those of
/// the slices before the first that cannot be presented, the failure is
/// that slice's, and without a failure there is a table for every slice.
pub proof fn lemma_tables_follow_slices(slices: Seq<SliceModel>)
    ensures
        ({
            let r = slices_report(slices);
            &&& r.tables.len() <= slices.len()
            &&& forall|i: int|
                0 <= i < r.tables.len() ==> slice_failure(#[trigger] slices[i], i) is None
                    && r.tables[i] == image_table(slices[i]->Image_0)
            &&& r.failure is None ==> r.tables.len() == slices.len()
            &&& r.failure is Some ==> r.tables.len() < slices.len() && r.failure == slice_failure(
                slices[r.tables.len() as int],
                r.tables.len() as int,
            )
        }),
    decreases slices.len(),
{
    if slices.len() > 0 {
        let shorter = slices.drop_last();
        lemma_tables_follow_slices(shorter);
        let r = slices_report(slices);
        let before = slices_report(shorter);
        assert forall|i: int| 0 <= i < r.tables.len() implies slice_failure(
            #[trigger] slices[i],
            i,
        ) is None && r.tables[i] == image_table(slices[i]->Image_0) by {
            if i < before.tables.len() {
                assert(slices[i] == shorter[i]);
            }
        }
        if r.failure is Some && before.failure is Some {
            assert(slices[before.tables.len() as int] == shorter[before.tables.len() as int]);
        }
    }
}

/// Where every slice can be presented there is exactly one table per slice,
/// in slice order, and no failure.
pub proof fn lemma_one_table_per_slice(slices: Seq<SliceModel>)
    requires
        forall|i: int| 0 <= i < slices.len() ==> slice_failure(#[trigger] slices[i], i) is None,
    ensures
        slices_report(slices).failure is None,
        slices_report(slices).tables.len() == slices.len(),
        forall|i: int|
            0 <= i < slices.len() ==> #[trigger] slices_report(slices).tables[i] == image_table(
                slices[i]->Image_0,
            ),
{
    lemma_tables_follow_slices(slices);
    let r = slices_report(slices);
    if r.failure is Some {
        assert(slice_failure(slices[r.tables.len() as int], r.tables.len() as int) is None);
    }
    assert forall|i: int| 0 <= i < slices.len() implies #[trigger] r.tables[i] == image_table(
        slices[i]->Image_0,
    ) by {
        assert(slice_failure(slices[i], i) is None);
    }
}

/// A single image that is well formed yields exactly its one table.
pub proof fn lemma_single_image_one_table(image: ImageModel)
    requires
        well_formed(image),
    ensures
        container_report(ContainerModel::Single(image)) == (ReportModel {
            tables: seq![image_table(image)],
            failure: None,
        }),
{
    let one = seq![SliceModel::Image(image)];
    assert(one.drop_last() =~= Seq::<SliceModel>::empty());
    assert(slices_report(one.drop_last()).tables =~= Seq::empty());
    assert(slices_report(one).tables =~= seq![image_table(image)]);
}

/// Inspecting the same bytes again gives the same report: any two reports
/// that [`inspect`] may return for one buffer hold the same tables,
/// character for character, and the same failure.
pub proof fn lemma_inspection_repeatable(data: Seq<u8>, first: ReportModel, second: ReportModel)
    requires
        first == inspection(data),
        second == inspection(data),
    ensures
        first.tables == second.tables,
        first.failure == second.failure,
{
}

/// A buffer that is not recognised yields no table, and the failure is the
/// decoder's.
pub proof fn lemma_unrecognised_yields_no_table(data: Seq<u8>)
    requires
        decoded(data) is Err,
    ensures
        inspection(data).tables.len() == 0,
        inspection(data).failure == Some(FailureModel::Decode { error: decoded(data)->Err_0 }),
{
}

} // verus!
