//! The data model: sections inside segments inside images inside a container.
//!
//! A name that could not be looked up is `None`. The values here are plain
//! data; whether an image is well formed is decided when it is traversed.

use vstd::prelude::*;

verus! {

/// A named sub-region of a segment.
#[derive(Clone, Debug, PartialEq, Eq)]
pub struct SectionInfo {
    /// The section's name, or `None` where the lookup failed.
    pub name: Option<String>,
}

/// A named region of an image, grouping its sections.
#[derive(Clone, Debug, PartialEq, Eq)]
pub struct SegmentInfo {
    /// The segment's name, or `None` where the lookup failed.
    pub name: Option<String>,
    /// How many sections the segment says it has.
    pub declared_sections: u32,
    /// The sections that could be enumerated, in on-disk order, or `None`
    /// where enumerating them failed.
    pub sections: Option<Vec<SectionInfo>>,
}

/// One decoded image: its segments in load-command order.
#[derive(Clone, Debug, PartialEq, Eq)]
pub struct Image {
    pub segments: Vec<SegmentInfo>,
}

/// Why bytes could not be decoded.
#[derive(Clone, Debug, PartialEq, Eq)]
pub enum DecodeError {
    /// The bytes start with a number that marks neither an image nor, where
    /// one is admitted, a multi-architecture container.
    BadMagic { magic: u32 },
    /// The header announces `announced` load commands, more than the size it
    /// gives for them can hold, or that size exceeds the buffer.
    LoadCommands { announced: usize },
    /// A structure could not be read; the text is the decoder's diagnostic.
    Unreadable { diagnostic: String },
}

/// One architecture slice of a multi-architecture container.
#[derive(Clone, Debug, PartialEq, Eq)]
pub enum Slice {
    /// The slice decoded as an image.
    Image(Image),
    /// The slice could not be decoded.
    Undecodable(DecodeError),
}

/// What a byte buffer decodes to.
#[derive(Clone, Debug, PartialEq, Eq)]
pub enum Container {
    /// A single-architecture image.
    Single(Image),
    /// A multi-architecture container: its slices in container order.
    MultiArch(Vec<Slice>),
}

/// Mathematical model of a [`SectionInfo`]: its name.
pub type SectionModel = Option<Seq<char>>;

/// Mathematical model of a [`SegmentInfo`].
pub struct SegmentModel {
    pub name: Option<Seq<char>>,
    pub declared_sections: nat,
    pub sections: Option<Seq<SectionModel>>,
}

/// Mathematical model of an [`Image`]: its segments in order.
pub type ImageModel = Seq<SegmentModel>;

/// Mathematical model of a [`DecodeError`].
pub enum DecodeErrorModel {
    BadMagic { magic: u32 },
    LoadCommands { announced: nat },
    Unreadable { diagnostic: Seq<char> },
}

/// Mathematical model of a [`Slice`].
pub enum SliceModel {
    Image(ImageModel),
    Undecodable(DecodeErrorModel),
}

/// Mathematical model of a [`Container`].
pub enum ContainerModel {
    Single(ImageModel),
    MultiArch(Seq<SliceModel>),
}

impl View for SectionInfo {
    type V = SectionModel;

    open spec fn view(&self) -> SectionModel {
        match self.name {
            Some(n) => Some(n@),
            None => None,
        }
    }
}

impl View for SegmentInfo {
    type V = SegmentModel;

    open spec fn view(&self) -> SegmentModel {
        SegmentModel {
            name: match self.name {
                Some(n) => Some(n@),
                None => None,
            },
            declared_sections: self.declared_sections as nat,
            sections: match self.sections {
                Some(v) => Some(Seq::new(v@.len(), |i: int| v@[i]@)),
                None => None,
            },
        }
    }
}

impl View for Image {
    type V = ImageModel;

    open spec fn view(&self) -> ImageModel {
        Seq::new(self.segments@.len(), |i: int| self.segments@[i]@)
    }
}

impl View for DecodeError {
    type V = DecodeErrorModel;

    open spec fn view(&self) -> DecodeErrorModel {
        match self {
            DecodeError::BadMagic { magic } => DecodeErrorModel::BadMagic { magic: *magic },
            DecodeError::LoadCommands { announced } => DecodeErrorModel::LoadCommands {
                announced: *announced as nat,
            },
            DecodeError::Unreadable { diagnostic } => DecodeErrorModel::Unreadable {
                diagnostic: diagnostic@,
            },
        }
    }
}

impl View for Slice {
    type V = SliceModel;

    open spec fn view(&self) -> SliceModel {
        match self {
            Slice::Image(image) => SliceModel::Image(image@),
            Slice::Undecodable(error) => SliceModel::Undecodable(error@),
        }
    }
}

impl View for Container {
    type V = ContainerModel;

    open spec fn view(&self) -> ContainerModel {
        match self {
            Container::Single(image) => ContainerModel::Single(image@),
            Container::MultiArch(slices) => ContainerModel::MultiArch(
                Seq::new(slices@.len(), |i: int| slices@[i]@),
            ),
        }
    }
}

} // verus!
