//! Decoding a byte buffer into the data model.
//!
//! Reading bytes is the `goblin` crate's work: the magic number, the header,
//! each load command, each segment and its sections, the table of a
//! multi-architecture container. Its values are opaque here: each is reached
//! through one small function whose contract gives the outcome a name,
//! because `goblin` computes it from its arguments alone. The walk over the
//! load commands, which finds the segments and fills the data model, is
//! verified against these names.
//!
//! Of the load commands only the segments are interpreted. The others are
//! read, so that one that cannot be read fails the image, and stepped over.

use scroll::ctx::SizeWith;
use scroll::Pread;
use vstd::prelude::*;
use crate::layout::{
    Container,
    ContainerModel,
    DecodeError,
    DecodeErrorModel,
    Image,
    ImageModel,
    SectionInfo,
    SegmentInfo,
    SegmentModel,
    Slice,
    SliceModel,
};

verus! {

/// `goblin`'s error type, carried as an opaque value.
#[verifier::external_type_specification]
#[verifier::external_body]
pub struct ExError(goblin::error::Error);

/// `goblin`'s parsing context: the width and the byte order of an image.
#[verifier::external_type_specification]
#[verifier::external_body]
pub struct ExCtx(goblin::container::Ctx);

/// `goblin`'s image header. Its fields are plain integers and are declared
/// as they are.
#[verifier::external_type_specification]
pub struct ExHeader(goblin::mach::header::Header);

/// `goblin`'s load command, carried as an opaque value.
#[verifier::external_type_specification]
#[verifier::external_body]
pub struct ExLoadCommand(goblin::mach::load_command::LoadCommand);

/// `goblin`'s 32-bit segment command, carried as an opaque value.
#[verifier::external_type_specification]
#[verifier::external_body]
pub struct ExSegmentCommand32(goblin::mach::load_command::SegmentCommand32);

/// `goblin`'s 64-bit segment command, carried as an opaque value.
#[verifier::external_type_specification]
#[verifier::external_body]
pub struct ExSegmentCommand64(goblin::mach::load_command::SegmentCommand64);

/// `goblin`'s multi-architecture container, carried as an opaque value.
#[verifier::external_type_specification]
#[verifier::external_body]
pub struct ExMultiArch<'a>(goblin::mach::MultiArch<'a>);

/// `goblin`'s entry of a container's table: where a slice lies. Its fields
/// are plain integers and are declared as they are.
#[verifier::external_type_specification]
pub struct ExFatArch(goblin::mach::fat::FatArch);

/// `goblin`'s segment, carried as an opaque value.
#[verifier::external_type_specification]
#[verifier::external_body]
pub struct ExSegment<'a>(goblin::mach::segment::Segment<'a>);

/// `goblin`'s section header, carried as an opaque value.
#[verifier::external_type_specification]
#[verifier::external_body]
pub struct ExSection(goblin::mach::segment::Section);

/// The number that opens a multi-architecture container.
pub const CONTAINER_MAGIC: u32 = 0xcafe_babe;

/// A load command, as far as the walk tells commands apart.
pub enum CommandKind {
    /// A segment of a 32-bit image.
    Narrow(goblin::mach::load_command::SegmentCommand32),
    /// A segment of a 64-bit image.
    Wide(goblin::mach::load_command::SegmentCommand64),
    /// Any other command.
    Other,
}

/// What `goblin::mach::parse_magic_and_ctx` reads at the start of a buffer:
/// the magic number and, where it is an image's, the parsing context.
pub uninterp spec fn magic_of(data: Seq<u8>) -> Result<
    (u32, Option<goblin::container::Ctx>),
    goblin::error::Error,
>;

/// The header that `goblin` reads at the start of a buffer.
pub uninterp spec fn header_of(data: Seq<u8>, ctx: goblin::container::Ctx) -> Result<
    goblin::mach::header::Header,
    goblin::error::Error,
>;

/// The size of a header in the given context.
pub uninterp spec fn header_len(ctx: goblin::container::Ctx) -> usize;

/// What `goblin::mach::load_command::LoadCommand::parse` reads at an
/// offset: the command and the offset of the one after it.
pub uninterp spec fn command_at(data: Seq<u8>, offset: usize, ctx: goblin::container::Ctx) -> Result<
    (goblin::mach::load_command::LoadCommand, usize),
    goblin::error::Error,
>;

/// Which kind of command a load command is.
pub uninterp spec fn kind_of(command: goblin::mach::load_command::LoadCommand) -> CommandKind;

/// The segment that `goblin::mach::segment::Segment::from_32` makes of a
/// 32-bit segment command found at `offset`.
pub uninterp spec fn narrow_segment(
    data: Seq<u8>,
    raw: goblin::mach::load_command::SegmentCommand32,
    offset: usize,
    ctx: goblin::container::Ctx,
) -> Result<goblin::mach::segment::Segment<'static>, goblin::error::Error>;

/// The segment that `goblin::mach::segment::Segment::from_64` makes of a
/// 64-bit segment command found at `offset`.
pub uninterp spec fn wide_segment(
    data: Seq<u8>,
    raw: goblin::mach::load_command::SegmentCommand64,
    offset: usize,
    ctx: goblin::container::Ctx,
) -> Result<goblin::mach::segment::Segment<'static>, goblin::error::Error>;

/// What `goblin::mach::MultiArch::new` makes of a byte buffer.
pub uninterp spec fn container_of(data: Seq<u8>) -> Result<
    goblin::mach::MultiArch<'static>,
    goblin::error::Error,
>;

/// The table of a container, as `goblin::mach::MultiArch::arches` reads it.
pub uninterp spec fn arches(fat: goblin::mach::MultiArch<'static>) -> Result<
    Seq<goblin::mach::fat::FatArch>,
    goblin::error::Error,
>;

/// What `goblin::mach::segment::Segment::name` finds: the name, or `None`
/// where it reports an error.
pub uninterp spec fn segment_name(seg: goblin::mach::segment::Segment<'static>) -> Option<
    Seq<char>,
>;

/// The `nsects` field of a segment.
pub uninterp spec fn declared_sections(seg: goblin::mach::segment::Segment<'static>) -> u32;

/// What `goblin::mach::segment::Segment::sections` enumerates, or `None`
/// where it reports an error.
pub uninterp spec fn sections(seg: goblin::mach::segment::Segment<'static>) -> Option<
    Seq<goblin::mach::segment::Section>,
>;

/// What `goblin::mach::segment::Section::name` finds: the name, or `None`
/// where it reports an error.
pub uninterp spec fn section_name(sec: goblin::mach::segment::Section) -> Option<Seq<char>>;

/// The text that a `goblin::error::Error` displays as.
pub uninterp spec fn diagnostic(error: goblin::error::Error) -> Seq<char>;

/// The bytes of the slice that a table entry points at: `size` bytes from
/// `offset`, or nothing where they do not lie within the buffer.
pub open spec fn slice_of(arch: goblin::mach::fat::FatArch, data: Seq<u8>) -> Seq<u8> {
    if arch.offset + arch.size <= data.len() {
        data.subrange(arch.offset as int, arch.offset + arch.size)
    } else {
        Seq::empty()
    }
}

/// Calls `goblin::mach::parse_magic_and_ctx` at offset 0: it reads a
/// big-endian 32-bit number and, for the four magic numbers of an image,
/// gives the width and byte order that the number stands for. The claim is
/// only that the outcome is determined by the bytes.
#[verifier::external_body]
fn magic_and_ctx(data: &[u8]) -> (r: Result<
    (u32, Option<goblin::container::Ctx>),
    goblin::error::Error,
>)
    ensures
        r == magic_of(data@),
{
    goblin::mach::parse_magic_and_ctx(data, 0)
}

/// Reads a `goblin::mach::header::Header` at offset 0 through its impl of
/// `scroll::ctx::TryFromCtx`. The claim is only that the outcome is
/// determined by the bytes and the context.
#[verifier::external_body]
fn read_header(data: &[u8], ctx: goblin::container::Ctx) -> (r: Result<
    goblin::mach::header::Header,
    goblin::error::Error,
>)
    ensures
        r == header_of(data@, ctx),
{
    data.pread_with::<goblin::mach::header::Header>(0, ctx)
}

/// Calls `size_with` of `goblin::mach::header::Header`, its impl of
/// `scroll::ctx::SizeWith`: the header's size for the context's width.
#[verifier::external_body]
fn header_size(ctx: goblin::container::Ctx) -> (n: usize)
    ensures
        n == header_len(ctx),
{
    goblin::mach::header::Header::size_with(&ctx)
}

/// Calls `goblin::mach::load_command::LoadCommand::parse` at `offset`, in
/// the context's byte order, and hands back the command with the offset it
/// leaves: that of the next command. The claim is only that the outcome is
/// determined by the bytes, the offset and the context.
#[verifier::external_body]
fn next_command(data: &[u8], offset: usize, ctx: goblin::container::Ctx) -> (r: Result<
    (goblin::mach::load_command::LoadCommand, usize),
    goblin::error::Error,
>)
    ensures
        r == command_at(data@, offset, ctx),
{
    let mut next = offset;
    let command = goblin::mach::load_command::LoadCommand::parse(data, &mut next, ctx.le)?;
    Ok((command, next))
}

/// Tells the variants of `goblin::mach::load_command::CommandVariant`
/// apart: the two segment commands, and all others.
#[verifier::external_body]
fn command_kind(command: &goblin::mach::load_command::LoadCommand) -> (kind: CommandKind)
    ensures
        kind == kind_of(*command),
{
    match command.command {
        goblin::mach::load_command::CommandVariant::Segment32(raw) => CommandKind::Narrow(raw),
        goblin::mach::load_command::CommandVariant::Segment64(raw) => CommandKind::Wide(raw),
        _ => CommandKind::Other,
    }
}

/// Calls `goblin::mach::segment::Segment::from_32`.
#[verifier::external_body]
fn segment_from_32<'a>(
    data: &'a [u8],
    raw: &goblin::mach::load_command::SegmentCommand32,
    offset: usize,
    ctx: goblin::container::Ctx,
) -> (r: Result<goblin::mach::segment::Segment<'a>, goblin::error::Error>)
    ensures
        r == narrow_segment(data@, *raw, offset, ctx),
{
    goblin::mach::segment::Segment::from_32(data, raw, offset, ctx)
}

/// Calls `goblin::mach::segment::Segment::from_64`.
#[verifier::external_body]
fn segment_from_64<'a>(
    data: &'a [u8],
    raw: &goblin::mach::load_command::SegmentCommand64,
    offset: usize,
    ctx: goblin::container::Ctx,
) -> (r: Result<goblin::mach::segment::Segment<'a>, goblin::error::Error>)
    ensures
        r == wide_segment(data@, *raw, offset, ctx),
{
    goblin::mach::segment::Segment::from_64(data, raw, offset, ctx)
}

/// Calls `goblin::mach::MultiArch::new`: it reads the container's header.
#[verifier::external_body]
fn open_container<'a>(data: &'a [u8]) -> (r: Result<
    goblin::mach::MultiArch<'a>,
    goblin::error::Error,
>)
    ensures
        r == container_of(data@),
{
    goblin::mach::MultiArch::new(data)
}

/// Calls `goblin::mach::MultiArch::arches`: the entries of the container's
/// table, in order, or an error where one of them cannot be read.
#[verifier::external_body]
fn arch_table(fat: &goblin::mach::MultiArch) -> (r: Result<
    Vec<goblin::mach::fat::FatArch>,
    goblin::error::Error,
>)
    ensures
        match r {
            Ok(table) => arches(*fat) matches Ok(found) && found == table@,
            Err(error) => arches(*fat) matches Err(found) && found == error,
        },
{
    fat.arches()
}

/// Calls `goblin::mach::fat::FatArch::slice`: the bytes from the entry's
/// offset, as many as its size, or an empty slice where that range does not
/// lie within the buffer.
#[verifier::external_body]
fn slice_bytes<'a>(arch: &goblin::mach::fat::FatArch, data: &'a [u8]) -> (bytes: &'a [u8])
    ensures
        bytes@ == slice_of(*arch, data@),
{
    arch.slice(data)
}

/// Calls `goblin::mach::segment::Segment::name`, keeping the name and
/// dropping the error's detail.
#[verifier::external_body]
fn name_of_segment(seg: &goblin::mach::segment::Segment) -> (name: Option<String>)
    ensures
        name.deep_view() == segment_name(*seg),
{
    match seg.name() {
        Ok(text) => Some(text.to_owned()),
        Err(_) => None,
    }
}

/// Reads the field `goblin::mach::segment::Segment::nsects`.
#[verifier::external_body]
fn declared_count(seg: &goblin::mach::segment::Segment) -> (n: u32)
    ensures
        n == declared_sections(*seg),
{
    seg.nsects
}

/// Calls `goblin::mach::segment::Segment::sections`, keeping each section
/// and leaving its data behind.
#[verifier::external_body]
fn sections_of(seg: &goblin::mach::segment::Segment) -> (list: Option<
    Vec<goblin::mach::segment::Section>,
>)
    ensures
        match list {
            Some(found) => sections(*seg) == Some(found@),
            None => sections(*seg) is None,
        },
{
    match seg.sections() {
        Ok(found) => Some(found.into_iter().map(|(section, _)| section).collect()),
        Err(_) => None,
    }
}

/// Calls `goblin::mach::segment::Section::name`, keeping the name and
/// dropping the error's detail.
#[verifier::external_body]
fn name_of_section(sec: &goblin::mach::segment::Section) -> (name: Option<String>)
    ensures
        name.deep_view() == section_name(*sec),
{
    match sec.name() {
        Ok(text) => Some(text.to_owned()),
        Err(_) => None,
    }
}

/// Formats a `goblin::error::Error` through its `Display` impl.
#[verifier::external_body]
fn diagnostic_text(error: &goblin::error::Error) -> (text: String)
    ensures
        text@ == diagnostic(*error),
{
    error.to_string()
}

/// The model of a decoded segment: its name, its declared count and the
/// names of its sections.
pub open spec fn segment_model(seg: goblin::mach::segment::Segment<'static>) -> SegmentModel {
    SegmentModel {
        name: segment_name(seg),
        declared_sections: declared_sections(seg) as nat,
        sections: match sections(seg) {
            Some(list) => Some(Seq::new(list.len(), |j: int| section_name(list[j]))),
            None => None,
        },
    }
}

/// A failure of the decoder, by its diagnostic.
pub open spec fn unreadable(error: goblin::error::Error) -> DecodeErrorModel {
    DecodeErrorModel::Unreadable { diagnostic: diagnostic(error) }
}

/// The segment that the command at `offset` stands for, if it is a segment
/// command.
pub open spec fn segment_at(
    data: Seq<u8>,
    command: goblin::mach::load_command::LoadCommand,
    offset: usize,
    ctx: goblin::container::Ctx,
) -> Option<Result<goblin::mach::segment::Segment<'static>, goblin::error::Error>> {
    match kind_of(command) {
        CommandKind::Narrow(raw) => Some(narrow_segment(data, raw, offset, ctx)),
        CommandKind::Wide(raw) => Some(wide_segment(data, raw, offset, ctx)),
        CommandKind::Other => None,
    }
}

/// The walk over the first `count` load commands: the offset it has
/// reached and the segments it has found, in order, or the failure of the
/// first command or segment that cannot be read.
pub open spec fn commands_walked(data: Seq<u8>, ctx: goblin::container::Ctx, count: nat) -> Result<
    (usize, ImageModel),
    DecodeErrorModel,
>
    decreases count,
{
    if count == 0 {
        Ok((header_len(ctx), Seq::empty()))
    } else {
        match commands_walked(data, ctx, (count - 1) as nat) {
            Err(error) => Err(error),
            Ok((offset, found)) => match command_at(data, offset, ctx) {
                Err(error) => Err(unreadable(error)),
                Ok((command, next)) => match segment_at(data, command, offset, ctx) {
                    None => Ok((next, found)),
                    Some(Err(error)) => Err(unreadable(error)),
                    Some(Ok(seg)) => Ok((next, found.push(segment_model(seg)))),
                },
            },
        }
    }
}

/// Whether a header announces more load commands than the size it gives
/// for them can hold, at eight bytes a command, or a size that exceeds the
/// buffer.
pub open spec fn overfull(header: goblin::mach::header::Header, len: nat) -> bool {
    header.ncmds > header.sizeofcmds / 8 || header.sizeofcmds > len
}

/// The image that a buffer holds, once its magic number has been read.
pub open spec fn image_with(data: Seq<u8>, magic: u32, ctx: Option<goblin::container::Ctx>) -> Result<
    ImageModel,
    DecodeErrorModel,
> {
    match ctx {
        None => Err(DecodeErrorModel::BadMagic { magic }),
        Some(ctx) => match header_of(data, ctx) {
            Err(error) => Err(unreadable(error)),
            Ok(header) => if overfull(header, data.len()) {
                Err(DecodeErrorModel::LoadCommands { announced: header.ncmds as nat })
            } else {
                match commands_walked(data, ctx, header.ncmds as nat) {
                    Err(error) => Err(error),
                    Ok((_, found)) => Ok(found),
                }
            },
        },
    }
}

/// What a buffer decodes to as a single image: its segments in
/// load-command order, or why it is none.
pub open spec fn image_decoded(data: Seq<u8>) -> Result<ImageModel, DecodeErrorModel> {
    match magic_of(data) {
        Err(error) => Err(unreadable(error)),
        Ok((magic, ctx)) => image_with(data, magic, ctx),
    }
}

/// The model of the slice that a table entry points at.
pub open spec fn slice_decoded(arch: goblin::mach::fat::FatArch, data: Seq<u8>) -> SliceModel {
    match image_decoded(slice_of(arch, data)) {
        Ok(image) => SliceModel::Image(image),
        Err(error) => SliceModel::Undecodable(error),
    }
}

/// How many slices are read: all of them, or those up to and including the
/// first that cannot be decoded.
pub open spec fn slices_read(table: Seq<goblin::mach::fat::FatArch>, data: Seq<u8>) -> int
    decreases table.len(),
{
    if table.len() == 0 {
        0
    } else if slices_read(table.drop_last(), data) < table.len() - 1 {
        slices_read(table.drop_last(), data)
    } else if table.len() > 1 && slice_decoded(table[table.len() - 2], data) is Undecodable {
        table.len() - 1
    } else {
        table.len() as int
    }
}

/// What a byte buffer decodes to. A buffer that opens with the container's
/// magic number is a container: its slices in table order, read up to and
/// including the first that cannot be decoded. Any other buffer is decoded
/// as a single image.
pub open spec fn decoded(data: Seq<u8>) -> Result<ContainerModel, DecodeErrorModel> {
    match magic_of(data) {
        Err(error) => Err(unreadable(error)),
        Ok((magic, ctx)) => if magic == CONTAINER_MAGIC {
            match container_of(data) {
                Err(error) => Err(unreadable(error)),
                Ok(fat) => match arches(fat) {
                    Err(error) => Err(unreadable(error)),
                    Ok(table) => Ok(
                        ContainerModel::MultiArch(
                            Seq::new(
                                slices_read(table, data) as nat,
                                |i: int| slice_decoded(table[i], data),
                            ),
                        ),
                    ),
                },
            }
        } else {
            match image_with(data, magic, ctx) {
                Ok(image) => Ok(ContainerModel::Single(image)),
                Err(error) => Err(error),
            }
        },
    }
}

/// The decoder's failure as a [`DecodeError`].
fn failure_of(error: &goblin::error::Error) -> (r: DecodeError)
    ensures
        r@ == unreadable(*error),
{
    DecodeError::Unreadable { diagnostic: diagnostic_text(error) }
}

fn read_segment(seg: &goblin::mach::segment::Segment) -> (info: SegmentInfo)
    ensures
        info@ == segment_model(*seg),
{
    let name = name_of_segment(seg);
    let declared = declared_count(seg);
    let sections = match sections_of(seg) {
        Some(found) => {
            let mut list: Vec<SectionInfo> = Vec::new();
            let mut j: usize = 0;
            while j < found.len()
                invariant
                    j <= found.len(),
                    list@.len() == j,
                    forall|i: int| 0 <= i < j ==> (#[trigger] list@[i])@ == section_name(found@[i]),
                decreases found.len() - j,
            {
                list.push(SectionInfo { name: name_of_section(&found[j]) });
                j += 1;
            }
            Some(list)
        },
        None => None,
    };
    let info = SegmentInfo { name, declared_sections: declared, sections };
    proof {
        assert(info@.name == segment_name(*seg));
        if info.sections is Some {
            assert(info@.sections->0 =~= segment_model(*seg).sections->0);
        }
    }
    info
}

/// A failure met after some load commands is the failure of the whole
/// walk.
pub proof fn lemma_walk_fails_on(data: Seq<u8>, ctx: goblin::container::Ctx, i: nat, n: nat)
    requires
        i <= n,
        commands_walked(data, ctx, i) is Err,
    ensures
        commands_walked(data, ctx, n) == commands_walked(data, ctx, i),
    decreases n - i,
{
    if i < n {
        lemma_walk_fails_on(data, ctx, i, (n - 1) as nat);
    }
}

/// Walks the load commands of an image whose magic number has been read.
fn read_image(data: &[u8], magic: u32, ctx: Option<goblin::container::Ctx>) -> (r: Result<
    Image,
    DecodeError,
>)
    ensures
        match r {
            Ok(image) => image_with(data@, magic, ctx) matches Ok(found) && found == image@,
            Err(error) => image_with(data@, magic, ctx) matches Err(found) && found == error@,
        },
{
    let context = match ctx {
        Some(context) => context,
        None => {
            return Err(DecodeError::BadMagic { magic });
        },
    };
    let header = match read_header(data, context) {
        Ok(header) => header,
        Err(error) => {
            return Err(failure_of(&error));
        },
    };
    let n = header.ncmds;
    if n > (header.sizeofcmds / 8) as usize || header.sizeofcmds as usize > data.len() {
        return Err(DecodeError::LoadCommands { announced: n });
    }
    let mut segments: Vec<SegmentInfo> = Vec::new();
    let mut offset = header_size(context);
    let mut i: usize = 0;
    let ghost mut found: ImageModel = Seq::empty();
    while i < n
        invariant
            i <= n,
            n == header.ncmds,
            ctx == Some(context),
            header_of(data@, context) == Ok::<goblin::mach::header::Header, goblin::error::Error>(
                header,
            ),
            !overfull(header, data@.len()),
            found == Seq::new(segments@.len(), |k: int| segments@[k]@),
            commands_walked(data@, context, i as nat) == Ok::<(usize, ImageModel), DecodeErrorModel>(
                (offset, found),
            ),
        decreases n - i,
    {
        let (command, next) = match next_command(data, offset, context) {
            Ok(pair) => pair,
            Err(error) => {
                proof {
                    lemma_walk_fails_on(data@, context, (i + 1) as nat, n as nat);
                }
                return Err(failure_of(&error));
            },
        };
        let segment = match command_kind(&command) {
            CommandKind::Narrow(raw) => Some(segment_from_32(data, &raw, offset, context)),
            CommandKind::Wide(raw) => Some(segment_from_64(data, &raw, offset, context)),
            CommandKind::Other => None,
        };
        match segment {
            None => {},
            Some(Err(error)) => {
                proof {
                    lemma_walk_fails_on(data@, context, (i + 1) as nat, n as nat);
                }
                return Err(failure_of(&error));
            },
            Some(Ok(seg)) => {
                segments.push(read_segment(&seg));
                proof {
                    found = found.push(segment_model(seg));
                    assert(found =~= Seq::new(segments@.len(), |k: int| segments@[k]@));
                }
            },
        }
        offset = next;
        i += 1;
    }
    let image = Image { segments };
    assert(image@ =~= found);
    Ok(image)
}

/// Decodes a byte buffer as a single image: reads its magic number and its
/// header, then walks its load commands and keeps the segments, in
/// load-command order.
///
/// Fails exactly when the magic number is not an image's, when the header
/// announces more load commands than fit, or when the header, a load
/// command or a segment cannot be read.
pub fn decode_image(data: &[u8]) -> (r: Result<Image, DecodeError>)
    ensures
        match r {
            Ok(image) => image_decoded(data@) matches Ok(found) && found == image@,
            Err(error) => image_decoded(data@) matches Err(found) && found == error@,
        },
{
    match magic_and_ctx(data) {
        Ok((magic, ctx)) => read_image(data, magic, ctx),
        Err(error) => Err(failure_of(&error)),
    }
}

/// Reading stops for the whole table where it stops for a prefix that ends
/// in a slice that cannot be decoded.
pub proof fn lemma_slices_read_prefix(table: Seq<goblin::mach::fat::FatArch>, data: Seq<u8>, i: int)
    requires
        0 <= i <= table.len(),
        slices_read(table.take(i), data) == i,
        i == table.len() || (i > 0 && slice_decoded(table[i - 1], data) is Undecodable),
    ensures
        slices_read(table, data) == i,
    decreases table.len() - i,
{
    if i < table.len() {
        assert(table.take(i + 1).drop_last() =~= table.take(i));
        assert(table.take(i + 1)[i - 1] == table[i - 1]);
        assert(slices_read(table.take(i + 1), data) == i);
        lemma_slices_read_stable(table, data, i, i + 1);
    } else {
        assert(table.take(i) =~= table);
    }
}

/// Once reading has stopped short of a prefix's end, longer prefixes stop
/// at the same slice.
pub proof fn lemma_slices_read_stable(
    table: Seq<goblin::mach::fat::FatArch>,
    data: Seq<u8>,
    i: int,
    m: int,
)
    requires
        0 <= i < m <= table.len(),
        slices_read(table.take(m), data) == i,
    ensures
        slices_read(table, data) == i,
    decreases table.len() - m,
{
    if m < table.len() {
        assert(table.take(m + 1).drop_last() =~= table.take(m));
        lemma_slices_read_stable(table, data, i, m + 1);
    } else {
        assert(table.take(m) =~= table);
    }
}

/// Reads the slices of a container in table order, up to and including the
/// first that cannot be decoded.
fn read_slices(table: &Vec<goblin::mach::fat::FatArch>, data: &[u8]) -> (list: Vec<Slice>)
    ensures
        list@.len() == slices_read(table@, data@),
        forall|p: int| 0 <= p < list@.len() ==> (#[trigger] list@[p])@ == slice_decoded(table@[p], data@),
{
    let n = table.len();
    let mut list: Vec<Slice> = Vec::new();
    let mut i: usize = 0;
    let mut failed = false;
    while i < n && !failed
        invariant
            i <= n,
            n == table@.len(),
            list@.len() == i,
            slices_read(table@.take(i as int), data@) == i,
            failed == (i > 0 && slice_decoded(table@[i - 1], data@) is Undecodable),
            forall|p: int| 0 <= p < i ==> (#[trigger] list@[p])@ == slice_decoded(table@[p], data@),
        decreases n - i,
    {
        proof {
            assert(table@.take(i + 1).drop_last() =~= table@.take(i as int));
            if i > 0 {
                assert(table@.take(i + 1)[i - 1] == table@[i - 1]);
            }
        }
        match decode_image(slice_bytes(&table[i], data)) {
            Ok(image) => {
                list.push(Slice::Image(image));
            },
            Err(error) => {
                list.push(Slice::Undecodable(error));
                failed = true;
            },
        }
        i += 1;
    }
    proof {
        lemma_slices_read_prefix(table@, data@, i as int);
    }
    list
}

/// Decodes a byte buffer. A buffer that opens with the container's magic
/// number is read as a multi-architecture container, its slices in table
/// order, up to and including the first slice that cannot be decoded; any
/// other buffer is read as a single image, from its start.
///
/// Fails exactly when the magic number cannot be read, when the container's
/// header or table cannot be read, or when the buffer is no container and
/// cannot be decoded as an image.
pub fn decode(data: &[u8]) -> (r: Result<Container, DecodeError>)
    ensures
        match r {
            Ok(container) => decoded(data@) matches Ok(found) && found == container@,
            Err(error) => decoded(data@) matches Err(found) && found == error@,
        },
{
    let (magic, ctx) = match magic_and_ctx(data) {
        Ok(pair) => pair,
        Err(error) => {
            return Err(failure_of(&error));
        },
    };
    if magic == CONTAINER_MAGIC {
        let fat = match open_container(data) {
            Ok(fat) => fat,
            Err(error) => {
                return Err(failure_of(&error));
            },
        };
        let table = match arch_table(&fat) {
            Ok(table) => table,
            Err(error) => {
                return Err(failure_of(&error));
            },
        };
        let container = Container::MultiArch(read_slices(&table, data));
        assert(container@->MultiArch_0 =~= decoded(data@)->Ok_0->MultiArch_0);
        Ok(container)
    } else {
        match read_image(data, magic, ctx) {
            Ok(image) => Ok(Container::Single(image)),
            Err(error) => Err(error),
        }
    }
}

} // verus!
