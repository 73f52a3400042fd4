use macho_layout::decode::{decode, decode_image};
use macho_layout::layout::{Container, DecodeError, Image, SectionInfo, SegmentInfo, Slice};
use macho_layout::report::{inspect, Failure, Report};
use macho_layout::rows::{section_rows, Defect};

fn name16(name: &[u8]) -> [u8; 16] {
    let mut field = [0u8; 16];
    field[..name.len()].copy_from_slice(name);
    field
}

/// A 64-bit little-endian segment load command with its section headers.
fn segment_command(segname: &[u8], sections: &[&[u8]], declared: u32) -> Vec<u8> {
    placed_segment_command(segname, sections, declared, [0, 0, 0, 0])
}

/// The same, with the segment's address, size, file offset and file size.
fn placed_segment_command(
    segname: &[u8],
    sections: &[&[u8]],
    declared: u32,
    placement: [u64; 4],
) -> Vec<u8> {
    let mut out = Vec::new();
    out.extend_from_slice(&0x19u32.to_le_bytes());
    out.extend_from_slice(&(72 + 80 * sections.len() as u32).to_le_bytes());
    out.extend_from_slice(&name16(segname));
    for field in placement {
        out.extend_from_slice(&field.to_le_bytes());
    }
    out.extend_from_slice(&7u32.to_le_bytes());
    out.extend_from_slice(&5u32.to_le_bytes());
    out.extend_from_slice(&declared.to_le_bytes());
    out.extend_from_slice(&0u32.to_le_bytes());
    for sectname in sections {
        out.extend_from_slice(&name16(sectname));
        out.extend_from_slice(&name16(segname));
        out.extend_from_slice(&0u64.to_le_bytes());
        out.extend_from_slice(&0u64.to_le_bytes());
        for _ in 0..8 {
            out.extend_from_slice(&0u32.to_le_bytes());
        }
    }
    out
}

/// A 32-bit little-endian segment load command with its section headers.
fn narrow_segment_command(segname: &[u8], sections: &[&[u8]]) -> Vec<u8> {
    let mut out = Vec::new();
    out.extend_from_slice(&0x1u32.to_le_bytes());
    out.extend_from_slice(&(56 + 68 * sections.len() as u32).to_le_bytes());
    out.extend_from_slice(&name16(segname));
    for _ in 0..4 {
        out.extend_from_slice(&0u32.to_le_bytes());
    }
    out.extend_from_slice(&7u32.to_le_bytes());
    out.extend_from_slice(&5u32.to_le_bytes());
    out.extend_from_slice(&(sections.len() as u32).to_le_bytes());
    out.extend_from_slice(&0u32.to_le_bytes());
    for sectname in sections {
        out.extend_from_slice(&name16(sectname));
        out.extend_from_slice(&name16(segname));
        for _ in 0..9 {
            out.extend_from_slice(&0u32.to_le_bytes());
        }
    }
    out
}

/// A 32-bit little-endian image made of the given load commands.
fn narrow_image_bytes(commands: &[Vec<u8>]) -> Vec<u8> {
    let size: usize = commands.iter().map(|c| c.len()).sum();
    let mut out = Vec::new();
    out.extend_from_slice(&0xfeed_faceu32.to_le_bytes());
    out.extend_from_slice(&7u32.to_le_bytes());
    out.extend_from_slice(&3u32.to_le_bytes());
    out.extend_from_slice(&2u32.to_le_bytes());
    out.extend_from_slice(&(commands.len() as u32).to_le_bytes());
    out.extend_from_slice(&(size as u32).to_le_bytes());
    out.extend_from_slice(&0u32.to_le_bytes());
    for command in commands {
        out.extend_from_slice(command);
    }
    out
}

/// An entry-point load command.
fn main_command(entry_offset: u64) -> Vec<u8> {
    let mut out = Vec::new();
    out.extend_from_slice(&0x8000_0028u32.to_le_bytes());
    out.extend_from_slice(&24u32.to_le_bytes());
    out.extend_from_slice(&entry_offset.to_le_bytes());
    out.extend_from_slice(&0u64.to_le_bytes());
    out
}

/// A load command that names the image's identifier.
fn uuid_command() -> Vec<u8> {
    let mut out = Vec::new();
    out.extend_from_slice(&0x1bu32.to_le_bytes());
    out.extend_from_slice(&24u32.to_le_bytes());
    out.extend_from_slice(&[0xabu8; 16]);
    out
}

/// A 64-bit little-endian image made of the given load commands.
fn image_bytes(commands: &[Vec<u8>]) -> Vec<u8> {
    let size: usize = commands.iter().map(|c| c.len()).sum();
    let mut out = Vec::new();
    out.extend_from_slice(&0xfeed_facfu32.to_le_bytes());
    out.extend_from_slice(&0x0100_0007u32.to_le_bytes());
    out.extend_from_slice(&3u32.to_le_bytes());
    out.extend_from_slice(&2u32.to_le_bytes());
    out.extend_from_slice(&(commands.len() as u32).to_le_bytes());
    out.extend_from_slice(&(size as u32).to_le_bytes());
    out.extend_from_slice(&0u32.to_le_bytes());
    out.extend_from_slice(&0u32.to_le_bytes());
    for command in commands {
        out.extend_from_slice(command);
    }
    out
}

fn text_and_data_bytes() -> Vec<u8> {
    image_bytes(&[
        segment_command(b"__TEXT", &[b"__text", b"__cstring"], 2),
        segment_command(b"__DATA", &[b"__data"], 1),
    ])
}

/// A multi-architecture container holding the given slices back to back.
fn fat_bytes(slices: &[Vec<u8>]) -> Vec<u8> {
    let mut out = Vec::new();
    out.extend_from_slice(&0xcafe_babeu32.to_be_bytes());
    out.extend_from_slice(&(slices.len() as u32).to_be_bytes());
    let mut offset = 8 + 20 * slices.len();
    for slice in slices {
        out.extend_from_slice(&0x0100_0007u32.to_be_bytes());
        out.extend_from_slice(&3u32.to_be_bytes());
        out.extend_from_slice(&(offset as u32).to_be_bytes());
        out.extend_from_slice(&(slice.len() as u32).to_be_bytes());
        out.extend_from_slice(&0u32.to_be_bytes());
        offset += slice.len();
    }
    for slice in slices {
        out.extend_from_slice(slice);
    }
    out
}

fn sec(name: &str) -> SectionInfo {
    SectionInfo { name: Some(name.to_string()) }
}

fn seg(name: &str, sections: Vec<SectionInfo>) -> SegmentInfo {
    SegmentInfo {
        name: Some(name.to_string()),
        declared_sections: sections.len() as u32,
        sections: Some(sections),
    }
}

fn text_and_data_image() -> Image {
    Image {
        segments: vec![
            seg("__TEXT", vec![sec("__text"), sec("__cstring")]),
            seg("__DATA", vec![sec("__data")]),
        ],
    }
}

fn text_and_data_table() -> String {
    [
        "╭─────────┬─────────────────────╮",
        "│ Segment ┆ Section             │",
        "╞═════════╪═════════════════════╡",
        "│ __TEXT  ┆ Contains 2 sections │",
        "├╌╌╌╌╌╌╌╌╌┼╌╌╌╌╌╌╌╌╌╌╌╌╌╌╌╌╌╌╌╌╌┤",
        "│         ┆ __text              │",
        "├╌╌╌╌╌╌╌╌╌┼╌╌╌╌╌╌╌╌╌╌╌╌╌╌╌╌╌╌╌╌╌┤",
        "│         ┆ __cstring           │",
        "├╌╌╌╌╌╌╌╌╌┼╌╌╌╌╌╌╌╌╌╌╌╌╌╌╌╌╌╌╌╌╌┤",
        "│ __DATA  ┆ Contains 1 sections │",
        "├╌╌╌╌╌╌╌╌╌┼╌╌╌╌╌╌╌╌╌╌╌╌╌╌╌╌╌╌╌╌╌┤",
        "│         ┆ __data              │",
        "╰─────────┴─────────────────────╯",
    ]
    .join("\n")
}

#[test]
fn decode_single_image() {
    assert_eq!(decode(&text_and_data_bytes()), Ok(Container::Single(text_and_data_image())));
}

#[test]
fn decode_keeps_load_command_order() {
    let bytes = image_bytes(&[
        segment_command(b"__B", &[b"z", b"a"], 2),
        segment_command(b"__A", &[], 0),
        segment_command(b"__B", &[b"m"], 1),
    ]);
    let expected = Image {
        segments: vec![seg("__B", vec![sec("z"), sec("a")]), seg("__A", vec![]), seg("__B", vec![sec("m")])],
    };
    assert_eq!(decode(&bytes), Ok(Container::Single(expected)));
}

#[test]
fn decode_image_without_segments() {
    assert_eq!(decode(&image_bytes(&[])), Ok(Container::Single(Image { segments: vec![] })));
}

#[test]
fn decode_full_width_names() {
    let bytes = image_bytes(&[segment_command(b"0123456789abcdef", &[b"ABCDEFGHIJKLMNOP"], 1)]);
    let expected = Image { segments: vec![seg("0123456789abcdef", vec![sec("ABCDEFGHIJKLMNOP")])] };
    assert_eq!(decode(&bytes), Ok(Container::Single(expected)));
}

#[test]
fn decode_name_that_is_not_text() {
    let bytes = image_bytes(&[
        segment_command(b"__TEXT", &[b"__text"], 1),
        segment_command(&[0xff, 0xfe], &[], 0),
    ]);
    let container = decode(&bytes).unwrap();
    let expected = Image {
        segments: vec![
            seg("__TEXT", vec![sec("__text")]),
            SegmentInfo { name: None, declared_sections: 0, sections: Some(vec![]) },
        ],
    };
    assert_eq!(container, Container::Single(expected.clone()));
    assert_eq!(section_rows(&expected), Err(Defect::SegmentName { segment: 1 }));
}

#[test]
fn decode_section_name_that_is_not_text() {
    let bytes = image_bytes(&[segment_command(b"__TEXT", &[b"__text", &[0xc3, 0x28]], 2)]);
    let expected = Image {
        segments: vec![SegmentInfo {
            name: Some("__TEXT".to_string()),
            declared_sections: 2,
            sections: Some(vec![sec("__text"), SectionInfo { name: None }]),
        }],
    };
    assert_eq!(decode(&bytes), Ok(Container::Single(expected)));
}

#[test]
fn decode_more_sections_declared_than_present() {
    let bytes = image_bytes(&[segment_command(b"__TEXT", &[b"__text"], 5)]);
    let expected = Image {
        segments: vec![SegmentInfo {
            name: Some("__TEXT".to_string()),
            declared_sections: 5,
            sections: None,
        }],
    };
    assert_eq!(decode(&bytes), Ok(Container::Single(expected)));
}

#[test]
fn decode_multi_arch() {
    let other = image_bytes(&[segment_command(b"__LINKEDIT", &[], 0)]);
    let bytes = fat_bytes(&[text_and_data_bytes(), other]);
    let expected = Container::MultiArch(vec![
        Slice::Image(text_and_data_image()),
        Slice::Image(Image { segments: vec![seg("__LINKEDIT", vec![])] }),
    ]);
    assert_eq!(decode(&bytes), Ok(expected));
}

#[test]
fn decode_multi_arch_without_slices() {
    assert_eq!(decode(&fat_bytes(&[])), Ok(Container::MultiArch(vec![])));
}

#[test]
fn decode_stops_after_first_bad_slice() {
    let bytes = fat_bytes(&[text_and_data_bytes(), b"not an image".to_vec(), text_and_data_bytes()]);
    let expected = Container::MultiArch(vec![
        Slice::Image(text_and_data_image()),
        Slice::Undecodable(DecodeError::BadMagic { magic: 0x6e6f_7420 }),
    ]);
    assert_eq!(decode(&bytes), Ok(expected));
}

#[test]
fn decode_slice_that_is_a_container() {
    let bytes = fat_bytes(&[fat_bytes(&[])]);
    let expected = Container::MultiArch(vec![Slice::Undecodable(DecodeError::BadMagic {
        magic: 0xcafe_babe,
    })]);
    assert_eq!(decode(&bytes), Ok(expected));
}

#[test]
fn decode_slice_outside_the_buffer() {
    let mut bytes = fat_bytes(&[text_and_data_bytes()]);
    bytes.truncate(200);
    let expected = Container::MultiArch(vec![Slice::Undecodable(DecodeError::Unreadable {
        diagnostic: "bad offset 0".to_string(),
    })]);
    assert_eq!(decode(&bytes), Ok(expected));
}

#[test]
fn decode_announced_slices_that_are_absent() {
    let mut bytes = Vec::new();
    bytes.extend_from_slice(&0xcafe_babeu32.to_be_bytes());
    bytes.extend_from_slice(&0xffff_ffffu32.to_be_bytes());
    assert_eq!(
        decode(&bytes),
        Err(DecodeError::Unreadable {
            diagnostic: "Buffer is too short for 4294967295 arches".to_string()
        })
    );
}

#[test]
fn decode_container_without_its_count() {
    let bytes = 0xcafe_babeu32.to_be_bytes();
    assert!(matches!(decode(&bytes), Err(DecodeError::Unreadable { .. })));
}

#[test]
fn decode_rejects_text() {
    assert_eq!(
        decode(b"Hello, world! This is plain text, not a binary.\n"),
        Err(DecodeError::BadMagic { magic: 0x4865_6c6c })
    );
}

#[test]
fn decode_rejects_short_buffer() {
    assert_eq!(
        decode(b"ab"),
        Err(DecodeError::Unreadable { diagnostic: "type is too big (4) for 2".to_string() })
    );
}

#[test]
fn decode_rejects_empty_buffer() {
    assert_eq!(
        decode(&[]),
        Err(DecodeError::Unreadable { diagnostic: "bad offset 0".to_string() })
    );
}

#[test]
fn decode_rejects_truncated_image() {
    let bytes = text_and_data_bytes();
    assert_eq!(decode(&bytes[..100]), Err(DecodeError::LoadCommands { announced: 2 }));
}

#[test]
fn decode_rejects_more_commands_than_their_size_holds() {
    let mut bytes = image_bytes(&[segment_command(b"__TEXT", &[], 0)]);
    bytes[16..20].copy_from_slice(&10u32.to_le_bytes());
    assert_eq!(decode(&bytes), Err(DecodeError::LoadCommands { announced: 10 }));
}

#[test]
fn decode_rejects_header_without_its_end() {
    let bytes = text_and_data_bytes();
    assert_eq!(
        decode(&bytes[..20]),
        Err(DecodeError::Unreadable {
            diagnostic: "Malformed entity: bytes size is smaller than a Mach-o header".to_string()
        })
    );
}

#[test]
fn decode_rejects_command_that_runs_past_the_end() {
    let mut command = uuid_command();
    command[4..8].copy_from_slice(&4096u32.to_le_bytes());
    let bytes = image_bytes(&[segment_command(b"__TEXT", &[], 0), command]);
    assert!(matches!(decode(&bytes), Err(DecodeError::Unreadable { .. })));
}

#[test]
fn decode_rejects_segment_whose_data_is_absent() {
    let bytes = image_bytes(&[placed_segment_command(b"__TEXT", &[], 0, [0, 0, 0, 1 << 20])]);
    assert!(matches!(decode(&bytes), Err(DecodeError::Unreadable { .. })));
}

#[test]
fn decode_steps_over_other_commands() {
    let bytes = image_bytes(&[
        uuid_command(),
        segment_command(b"__TEXT", &[b"__text"], 1),
        uuid_command(),
        segment_command(b"__DATA", &[], 0),
    ]);
    let expected = Image { segments: vec![seg("__TEXT", vec![sec("__text")]), seg("__DATA", vec![])] };
    assert_eq!(decode(&bytes), Ok(Container::Single(expected)));
}

#[test]
fn decode_image_with_entry_point_before_its_text() {
    let bytes = image_bytes(&[
        placed_segment_command(b"__TEXT", &[], 0, [0, 0, 1, 0]),
        main_command(0),
    ]);
    assert_eq!(bytes.len(), 128);
    let expected = Image { segments: vec![seg("__TEXT", vec![])] };
    assert_eq!(decode(&bytes), Ok(Container::Single(expected)));
}

#[test]
fn decode_entry_point_at_the_far_end_of_the_address_space() {
    let bytes = image_bytes(&[
        placed_segment_command(b"__TEXT", &[], 0, [u64::MAX, 0, 0, 0]),
        main_command(u64::MAX),
    ]);
    let expected = Image { segments: vec![seg("__TEXT", vec![])] };
    assert_eq!(decode(&bytes), Ok(Container::Single(expected)));
}

#[test]
fn decode_narrow_image() {
    let bytes = narrow_image_bytes(&[
        narrow_segment_command(b"__TEXT", &[b"__text", b"__const"]),
        narrow_segment_command(b"__DATA", &[]),
    ]);
    let expected = Image {
        segments: vec![seg("__TEXT", vec![sec("__text"), sec("__const")]), seg("__DATA", vec![])],
    };
    assert_eq!(decode(&bytes), Ok(Container::Single(expected)));
}

#[test]
fn decode_image_alone() {
    assert_eq!(decode_image(&text_and_data_bytes()), Ok(text_and_data_image()));
}

#[test]
fn decode_image_rejects_a_container() {
    assert_eq!(
        decode_image(&fat_bytes(&[text_and_data_bytes()])),
        Err(DecodeError::BadMagic { magic: 0xcafe_babe })
    );
}

#[test]
fn inspect_single_image() {
    assert_eq!(
        inspect(&text_and_data_bytes()),
        Report { tables: vec![text_and_data_table()], failure: None }
    );
}

#[test]
fn inspect_two_identical_slices() {
    let bytes = fat_bytes(&[text_and_data_bytes(), text_and_data_bytes()]);
    assert_eq!(
        inspect(&bytes),
        Report { tables: vec![text_and_data_table(), text_and_data_table()], failure: None }
    );
}

#[test]
fn inspect_twice_gives_the_same_report() {
    let bytes = fat_bytes(&[text_and_data_bytes(), image_bytes(&[segment_command(b"__X", &[], 0)])]);
    let first = inspect(&bytes);
    let second = inspect(&bytes);
    assert_eq!(first.tables.len(), 2);
    assert_eq!(first, second);
}

#[test]
fn inspect_text_yields_decode_failure_and_no_table() {
    let out = inspect("segments and sections, in words only".as_bytes());
    assert_eq!(
        out,
        Report {
            tables: vec![],
            failure: Some(Failure::Decode { error: DecodeError::BadMagic { magic: 0x7365_676d } }),
        }
    );
}

#[test]
fn inspect_name_lookup_failure_yields_no_table() {
    let bytes = image_bytes(&[
        segment_command(b"__TEXT", &[b"__text", b"__cstring"], 2),
        segment_command(b"__DATA", &[b"__data"], 1),
        segment_command(&[0x80], &[], 0),
    ]);
    assert_eq!(
        inspect(&bytes),
        Report {
            tables: vec![],
            failure: Some(Failure::Malformed { image: 0, defect: Defect::SegmentName { segment: 2 } }),
        }
    );
}

#[test]
fn inspect_keeps_tables_before_a_bad_slice() {
    let bytes = fat_bytes(&[text_and_data_bytes(), b"\x7fELF and so on".to_vec()]);
    let out = inspect(&bytes);
    assert_eq!(
        out,
        Report {
            tables: vec![text_and_data_table()],
            failure: Some(Failure::Undecodable {
                index: 1,
                error: DecodeError::BadMagic { magic: 0x7f45_4c46 },
            }),
        }
    );
}

#[test]
fn inspect_unnamed_segment_is_malformed() {
    let bytes = image_bytes(&[segment_command(b"", &[b"__text"], 1)]);
    assert_eq!(
        inspect(&bytes),
        Report {
            tables: vec![],
            failure: Some(Failure::Malformed { image: 0, defect: Defect::SegmentName { segment: 0 } }),
        }
    );
}
