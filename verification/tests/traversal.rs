use macho_layout::decimal::push_decimal;
use macho_layout::layout::{Image, SectionInfo, SegmentInfo};
use macho_layout::report::{section_table, segment_table};
use macho_layout::rows::{cells_of, section_rows, segment_names, Defect, Row};

fn section(name: &str) -> SectionInfo {
    SectionInfo { name: Some(name.to_string()) }
}

fn segment(name: &str, sections: Vec<SectionInfo>) -> SegmentInfo {
    SegmentInfo {
        name: Some(name.to_string()),
        declared_sections: sections.len() as u32,
        sections: Some(sections),
    }
}

fn text_and_data() -> Image {
    Image {
        segments: vec![
            segment("__TEXT", vec![section("__text"), section("__cstring")]),
            segment("__DATA", vec![section("__data")]),
        ],
    }
}

fn header(name: &str, section_count: u32) -> Row {
    Row::SegmentHeader { name: name.to_string(), section_count }
}

fn entry(name: &str) -> Row {
    Row::SectionEntry { name: name.to_string() }
}

fn decimal_text(n: u32) -> String {
    let mut out = String::new();
    push_decimal(&mut out, n);
    out
}

#[test]
fn text_and_data_rows() {
    let rows = section_rows(&text_and_data()).unwrap();
    assert_eq!(
        rows,
        vec![header("__TEXT", 2), entry("__text"), entry("__cstring"), header("__DATA", 1), entry("__data")]
    );
}

#[test]
fn text_and_data_cells() {
    let rows = section_rows(&text_and_data()).unwrap();
    assert_eq!(
        cells_of(&rows),
        vec![
            vec!["__TEXT".to_string(), "Contains 2 sections".to_string()],
            vec!["".to_string(), "__text".to_string()],
            vec!["".to_string(), "__cstring".to_string()],
            vec!["__DATA".to_string(), "Contains 1 sections".to_string()],
            vec!["".to_string(), "__data".to_string()],
        ]
    );
}

#[test]
fn one_header_per_segment_and_sections_under_it() {
    let image = text_and_data();
    let rows = section_rows(&image).unwrap();
    let headers: Vec<usize> = rows
        .iter()
        .enumerate()
        .filter(|(_, row)| matches!(row, Row::SegmentHeader { .. }))
        .map(|(i, _)| i)
        .collect();
    assert_eq!(headers, vec![0, 3]);
    assert_eq!(rows.len(), 2 + 2 + 1);
}

#[test]
fn empty_image_has_no_rows() {
    let image = Image { segments: vec![] };
    assert_eq!(section_rows(&image), Ok(vec![]));
}

#[test]
fn segment_without_sections_is_a_lone_header() {
    let image = Image { segments: vec![segment("__PAGEZERO", vec![])] };
    assert_eq!(section_rows(&image), Ok(vec![header("__PAGEZERO", 0)]));
    assert_eq!(
        header("__PAGEZERO", 0).cells(),
        vec!["__PAGEZERO".to_string(), "Contains 0 sections".to_string()]
    );
}

#[test]
fn section_cells_leave_the_segment_column_blank() {
    assert_eq!(entry("__const").cells(), vec![String::new(), "__const".to_string()]);
}

#[test]
fn repeated_names_are_kept() {
    let image = Image {
        segments: vec![segment("__X", vec![section("a"), section("a")]), segment("__X", vec![])],
    };
    assert_eq!(
        section_rows(&image),
        Ok(vec![header("__X", 2), entry("a"), entry("a"), header("__X", 0)])
    );
}

#[test]
fn missing_segment_name_after_valid_segments() {
    let mut image = text_and_data();
    let mut bad = segment("ignored", vec![section("s")]);
    bad.name = None;
    image.segments.push(bad);
    image.segments.push(segment("__LINKEDIT", vec![]));
    assert_eq!(section_rows(&image), Err(Defect::SegmentName { segment: 2 }));
    assert_eq!(section_table(&image), Err(Defect::SegmentName { segment: 2 }));
}

#[test]
fn empty_segment_name_is_missing() {
    let image = Image { segments: vec![segment("", vec![])] };
    assert_eq!(section_rows(&image), Err(Defect::SegmentName { segment: 0 }));
}

#[test]
fn missing_section_name() {
    let image = Image {
        segments: vec![
            segment("__TEXT", vec![section("__text")]),
            segment("__DATA", vec![section("__data"), SectionInfo { name: None }, SectionInfo { name: None }]),
        ],
    };
    assert_eq!(section_rows(&image), Err(Defect::SectionName { segment: 1, section: 1 }));
}

#[test]
fn empty_section_name_is_missing() {
    let image = Image { segments: vec![segment("__TEXT", vec![section("")])] };
    assert_eq!(section_rows(&image), Err(Defect::SectionName { segment: 0, section: 0 }));
}

#[test]
fn sections_that_cannot_be_enumerated() {
    let image = Image {
        segments: vec![SegmentInfo {
            name: Some("__TEXT".to_string()),
            declared_sections: 3,
            sections: None,
        }],
    };
    assert_eq!(section_rows(&image), Err(Defect::Sections { segment: 0 }));
}

#[test]
fn declared_count_differs_from_enumerated() {
    let mut seg = segment("__TEXT", vec![section("__text")]);
    seg.declared_sections = 2;
    let image = Image { segments: vec![seg] };
    assert_eq!(
        section_rows(&image),
        Err(Defect::SectionCount { segment: 0, declared: 2, found: 1 })
    );
}

#[test]
fn count_is_checked_before_section_names() {
    let mut seg = segment("__TEXT", vec![SectionInfo { name: None }]);
    seg.declared_sections = 0;
    let image = Image { segments: vec![seg] };
    assert_eq!(
        section_rows(&image),
        Err(Defect::SectionCount { segment: 0, declared: 0, found: 1 })
    );
}

#[test]
fn first_defect_in_walk_order_wins() {
    let mut first = segment("__A", vec![SectionInfo { name: None }]);
    first.declared_sections = 1;
    let mut second = segment("__B", vec![]);
    second.name = None;
    let image = Image { segments: vec![first, second] };
    assert_eq!(section_rows(&image), Err(Defect::SectionName { segment: 0, section: 0 }));
}

#[test]
fn segment_names_in_order() {
    assert_eq!(
        segment_names(&text_and_data()),
        Ok(vec!["__TEXT".to_string(), "__DATA".to_string()])
    );
}

#[test]
fn segment_names_ignore_sections() {
    let image = Image {
        segments: vec![SegmentInfo {
            name: Some("__TEXT".to_string()),
            declared_sections: 7,
            sections: None,
        }],
    };
    assert_eq!(segment_names(&image), Ok(vec!["__TEXT".to_string()]));
}

#[test]
fn segment_names_stop_at_first_missing_name() {
    let mut image = text_and_data();
    image.segments[1].name = None;
    image.segments.push(SegmentInfo { name: None, declared_sections: 0, sections: None });
    assert_eq!(segment_names(&image), Err(Defect::SegmentName { segment: 1 }));
    assert_eq!(segment_table(&image), Err(Defect::SegmentName { segment: 1 }));
}

#[test]
fn all_sections_flattened() {
    assert_eq!(
        text_and_data().iter_sections(),
        Ok(vec![section("__text"), section("__cstring"), section("__data")])
    );
}

#[test]
fn all_sections_keep_unnamed_ones() {
    let image = Image {
        segments: vec![SegmentInfo {
            name: None,
            declared_sections: 9,
            sections: Some(vec![SectionInfo { name: None }, section("b")]),
        }],
    };
    assert_eq!(image.iter_sections(), Ok(vec![SectionInfo { name: None }, section("b")]));
}

#[test]
fn all_sections_fail_on_unlisted_segment() {
    let mut image = text_and_data();
    image.segments[1].sections = None;
    assert_eq!(image.iter_sections(), Err(Defect::Sections { segment: 1 }));
}

#[test]
fn decimal_numerals() {
    assert_eq!(decimal_text(0), "0");
    assert_eq!(decimal_text(7), "7");
    assert_eq!(decimal_text(10), "10");
    assert_eq!(decimal_text(109), "109");
    assert_eq!(decimal_text(4294967295), "4294967295");
}

#[test]
fn decimal_appends_to_what_is_there() {
    let mut out = "n=".to_string();
    push_decimal(&mut out, 42);
    assert_eq!(out, "n=42");
}
