use patternsleuth_bind::buffer::ps_free_results;
use patternsleuth_bind::buffer::MatchBuffer;
use patternsleuth_bind::scan::{
    parse_pattern, ps_get_vtable_size, ps_scan_pattern, ps_scan_string, ps_scan_wstring,
    ps_scan_xref_collect, Image, Section,
};
use patternsleuth_bind::wide::{encode_wide_prefix, find_terminator};

fn one_section_image(base: u64, data: Vec<u8>) -> Image {
    Image {
        sections: vec![Section {
            address: base,
            data,
        }],
    }
}

fn addresses(buf: MatchBuffer) -> Vec<u64> {
    buf.into_vec()
}

#[test]
fn pattern_literal_occurrence_is_reported() {
    let image = one_section_image(0x1000, vec![0x48, 0x89, 0x5C, 0x24, 0x10]);
    let r = ps_scan_pattern("89 5c 24", &image);
    assert!(r.is_some());
    let addrs = addresses(r.unwrap());
    assert_eq!(addrs, vec![0x1001]);
}

#[test]
fn pattern_hex_is_case_insensitive() {
    let image = one_section_image(0x1000, vec![0xAB, 0xCD]);
    let lower = addresses(ps_scan_pattern("ab cd", &image).unwrap());
    let upper = addresses(ps_scan_pattern("AB CD", &image).unwrap());
    assert_eq!(lower, vec![0x1000]);
    assert_eq!(upper, vec![0x1000]);
}

#[test]
fn pattern_wildcard_matches_any_byte() {
    let image = one_section_image(0x2000, vec![0x48, 0x11, 0x5C, 0x48, 0x99, 0x5C]);
    let addrs = addresses(ps_scan_pattern("48 ?? 5c", &image).unwrap());
    assert_eq!(addrs, vec![0x2000, 0x2003]);
}

#[test]
fn pattern_invalid_text_is_refused() {
    let image = one_section_image(0x1000, vec![0x48]);
    assert!(ps_scan_pattern("", &image).is_none());
    assert!(ps_scan_pattern("4", &image).is_none());
    assert!(ps_scan_pattern("zz", &image).is_none());
    assert!(ps_scan_pattern("48  89", &image).is_none());
    assert!(ps_scan_pattern("48 8", &image).is_none());
    assert!(ps_scan_pattern("48 ", &image).is_none());
    assert!(ps_scan_pattern("?8", &image).is_none());
}

#[test]
fn pattern_valid_with_no_match_reports_success_and_empty() {
    let image = one_section_image(0x1000, vec![1, 2, 3]);
    let r = ps_scan_pattern("aa bb", &image);
    assert!(r.is_some());
    assert_eq!(r.unwrap().len(), 0);
}

#[test]
fn pattern_results_concatenate_in_section_order() {
    let image = Image {
        sections: vec![
            Section {
                address: 0x9000,
                data: vec![0x10, 0x20],
            },
            Section {
                address: 0x100,
                data: vec![0x10, 0x20, 0x10, 0x20],
            },
        ],
    };
    let addrs = addresses(ps_scan_pattern("10 20", &image).unwrap());
    assert_eq!(addrs, vec![0x9000, 0x100, 0x102]);
}

#[test]
fn parse_pattern_compiles_bytes_and_mask() {
    let p = parse_pattern("00 ?? ff").unwrap();
    assert_eq!(p.bytes, vec![0x00, 0x00, 0xFF]);
    assert_eq!(p.mask, vec![true, false, true]);
}

#[test]
fn string_scan_finds_overlapping_occurrences() {
    let image = one_section_image(0x100, vec![b'a', b'a', b'a', b'a']);
    let addrs = addresses(ps_scan_string(&vec![b'a', b'a'], &image).unwrap());
    assert_eq!(addrs, vec![0x100, 0x101, 0x102]);
}

#[test]
fn string_scan_accepts_raw_bytes() {
    let image = one_section_image(0, vec![0x00, 0xFE, 0x00, 0xFE]);
    let addrs = addresses(ps_scan_string(&vec![0xFE, 0x00], &image).unwrap());
    assert_eq!(addrs, vec![1]);
}

#[test]
fn string_scan_refuses_empty_needle() {
    let image = one_section_image(0, vec![1, 2, 3]);
    assert!(ps_scan_string(&Vec::new(), &image).is_none());
}

#[test]
fn wstring_scan_matches_manual_little_endian_search() {
    // "AB" as wide units, terminated.
    let units: Vec<u16> = vec![65, 66, 0];
    let needle: Vec<u8> = vec![65, 0, 66, 0];
    let mut data = vec![0xCC, 65, 0, 66, 0, 0xCC, 65, 0, 66, 0];
    data.push(0xCC);
    let image = one_section_image(0x400, data.clone());
    let addrs = addresses(ps_scan_wstring(&units, &image).unwrap());
    // Manual search for the little-endian encoding.
    let mut expected = Vec::new();
    for k in 0..=(data.len() - needle.len()) {
        if data[k..k + needle.len()] == needle[..] {
            expected.push(0x400u64 + k as u64);
        }
    }
    assert_eq!(addrs, expected);
    assert_eq!(addrs, vec![0x401, 0x406]);
}

#[test]
fn wstring_scan_stops_at_terminator() {
    // Units after the terminator take no part in the search.
    let units: Vec<u16> = vec![0x0041, 0, 0xFFFF];
    let image = one_section_image(0, vec![0x41, 0x00, 0xFF, 0xFF]);
    let addrs = addresses(ps_scan_wstring(&units, &image).unwrap());
    assert_eq!(addrs, vec![0]);
}

#[test]
fn wstring_scan_refuses_empty_string() {
    let image = one_section_image(0, vec![0, 0, 0]);
    assert!(ps_scan_wstring(&[0u16], &image).is_none());
    assert!(ps_scan_wstring(&[], &image).is_none());
}

#[test]
fn wide_terminator_and_encoding() {
    assert_eq!(find_terminator(&[72, 105, 0, 9]), 2);
    assert_eq!(find_terminator(&[0]), 0);
    assert_eq!(find_terminator(&[7, 8]), 2);
    let bytes = encode_wide_prefix(&[0x1234, 0x00FF], 2);
    assert_eq!(bytes, vec![0x34, 0x12, 0xFF, 0x00]);
}

#[test]
fn xref_collect_concatenates_in_section_order() {
    let per_section = vec![vec![10u64, 20], Vec::new(), vec![5]];
    let buf = ps_scan_xref_collect(&per_section);
    assert_eq!(buf.into_vec(), vec![10, 20, 5]);
}

#[test]
fn free_results_is_noop_on_none_or_zero_count() {
    assert!(!ps_free_results(None, 0));
    assert!(!ps_free_results(None, 17));
    let buf = MatchBuffer::new(vec![1, 2, 3]);
    assert!(!ps_free_results(Some(buf), 0));
    let buf = MatchBuffer::new(vec![1, 2, 3]);
    assert!(ps_free_results(Some(buf), 3));
}

#[test]
fn match_buffer_hands_out_its_addresses() {
    let buf = MatchBuffer::new(vec![4, 5]);
    assert_eq!(buf.len(), 2);
    assert_eq!(buf.get(0), 4);
    assert_eq!(buf.get(1), 5);
    assert_eq!(buf.into_vec(), vec![4, 5]);
}

#[test]
fn vtable_size_is_zero_on_failure() {
    assert_eq!(ps_get_vtable_size(Some(44)), 44);
    assert_eq!(ps_get_vtable_size(None), 0);
}
