use voxel_chunks::parsers::{
    eq_ignore_ascii_case, get_all_parsers, resource_path, ParserRegistry, VaspParser,
};

#[test]
fn vasp_format_describes_itself() {
    let p = VaspParser::new();
    assert_eq!(p.supported_extensions(), vec!["vasp"]);
    assert_eq!(p.name(), "VASP Parser");
    assert_eq!(get_all_parsers().len(), 1);
}

#[test]
fn vasp_extension_matches_in_any_ascii_case() {
    let p = VaspParser::new();
    assert!(p.supports("vasp"));
    assert!(p.supports("VASP"));
    assert!(p.supports("VaSp"));
    assert!(!p.supports("vas"));
    assert!(!p.supports("vaspx"));
    assert!(!p.supports(""));
}

#[test]
fn ascii_case_comparison() {
    assert!(eq_ignore_ascii_case("Hello", "hELLO"));
    assert!(!eq_ignore_ascii_case("Hello", "Hell"));
    assert!(!eq_ignore_ascii_case("é", "É"));
    assert!(eq_ignore_ascii_case("", ""));
}

#[test]
fn registry_finds_format_by_file_extension() {
    let r = ParserRegistry::new();
    assert!(r.find_parser("vasp").is_some());
    assert!(r.find_parser("txt").is_none());
    let (p, ext) = r.find_parser_for_file("test/resource/CHGDIFF.vasp").expect("vasp file");
    assert_eq!(ext, "vasp");
    assert_eq!(p.name(), "VASP Parser");
    let (_, ext) = r.find_parser_for_file("dir/GRID.VASP").expect("upper-case extension");
    assert_eq!(ext, "VASP");
    assert!(r.find_parser_for_file("dir/readme.txt").is_none());
    assert!(r.find_parser_for_file("dir/noextension").is_none());
    assert!(r.find_parser_for_file("dir/.vasp").is_none());
}

#[test]
fn registry_lists_supported_extensions() {
    let r = ParserRegistry::new();
    assert_eq!(r.supported_extensions(), vec!["vasp".to_string()]);
}

#[test]
fn resource_path_joins_directory_and_file() {
    assert_eq!(resource_path("test/resource", "CHGDIFF.vasp"), "test/resource/CHGDIFF.vasp");
    assert_eq!(resource_path("", "a"), "/a");
}
