use spectre_core::mpmaplist::{
    browse_mpmaplist_with_validation, extract_attr, get_available_maps_static, line_kind,
    looks_like_map_list, map_list_choice_given, parse_mpmaplist, resolve_mpmaplist_path,
    style_for_name, style_for_tag, LineKind,
};

#[test]
fn parse_simple() {
    let s = r#"
<gamestyle type="teamplay">
<map name="map_01">
<map name="map_02">
<gamestyle type="deathmatch">
<map name="dm_01">
"#;
    let m = parse_mpmaplist(s);
    assert_eq!(m.get("Occupation"), Some(&vec!["map_01".to_string(), "map_02".to_string()]));
    assert_eq!(m.get("Deathmatch"), Some(&vec!["dm_01".to_string()]));
}

#[test]
fn styles_without_maps_are_absent() {
    let m = parse_mpmaplist("<gamestyle type=\"teamplay\">\n<map name=\"a\">\n");
    assert_eq!(m.get("Objectives"), None);
    assert_eq!(m.get("Cooperative"), None);
    assert_eq!(m.get("Invasion"), None);
    assert_eq!(m.get("occupation"), None);
    assert_eq!(m.get("Nonsense"), None);
    assert_eq!(parse_mpmaplist("").get("Occupation"), None);
}

#[test]
fn maps_before_any_section_or_in_an_unknown_one_are_dropped() {
    let text = "<map name=\"early\">\n<gamestyle type=\"strange\">\n<map name=\"odd\">\n\
                <gamestyle type='Cooperative'>\r\n  <MAP NAME='Burma 1' />  \r\n<map name=\"\">\n\
                <gamestyle type=\"\">\n<map name=\"still coop\">";
    let m = parse_mpmaplist(text);
    assert_eq!(
        m.get("Cooperative"),
        Some(&vec!["Burma 1".to_string(), "still coop".to_string()])
    );
    assert_eq!(m.get("Occupation"), None);
}

#[test]
fn all_five_styles() {
    let text = "<gamestyle type=\"hd2multiplayer\">\n<map name=\"o\">\n\
                <gamestyle type=\"teamplay\">\n<map name=\"t\">\n\
                <gamestyle type=\"deathmatch\">\n<map name=\"d\">\n\
                <gamestyle type=\"cooperative\">\n<map name=\"c\">\n\
                <gamestyle type=\"invasion\">\n<map name=\"i\">\n\
                <gamestyle type=\"teamplay\">\n<map name=\"t2\">\n";
    let m = parse_mpmaplist(text);
    assert_eq!(m.get("Objectives"), Some(&vec!["o".to_string()]));
    assert_eq!(m.get("Occupation"), Some(&vec!["t".to_string(), "t2".to_string()]));
    assert_eq!(m.get("Deathmatch"), Some(&vec!["d".to_string()]));
    assert_eq!(m.get("Cooperative"), Some(&vec!["c".to_string()]));
    assert_eq!(m.get("Invasion"), Some(&vec!["i".to_string()]));
}

#[test]
fn attributes_in_double_or_single_quotes() {
    assert_eq!(
        extract_attr("<map name=\"a b\">", "<Map Name=\"A b\">", "name"),
        Some("A b".to_string())
    );
    assert_eq!(extract_attr("<map name=' x '>", "<map name=' X '>", "name"), Some("X".to_string()));
    assert_eq!(extract_attr("<map name=\"open", "<map name=\"open", "name"), None);
    assert_eq!(
        extract_attr("<map name=\"open name='y'", "<map name=\"open name='y'", "name"),
        Some("y".to_string())
    );
    assert_eq!(extract_attr("<map>", "<map>", "name"), None);
    assert_eq!(extract_attr("<map name=\"long enough\">", "<m", "name"), None);
}

#[test]
fn style_tables() {
    assert_eq!(style_for_tag("hd2multiplayer"), Some(0));
    assert_eq!(style_for_tag("teamplay"), Some(1));
    assert_eq!(style_for_tag("deathmatch"), Some(2));
    assert_eq!(style_for_tag("cooperative"), Some(3));
    assert_eq!(style_for_tag("invasion"), Some(4));
    assert_eq!(style_for_tag("Teamplay"), None);
    assert_eq!(style_for_name("Objectives"), Some(0));
    assert_eq!(style_for_name("Occupation"), Some(1));
    assert_eq!(style_for_name("Deathmatch"), Some(2));
    assert_eq!(style_for_name("Cooperative"), Some(3));
    assert_eq!(style_for_name("Invasion"), Some(4));
    assert_eq!(style_for_name("teamplay"), None);
}

#[test]
fn map_list_path_is_kept_or_completed() {
    assert_eq!(resolve_mpmaplist_path("dir/mpmaplist.txt", true), "dir/mpmaplist.txt");
    assert_eq!(resolve_mpmaplist_path("dir/mpmaplist.TXT", true), "dir/mpmaplist.TXT");
    let joined = resolve_mpmaplist_path("dir", false);
    assert!(joined.starts_with("dir"));
    assert!(joined.ends_with("mpmaplist.txt"));
    assert_ne!(joined, "dir");
    assert_eq!(joined.len(), "dir".len() + 1 + "mpmaplist.txt".len());
    assert_eq!(resolve_mpmaplist_path("", false), "mpmaplist.txt");
    let named_dir = resolve_mpmaplist_path("a/mpmaplist.txt", false);
    assert!(named_dir.starts_with("a/mpmaplist.txt") && named_dir.ends_with("mpmaplist.txt"));
    let nested = resolve_mpmaplist_path("dir/mpmaplist.txt", false);
    assert!(nested.starts_with("dir/mpmaplist.txt"));
    assert!(nested.ends_with("mpmaplist.txt"));
    assert!(nested.len() > "dir/mpmaplist.txt".len());
}

#[test]
fn lines_are_told_apart_by_their_tags() {
    assert_eq!(line_kind("<gamestyle type=\"teamplay\">"), LineKind::Section);
    assert_eq!(line_kind("<map name=\"a\">"), LineKind::MapEntry);
    assert_eq!(line_kind("<gamestyle type=\"x\"><map name=\"a\">"), LineKind::Section);
    assert_eq!(line_kind("<MAP_LIST>"), LineKind::Other);
    assert_eq!(line_kind("<map_list>"), LineKind::MapEntry);
    assert_eq!(line_kind(""), LineKind::Other);
}

#[test]
fn tags_are_read_in_any_case() {
    let m = parse_mpmaplist("<GameStyle Type=\"TeamPlay\">\n<Map Name=\"Burma1\">\n");
    assert_eq!(m.get("Occupation"), Some(&vec!["Burma1".to_string()]));
}

#[test]
fn stock_maps_by_style() {
    let stock = vec!["Brest", "Burma1", "Africa1", "Norway1", "Crete1"];
    for style in ["Cooperative", "Occupation", "Objectives", "Deathmatch"] {
        assert_eq!(get_available_maps_static(style), stock);
    }
    assert!(get_available_maps_static("Invasion").is_empty());
    assert!(get_available_maps_static("cooperative").is_empty());
    assert!(get_available_maps_static("").is_empty());
}

#[test]
fn a_map_list_is_known_by_its_first_line() {
    assert!(looks_like_map_list("<MAP_LIST>\n<gamestyle type=\"teamplay\">"));
    assert!(looks_like_map_list("\r\n   \n  <MAP_LIST> extra\nrest"));
    assert!(!looks_like_map_list("<gamestyle>\n<MAP_LIST>"));
    assert!(!looks_like_map_list("<map_list>"));
    assert!(!looks_like_map_list(""));
    assert!(!looks_like_map_list(" \n \n"));
}

#[test]
fn a_chosen_map_list_is_checked() {
    let good = Some("<MAP_LIST>\n");
    assert_eq!(
        browse_mpmaplist_with_validation(Some("C:/m.TXT"), Some("TXT"), good),
        "MPMAPLIST_PATH:C:/m.TXT"
    );
    assert_eq!(map_list_choice_given(Some("m.txt"), Some("txt"), good), "MPMAPLIST_PATH:m.txt");
    assert_eq!(browse_mpmaplist_with_validation(None, Some("txt"), good), "MPMAPLIST_PATH_CANCELLED");
    let invalid = "MPMAPLIST_PATH_INVALID:Unexpected file format.";
    assert_eq!(browse_mpmaplist_with_validation(Some("m.doc"), Some("doc"), good), invalid);
    assert_eq!(browse_mpmaplist_with_validation(Some("m"), None, good), invalid);
    assert_eq!(browse_mpmaplist_with_validation(Some("m.txt"), Some("txt"), None), invalid);
    assert_eq!(browse_mpmaplist_with_validation(Some("m.txt"), Some("txt"), Some("x")), invalid);
    assert_eq!(map_list_choice_given(Some("m.txt"), Some("TXT"), good), invalid);
}
