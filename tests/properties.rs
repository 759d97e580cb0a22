use iqe::{load_from_str, match_header, IqeError, IqeModel, TakeInsideBalanced, TakeLiteral, TakeMaybe, TakeOr, TakeSequence, TakeWhitespace, Taker, IQE_HEADER};

fn names(m: &IqeModel) -> Vec<String> {
    m.meshes.iter().map(|x| x.name.clone()).collect()
}

#[test]
fn empty_input_is_empty_error() {
    assert!(matches!(load_from_str(""), Err(IqeError::Empty)));
}

#[test]
fn wrong_first_line_is_bad_header() {
    assert!(matches!(load_from_str("the lies of the jedi"), Err(IqeError::BadHeader)));
    assert!(matches!(load_from_str("# Inter-Quake"), Err(IqeError::BadHeader)));
    assert!(matches!(load_from_str("\n# Inter-Quake Export\n"), Err(IqeError::BadHeader)));
    assert!(matches!(load_from_str(" # Inter-Quake Export"), Err(IqeError::BadHeader)));
}

#[test]
fn header_prefix_with_version_is_accepted() {
    let m = load_from_str("# Inter-Quake Export 2.0\n").unwrap();
    assert_eq!(m.meshes.len(), 0);
}

#[test]
fn header_only_gives_no_meshes() {
    let m = load_from_str(IQE_HEADER).unwrap();
    assert_eq!(m.meshes.len(), 0);
}

#[test]
fn quoted_mesh_name_is_read() {
    let m = load_from_str("# Inter-Quake Export\nmesh \"Cube\"\n").unwrap();
    assert_eq!(names(&m), vec!["Cube".to_string()]);
    assert!(m.meshes[0].positions.is_none());
    assert!(m.meshes[0].texture_coords.is_none());
    assert!(m.meshes[0].normals.is_none());
    assert!(m.meshes[0].faces.is_none());
}

#[test]
fn bare_mesh_has_empty_name() {
    let m = load_from_str("# Inter-Quake Export\nmesh\n").unwrap();
    assert_eq!(names(&m), vec![String::new()]);
}

#[test]
fn unknown_command_is_ignored() {
    let m = load_from_str("# Inter-Quake Export\nfoobar 1 2 3\n").unwrap();
    assert_eq!(m.meshes.len(), 0);
}

#[test]
fn comment_line_is_ignored() {
    let m = load_from_str("# Inter-Quake Export\n# note\n").unwrap();
    assert_eq!(m.meshes.len(), 0);
}

#[test]
fn loading_twice_gives_same_model() {
    let text = "# Inter-Quake Export\nmesh \"A\"\nvp 1 2 3\nmesh \"B\"\nmesh\n";
    let a = load_from_str(text).unwrap();
    let b = load_from_str(text).unwrap();
    assert_eq!(names(&a), names(&b));
    assert_eq!(names(&a), vec!["A".to_string(), "B".to_string(), String::new()]);
    for (x, y) in a.meshes.iter().zip(b.meshes.iter()) {
        assert_eq!(x.positions, y.positions);
        assert_eq!(x.texture_coords, y.texture_coords);
        assert_eq!(x.normals, y.normals);
        assert_eq!(x.faces, y.faces);
    }
}

#[test]
fn meshes_keep_their_order_across_lines() {
    let text = "# Inter-Quake Export\r\n\r\n  mesh \"one\"  \r\n\tmesh \"two\"\nmeshy \"no\"\nmesh\t\"three\" trailing";
    let m = load_from_str(text).unwrap();
    assert_eq!(names(&m), vec!["one".to_string(), "two".to_string(), "three".to_string()]);
}

#[test]
fn mesh_with_unclosed_quote_has_empty_name() {
    let m = load_from_str("# Inter-Quake Export\nmesh \"open\n").unwrap();
    assert_eq!(names(&m), vec![String::new()]);
}

#[test]
fn mesh_with_empty_quotes_has_empty_name() {
    let m = load_from_str("# Inter-Quake Export\nmesh \"\"\n").unwrap();
    assert_eq!(names(&m), vec![String::new()]);
}

#[test]
fn mesh_name_may_hold_spaces_and_unicode() {
    let m = load_from_str("# Inter-Quake Export\nmesh \"big wü\u{3000}rfel\"\u{a0}\n").unwrap();
    assert_eq!(names(&m), vec!["big wü\u{3000}rfel".to_string()]);
}

#[test]
fn unicode_whitespace_separates_the_command() {
    let m = load_from_str("# Inter-Quake Export\n\u{3000}mesh\u{2003}\"X\"\n").unwrap();
    assert_eq!(names(&m), vec![String::new()]);
}

#[test]
fn no_break_space_before_name_gives_empty_name() {
    let m = load_from_str("# Inter-Quake Export\nmesh\u{a0}\"X\"\n").unwrap();
    assert_eq!(names(&m), vec![String::new()]);
    let m = load_from_str("# Inter-Quake Export\n\u{3000}mesh \"X\"\u{a0}\n").unwrap();
    assert_eq!(names(&m), vec!["X".to_string()]);
}

#[test]
fn balanced_extracts_contents() {
    let t = TakeInsideBalanced::new('"', '"');
    assert_eq!(t.take("\"abc\""), Some("abc"));
    assert_eq!(t.take("\"abc\" rest\""), Some("abc"));
}

#[test]
fn balanced_without_closing_is_no_match() {
    let t = TakeInsideBalanced::new('"', '"');
    assert_eq!(t.take("\"abc"), None);
    assert_eq!(t.take("abc\""), None);
    assert_eq!(t.take(""), None);
    assert_eq!(t.take("\""), None);
}

#[test]
fn balanced_empty_contents_match() {
    let t = TakeInsideBalanced::new('"', '"');
    assert_eq!(t.take("\"\""), Some(""));
    let p = TakeInsideBalanced::new('(', ')');
    assert_eq!(p.take("()x"), Some(""));
    assert_eq!(p.take("(a(b)c)"), Some("a(b"));
}

#[test]
fn literal_matches_prefix_only() {
    let t = TakeLiteral::new("mesh");
    assert_eq!(t.take("mesh \"a\""), Some(" \"a\""));
    assert_eq!(t.take("mesh"), Some(""));
    assert_eq!(t.take("me"), None);
    assert_eq!(t.take("mash"), None);
    assert_eq!(t.take(""), None);
}

#[test]
fn whitespace_skip_always_matches() {
    let t = TakeWhitespace::new();
    assert_eq!(t.take(" \t\r\nx y"), Some("x y"));
    assert_eq!(t.take("x"), Some("x"));
    assert_eq!(t.take("   "), Some(""));
    assert_eq!(t.take(""), Some(""));
    assert_eq!(t.take("\u{a0}x"), Some("\u{a0}x"));
    assert_eq!(t.take(" \u{3000}x"), Some("\u{3000}x"));
    assert_eq!(t.take("abc"), Some("abc"));
}

#[test]
fn maybe_passes_input_through_on_failure() {
    let t = TakeMaybe::new(Taker::Literal(TakeLiteral::new("ab")));
    assert_eq!(t.take("abc"), Some("c"));
    assert_eq!(t.take("xbc"), Some("xbc"));
}

#[test]
fn or_falls_back_to_default() {
    let t = TakeOr::new(Taker::InsideBalanced(TakeInsideBalanced::new('"', '"')), "dflt");
    assert_eq!(t.take("\"n\""), Some("n"));
    assert_eq!(t.take("n"), Some("dflt"));
}

#[test]
fn sequence_stops_at_first_failure() {
    let mut v = Vec::new();
    v.push(Taker::Literal(TakeLiteral::new("mesh")));
    v.push(Taker::Whitespace(TakeWhitespace::new()));
    v.push(Taker::InsideBalanced(TakeInsideBalanced::new('"', '"')));
    let t = TakeSequence::new(v);
    assert_eq!(t.take("mesh  \"Cube\""), Some("Cube"));
    assert_eq!(t.take("mesh Cube"), None);
    assert_eq!(t.take("mush \"Cube\""), None);
    let empty = TakeSequence::new(Vec::new());
    assert_eq!(empty.take("abc"), Some("abc"));
    let nested = Taker::Sequence(TakeSequence::new(vec![Taker::Literal(TakeLiteral::new("a")), Taker::Literal(TakeLiteral::new("b"))]));
    assert_eq!(nested.take("abc"), Some("c"));
}

#[test]
fn header_check_reports_each_case() {
    assert!(matches!(match_header(None), Err(IqeError::Empty)));
    assert!(matches!(match_header(Some("# Inter-Quake Export")), Ok(())));
    assert!(matches!(match_header(Some("# Inter-Quake")), Err(IqeError::BadHeader)));
}

#[test]
fn tokens_that_only_resemble_commands_add_nothing() {
    let m = load_from_str("# Inter-Quake Export\nmeshes x\n#note\n  \t\n").unwrap();
    assert_eq!(m.meshes.len(), 0);
}

#[test]
fn text_after_closing_quote_is_ignored() {
    let m = load_from_str("# Inter-Quake Export\n\tmesh \t\"A b\"\"c\" d\n").unwrap();
    assert_eq!(names(&m), vec!["A b".to_string()]);
}
