use matey::common::{rename_from_snake_case, RenamingScheme};
use matey::config::OutfileSpec;
use matey::error::Error;
use matey::indexable::{CharIndex, IndexableVariable, VariableMap, Warning};
use matey::material::{MateyArgb, MateyScheme, MateyTheme};
use matey::parser::parse_config;
use matey::template::{Template, TemplateToken};

fn color(alpha: u8, red: u8, green: u8, blue: u8) -> MateyArgb {
    MateyArgb { alpha, red, green, blue }
}

fn entries(names: &[&str]) -> Vec<(String, MateyArgb)> {
    names.iter().map(|n| (n.to_string(), color(255, 18, 52, 86))).collect()
}

#[test]
fn empty_template_writes_nothing() {
    let t = Template::new("");
    assert_eq!(t.expr.len(), 0);
    let mut out = Vec::new();
    let w = t.run_with_hashmap(&mut out, &VariableMap::new());
    assert_eq!(out, b"");
    assert_eq!(w.len(), 0);
    let w = t.run_with_entries(&mut out, &entries(&["primary", "shadow"]), RenamingScheme::Snake);
    assert_eq!(out, b"");
    assert_eq!(w.len(), 0);
}

#[test]
fn escaped_brace_is_plain_text() {
    let t = Template::new("a\\{b}c");
    assert!(t.expr.iter().all(|tok| matches!(tok, TemplateToken::RawString(_))));
    let mut out = Vec::new();
    let w = t.run_with_hashmap(&mut out, &VariableMap::new());
    assert_eq!(out, b"a{b}c");
    assert_eq!(w.len(), 0);
}

#[test]
fn lowercase_indexes_select_hex_channels() {
    let t = Template::new("{color.rg}");
    let mut map = VariableMap::new();
    map.insert(
        "color".to_string(),
        IndexableVariable::Argb(color(255, 18, 52, 86)),
    );
    let mut out = Vec::new();
    let w = t.run_with_hashmap(&mut out, &map);
    assert_eq!(out, b"1234");
    assert_eq!(w.len(), 0);
}

#[test]
fn uppercase_indexes_select_decimal_channels() {
    let t = Template::new("{color.Rg}");
    let mut map = VariableMap::new();
    map.insert(
        "color".to_string(),
        IndexableVariable::Argb(color(255, 18, 52, 86)),
    );
    let mut out = Vec::new();
    let w = t.run_with_hashmap(&mut out, &map);
    assert_eq!(out, b"1834");
    assert_eq!(w.len(), 0);
}

#[test]
fn key_reference_is_trimmed_and_split_at_the_first_dot() {
    let t = Template::new("{ color.ab }");
    assert_eq!(t.expr.len(), 1);
    match &t.expr[0] {
        TemplateToken::IndexedKey(k, i) => {
            assert_eq!(k, "color");
            assert_eq!(i, "ab");
        }
        other => panic!("expected an indexed key, got {:?}", other),
    }
    let t = Template::new("{  name  }");
    match &t.expr[0] {
        TemplateToken::Key(k) => assert_eq!(k, "name"),
        other => panic!("expected a key, got {:?}", other),
    }
}

#[test]
fn unknown_key_warns_once_per_run_not_per_role() {
    let t = Template::new("x{unknown}y");
    let mut out = Vec::new();
    let w = t.run_with_entries(
        &mut out,
        &entries(&["primary", "on_primary", "shadow"]),
        RenamingScheme::Snake,
    );
    assert_eq!(out, b"xyxyxy");
    assert_eq!(w.len(), 1);
    match &w[0] {
        Warning::UnknownKey(k) => assert_eq!(k, "unknown"),
        other => panic!("expected an unknown-key warning, got {:?}", other),
    }
}

#[test]
fn foreach_renders_name_and_color_per_role() {
    let t = Template::new("{name}={color};");
    let mut out = Vec::new();
    let w = t.run_with_entries(&mut out, &entries(&["primary", "on_primary"]), RenamingScheme::Dash);
    assert_eq!(out, b"primary=123456;on-primary=123456;");
    assert_eq!(w.len(), 0);
}

#[test]
fn foreach_color_supports_channel_indexing() {
    let t = Template::new("{color.ra}");
    let mut out = Vec::new();
    let w = t.run_with_entries(&mut out, &entries(&["primary"]), RenamingScheme::Snake);
    assert_eq!(out, b"12FF");
    assert_eq!(w.len(), 0);
}

#[test]
fn indexing_anything_but_color_warns() {
    let t = Template::new("{name.r}");
    let mut out = Vec::new();
    let w = t.run_with_entries(&mut out, &entries(&["primary"]), RenamingScheme::Snake);
    assert_eq!(out, b"");
    assert_eq!(w.len(), 1);
    assert!(matches!(&w[0], Warning::KeyNotIndexable(k) if k == "name"));
}

#[test]
fn unknown_index_characters_are_skipped_one_by_one() {
    let t = Template::new("{color.rzb}");
    let mut map = VariableMap::new();
    map.insert(
        "color".to_string(),
        IndexableVariable::Argb(color(255, 18, 52, 86)),
    );
    let mut out = Vec::new();
    let w = t.run_with_hashmap(&mut out, &map);
    assert_eq!(out, b"1256");
    assert_eq!(w.len(), 1);
    assert!(matches!(&w[0], Warning::IndexNotFound(c, k) if *c == 'z' && k == "color"));
}

#[test]
fn plain_values_never_support_indexing() {
    let t = Template::new("{image.r}");
    let mut map = VariableMap::new();
    map.insert("image".to_string(), IndexableVariable::plain(b"pic.png".to_vec()));
    let mut out = Vec::new();
    let w = t.run_with_hashmap(&mut out, &map);
    assert_eq!(out, b"");
    assert_eq!(w.len(), 1);
    assert!(matches!(&w[0], Warning::IndexNotFound(c, k) if *c == 'r' && k == "image"));
}

#[test]
fn missing_keys_warn_and_write_nothing() {
    let t = Template::new("a{missing}b");
    let mut out = Vec::new();
    let w = t.run_with_hashmap(&mut out, &VariableMap::new());
    assert_eq!(out, b"ab");
    assert_eq!(w.len(), 1);
    assert!(matches!(&w[0], Warning::KeyNotFound(k) if k == "missing"));
}

#[test]
fn variable_map_keeps_the_latest_binding() {
    let mut map = VariableMap::new();
    map.insert("k".to_string(), IndexableVariable::plain(b"one".to_vec()));
    map.insert("k".to_string(), IndexableVariable::plain(b"two".to_vec()));
    let v = map.get("k").unwrap();
    assert_eq!(v.get_all(), b"two".to_vec());
    assert!(map.get("absent").is_none());
}

#[test]
fn full_color_representation_is_six_hex_digits() {
    let c = color(255, 18, 52, 86);
    assert_eq!(c.to_hex(), "123456");
    assert_eq!(c.get_all(), b"123456".to_vec());
    assert_eq!(c.get('r'), Some(b"12".to_vec()));
    assert_eq!(c.get('R'), Some(b"18".to_vec()));
    assert_eq!(c.get('A'), Some(b"255".to_vec()));
    assert_eq!(c.get('B'), Some(b"86".to_vec()));
    assert_eq!(c.get('z'), None);
    let v = IndexableVariable::Argb(color(0, 0, 7, 160));
    assert_eq!(v.get_all(), b"0007A0".to_vec());
}

#[test]
fn rename_covers_every_convention() {
    let name = "on_primary_fixed";
    assert_eq!(rename_from_snake_case(name, RenamingScheme::Snake), "on_primary_fixed");
    assert_eq!(rename_from_snake_case(name, RenamingScheme::Dash), "on-primary-fixed");
    assert_eq!(rename_from_snake_case(name, RenamingScheme::Upper), "ONPRIMARYFIXED");
    assert_eq!(rename_from_snake_case(name, RenamingScheme::UpperSnake), "ON_PRIMARY_FIXED");
    assert_eq!(rename_from_snake_case(name, RenamingScheme::Flat), "onprimaryfixed");
    assert_eq!(rename_from_snake_case(name, RenamingScheme::Camel), "onPrimaryFixed");
    assert_eq!(rename_from_snake_case(name, RenamingScheme::UpperCamel), "OnPrimaryFixed");
}

#[test]
fn rename_drops_empty_chunks_and_leading_underscores() {
    assert_eq!(rename_from_snake_case("_a__b_", RenamingScheme::Camel), "aB");
    assert_eq!(rename_from_snake_case("_a__b_", RenamingScheme::UpperCamel), "AB");
    assert_eq!(rename_from_snake_case("___", RenamingScheme::Camel), "");
    assert_eq!(rename_from_snake_case("", RenamingScheme::UpperCamel), "");
}

#[test]
fn scheme_iteration_starts_at_primary_and_covers_every_role() {
    let scheme = MateyScheme::default();
    let t = Template::new("{name}\n");
    let mut out = Vec::new();
    let w = t.run_with_scheme(&mut out, &scheme, RenamingScheme::Snake);
    let text = String::from_utf8(out).unwrap();
    assert!(text.starts_with("primary\non_primary\n"));
    assert!(text.ends_with("shadow\nscrim\n"));
    assert_eq!(text.lines().count(), 49);
    assert_eq!(w.len(), 0);
}

#[test]
fn theme_keeps_both_variants() {
    let mut light = MateyScheme::default();
    light.primary = color(1, 2, 3, 4);
    let dark = MateyScheme::default();
    let theme = MateyTheme::new(light, dark);
    assert_eq!(theme.light.primary, color(1, 2, 3, 4));
    assert_eq!(theme.dark.primary, color(0, 0, 0, 0));
}

#[test]
fn render_resolves_a_templated_path() {
    let config = parse_config("test.path", "#out \"{p}.conf\"\nnorm{hello {who}}").unwrap();
    assert!(matches!(config.outfile, OutfileSpec::TemplatedPath(_)));
    let mut map = VariableMap::new();
    map.insert("p".to_string(), IndexableVariable::plain(b"theme".to_vec()));
    map.insert("who".to_string(), IndexableVariable::plain(b"world".to_vec()));
    let (path, content, warnings) = config.render(&MateyScheme::default(), &map).unwrap();
    assert_eq!(path, "theme.conf");
    assert_eq!(content, b"hello world".to_vec());
    assert_eq!(warnings.len(), 0);
}

#[test]
fn render_rejects_a_path_that_is_not_text() {
    let config = parse_config("test.path", "#out \"{p}\"\nnorm{hi}").unwrap();
    let mut map = VariableMap::new();
    map.insert("p".to_string(), IndexableVariable::plain(vec![0xff, 0xfe]));
    let r = config.render(&MateyScheme::default(), &map);
    assert!(matches!(r, Err(Error::InvalidOutputPath)));
}

#[test]
fn render_concatenates_templates_in_declaration_order() {
    let config = parse_config(
        "test.path",
        "#out \"o\"\n#naming \"CamelCase\"\nnorm{A:{x};}foreach{{name},}norm{B}",
    )
    .unwrap();
    let mut map = VariableMap::new();
    map.insert("x".to_string(), IndexableVariable::plain(b"1".to_vec()));
    let mut scheme = MateyScheme::default();
    scheme.on_primary = color(9, 9, 9, 9);
    let (path, content, warnings) = config.render(&scheme, &map).unwrap();
    assert_eq!(path, "o");
    let text = String::from_utf8(content).unwrap();
    assert!(text.starts_with("A:1;Primary,OnPrimary,"));
    assert!(text.ends_with("Scrim,B"));
    assert_eq!(warnings.len(), 0);
}

#[test]
fn bare_block_out_argument_is_a_templated_path() {
    let config = parse_config("test.path", "#out {p}\nnorm{x}").unwrap();
    match &config.outfile {
        OutfileSpec::TemplatedPath(t) => {
            assert!(matches!(&t.expr[0], TemplateToken::RawString(s) if s == "p"));
        }
        other => panic!("expected a templated path, got {:?}", other),
    }
    let (path, content, _) = config.render(&MateyScheme::default(), &VariableMap::new()).unwrap();
    assert_eq!(path, "p");
    assert_eq!(content, b"x".to_vec());
}

#[test]
fn templates_are_reusable() {
    let t = Template::new("{k}");
    let mut map = VariableMap::new();
    map.insert("k".to_string(), IndexableVariable::plain(b"v".to_vec()));
    let mut out = Vec::new();
    t.run_with_hashmap(&mut out, &map);
    t.run_with_hashmap(&mut out, &map);
    assert_eq!(out, b"vv");
}
