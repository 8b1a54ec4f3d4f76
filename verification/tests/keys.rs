use matey::args::{Arg, ArgType};
use matey::cache::{cache_key, to_lower_hex_nopad};
use matey::common::FileLocation;

#[test]
fn cache_keys_are_unpadded_sha256_hex() {
    assert_eq!(
        cache_key(b""),
        "e3b0c44298fc1c149afbf4c8996fb92427ae41e4649b934ca495991b7852b855"
    );
    assert_eq!(
        cache_key(b"abc"),
        "ba7816bf8f1cfea414140de5dae2223b0361a396177a9cb410ff61f2015ad"
    );
}

#[test]
fn hex_rendering_drops_leading_zeros_per_byte() {
    assert_eq!(to_lower_hex_nopad(&vec![0xba, 0x01, 0x10, 0x00]), "ba1100");
    assert_eq!(to_lower_hex_nopad(&vec![]), "");
}

#[test]
fn arg_matches_its_spellings() {
    let arg = Arg::new("image", Some("-i"), None, "the image to use", ArgType::Text);
    assert!(arg.matches("-i"));
    assert!(!arg.matches("--image"));
    assert_eq!(arg.short_len(), 2);
    assert_eq!(arg.long_len(), 0);
    let flag = Arg::new("light", Some("-l"), Some("--light"), "use the light theme", ArgType::Flag);
    assert!(flag.matches("--light"));
    assert!(flag.matches("-l"));
    assert!(!flag.matches("-x"));
    assert_eq!(flag.long_len(), 7);
}

#[test]
fn locations_start_at_line_one_column_one() {
    let mut loc = FileLocation::new();
    assert_eq!((loc.line, loc.column), (1, 1));
    loc.step();
    loc.step();
    assert_eq!((loc.line, loc.column), (1, 3));
    loc.nl();
    assert_eq!((loc.line, loc.column), (2, 1));
}
