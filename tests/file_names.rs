use mjai_batch::batch::{is_eligible_extension, is_eligible_name, output_file_name};
use mjai_batch::file_name::{extension, file_stem};

#[test]
fn stem_and_extension_of_plain_name() {
    assert_eq!(file_stem("game1.json"), "game1");
    assert_eq!(extension("game1.json"), Some("json".to_string()));
}

#[test]
fn name_without_dot_has_no_extension() {
    assert_eq!(file_stem("noext"), "noext");
    assert_eq!(extension("noext"), None);
}

#[test]
fn leading_dot_alone_is_no_extension() {
    assert_eq!(file_stem(".hidden"), ".hidden");
    assert_eq!(extension(".hidden"), None);
}

#[test]
fn last_dot_splits() {
    assert_eq!(file_stem("a.b.txt"), "a.b");
    assert_eq!(extension("a.b.txt"), Some("txt".to_string()));
    assert_eq!(file_stem(".x.json"), ".x");
    assert_eq!(extension(".x.json"), Some("json".to_string()));
}

#[test]
fn trailing_dot_gives_empty_extension() {
    assert_eq!(file_stem("a."), "a");
    assert_eq!(extension("a."), Some(String::new()));
}

#[test]
fn empty_name() {
    assert_eq!(file_stem(""), "");
    assert_eq!(extension(""), None);
}

#[test]
fn non_ascii_name() {
    assert_eq!(file_stem("牌譜.txt"), "牌譜");
    assert_eq!(extension("牌譜.txt"), Some("txt".to_string()));
}

#[test]
fn eligible_extensions() {
    assert!(is_eligible_extension("json"));
    assert!(is_eligible_extension("txt"));
    assert!(!is_eligible_extension("log"));
    assert!(!is_eligible_extension("JSON"));
    assert!(!is_eligible_extension(""));
}

#[test]
fn eligible_names() {
    assert!(is_eligible_name("game.json"));
    assert!(is_eligible_name("game.txt"));
    assert!(is_eligible_name("README"));
    assert!(is_eligible_name(".hidden"));
    assert!(!is_eligible_name("game.log"));
    assert!(!is_eligible_name("a."));
    assert!(!is_eligible_name("game.json.bak"));
}

#[test]
fn output_names() {
    assert_eq!(output_file_name("game1.json"), "game1.json");
    assert_eq!(output_file_name("game2.txt"), "game2.json");
    assert_eq!(output_file_name("noext"), "noext.json");
    assert_eq!(output_file_name("a.b.txt"), "a.b.json");
    assert_eq!(output_file_name(""), ".json");
}

#[test]
fn output_names_collide_on_equal_stems() {
    assert_eq!(output_file_name("game.json"), output_file_name("game.txt"));
}
