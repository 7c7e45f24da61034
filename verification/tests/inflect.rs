use typedruby::inflect::{acronym_word, finish_path, slash_namespaces, word_regex_source, Inflector};

#[test]
fn underscore_splits_words_and_namespaces() {
    let inf = Inflector::new().unwrap();
    assert_eq!(inf.underscore("FooBar"), "foo_bar");
    assert_eq!(inf.underscore("Foo::BarBaz"), "foo/bar_baz");
    assert_eq!(inf.underscore("HTTPServer"), "http_server");
    assert_eq!(inf.underscore("Foo-Bar"), "foo_bar");
    assert_eq!(inf.underscore("Version2Parser"), "version2_parser");
    assert_eq!(inf.underscore(""), "");
}

#[test]
fn registered_acronyms_stay_whole() {
    let mut inf = Inflector::new().unwrap();
    assert_eq!(inf.underscore("UsePhD"), "use_ph_d");
    assert!(inf.add_acronym("PhD".to_owned()));
    assert_eq!(inf.underscore("UsePhD"), "use_phd");
    assert_eq!(inf.underscore("PhD::Thesis"), "phd/thesis");
}

#[test]
fn the_acronym_expression_escapes_each_acronym() {
    let src = word_regex_source(&vec!["A.B".to_owned(), "C+".to_owned()]);
    assert_eq!(src, "(?:([A-Za-z\\d])|^)(A\\.B|C\\+)\\b");
    assert_eq!(word_regex_source(&vec![]), "(?:([A-Za-z\\d])|^)()\\b");
}

#[test]
fn acronym_words_and_path_steps() {
    assert_eq!(acronym_word(Some("e"), "PhD"), "e_phd");
    assert_eq!(acronym_word(None, "HTML"), "html");
    assert_eq!(slash_namespaces("A::B::C"), "A/B/C");
    assert_eq!(slash_namespaces("A:::B"), "A/:B");
    assert_eq!(finish_path("Foo-Bar_Baz"), "foo_bar_baz");
}
