use std::rc::Rc;

use typedruby::ast::{Loc, SourceFile};
use typedruby::errors::{color_scheme, Color, Detail, ErrorReporter, ErrorSink, Segment, Style};

fn text(segs: &[Segment]) -> String {
    let bytes: Vec<u8> = segs.iter().flat_map(|s| s.text.iter().cloned()).collect();
    String::from_utf8(bytes).unwrap()
}

fn file(src: &str) -> Rc<SourceFile> {
    Rc::new(SourceFile::new("app.rb".into(), src.to_owned()))
}

#[test]
fn one_line_place_is_quoted_and_marked() {
    let f = file("x = 1\nfoo(bar)   \ny");
    let loc = Loc { file: f, begin_pos: 10, end_pos: 13 };
    let mut r = ErrorReporter::new();
    r.error("Undefined method", &[Detail::Loc("here", &loc)]);
    let out = r.take_output();
    assert_eq!(
        text(&out),
        "error: Undefined method\n\n        @ app.rb:2\n      2 |  foo(bar)\n               ^^^ here\n"
    );
    assert_eq!(r.error_count(), 1);
    assert_eq!(out[0].style, Some(color_scheme(Color::Red).0));
    assert_eq!(out[1].style, Some(color_scheme(Color::Red).1));
}

#[test]
fn many_line_place_is_fenced() {
    let f = file("a\nbb  \nccc\nd");
    let loc = Loc { file: f, begin_pos: 3, end_pos: 8 };
    let mut r = ErrorReporter::new();
    r.warning("Odd", &[Detail::Loc("this", &loc)]);
    assert_eq!(
        text(&r.take_output()),
        "warning: Odd\n\n        @ app.rb:2\n          --v\n      2 | |bb\n      3 | |ccc\n          -^ this\n"
    );
    assert_eq!(r.error_count(), 1);
    assert_eq!(r.warning_count(), 0);
}

#[test]
fn message_details_and_padding_between_reports() {
    let mut r = ErrorReporter::new();
    r.error("First", &[Detail::Message("because")]);
    r.error("Second", &[]);
    r.error("Third", &[]);
    assert_eq!(
        text(&r.take_output()),
        "error: First\n\n\n        - because\n\n\nerror: Second\n\nerror: Third\n\n"
    );
    assert_eq!(r.error_count(), 3);
}

#[test]
fn color_scheme_styles() {
    let (main, high, low) = color_scheme(Color::Yellow);
    assert_eq!(main, Style { fg: Some(Color::Yellow), bold: true, intense: false });
    assert_eq!(high, Style { fg: None, bold: true, intense: false });
    assert_eq!(low, Style { fg: Some(Color::Blue), bold: true, intense: false });
}

#[test]
fn unicode_whitespace_is_trimmed_from_quoted_line() {
    let f = file("ab\u{3000} \n");
    let loc = Loc { file: f, begin_pos: 0, end_pos: 1 };
    let mut r = ErrorReporter::new();
    r.error("E", &[Detail::Loc("a", &loc)]);
    assert_eq!(text(&r.take_output()), "error: E\n\n        @ app.rb:1\n      1 |  ab\n           ^ a\n");
}

#[test]
fn a_type_error_is_reported_once_with_its_note() {
    let f = file("Foo[A, B]");
    let loc = Loc { file: f, begin_pos: 0, end_pos: 9 };
    let mut r = ErrorReporter::new();
    typedruby::typecheck::errors::Error::TooManyTypeParameters { loc }.emit(&mut r);
    assert_eq!(r.error_count(), 1);
    assert_eq!(r.warning_count(), 0);
    assert_eq!(
        text(&r.take_output()),
        "error: Too many type parameters supplied in instantiation of generic type\n\n        @ app.rb:1\n      1 |  Foo[A, B]\n           ^^^^^^^^^ from here\n"
    );
}
