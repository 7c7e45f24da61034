use std::rc::Rc;

use typedruby::annotate::{insert, Annotate, AnnotateError, Annotation, Insertion};
use typedruby::ast::{Ast, Diagnostic, Level, Loc, SourceFile};
use typedruby::builder::Builder;
use typedruby::ffi::{Driver, Token};

fn tok(begin: usize, end: usize, text: &str) -> Option<Token> {
    Some(Token::new(begin, end, text.to_owned()))
}

fn builder(file: &Rc<SourceFile>) -> Builder {
    Builder { driver: Driver::new(file.clone()), emit_file_vars_as_literals: false, cookie: 0 }
}

fn anno(line: usize, method: &str, args: &[&str], retn: &str) -> Annotation {
    Annotation {
        line,
        method: method.to_owned(),
        args: args.iter().map(|a| a.to_string()).collect(),
        retn: retn.to_owned(),
    }
}

/// `def foo(a, b)\n  a\nend\ndef bar\nend`
fn two_defs(file: &Rc<SourceFile>) -> Ast {
    let b = builder(file);
    let a = Rc::new(b.arg(tok(8, 9, "a")));
    let bb = Rc::new(b.arg(tok(11, 12, "b")));
    let args = Rc::new(b.args(tok(7, 8, "("), vec![a, bb], tok(12, 13, ")"), true));
    let body = Rc::new(b.integer(tok(16, 17, "1")));
    let foo = Rc::new(b.def_method(tok(0, 3, "def"), tok(4, 7, "foo"), Some(args), Some(body), tok(18, 21, "end")));
    let bar = Rc::new(b.def_method(tok(22, 25, "def"), tok(26, 29, "bar"), None, None, tok(30, 33, "end")));
    let top = b.compstmt(vec![foo, bar]);
    Ast { node: top, diagnostics: vec![] }
}

const TWO_DEFS: &str = "def foo(a, b)\n  1\nend\ndef bar\nend";

fn texts(ins: &[Insertion]) -> Vec<(usize, String)> {
    ins.iter().map(|i| (i.byte_pos, i.string.clone())).collect()
}

#[test]
fn annotates_arguments_and_return_types() {
    let file = Rc::new(SourceFile::new("t.rb".into(), TWO_DEFS.to_owned()));
    let ast = two_defs(&file);
    let annos = vec![
        anno(4, "bar", &[], "NilClass"),
        anno(1, "foo", &["Integer", "String"], "Integer"),
    ];
    let ins = match Annotate::annotate(annos, ast) {
        Ok(ins) => ins,
        Err(_) => panic!("expected insertions"),
    };
    assert_eq!(texts(&ins), vec![
        (8, "Integer".to_owned()),
        (8, " ".to_owned()),
        (11, "String".to_owned()),
        (11, " ".to_owned()),
        (13, " => ".to_owned()),
        (13, "Integer".to_owned()),
        (29, " => ".to_owned()),
        (29, "NilClass".to_owned()),
    ]);
    assert_eq!(
        insert(TWO_DEFS, &ins),
        "def foo(Integer a, String b) => Integer\n  1\nend\ndef bar => NilClass\nend"
    );
}

#[test]
fn annotation_on_other_line_or_method_is_ignored() {
    let file = Rc::new(SourceFile::new("t.rb".into(), TWO_DEFS.to_owned()));
    let ast = two_defs(&file);
    let annos = vec![anno(1, "bar", &[], "X"), anno(2, "foo", &[], "Y")];
    let ins = match Annotate::annotate(annos, ast) {
        Ok(ins) => ins,
        Err(_) => panic!("expected insertions"),
    };
    assert!(ins.is_empty());
}

#[test]
fn fewer_types_than_arguments_annotates_the_first_ones() {
    let file = Rc::new(SourceFile::new("t.rb".into(), TWO_DEFS.to_owned()));
    let ast = two_defs(&file);
    let ins = match Annotate::annotate(vec![anno(1, "foo", &["A"], "R")], ast) {
        Ok(ins) => ins,
        Err(_) => panic!("expected insertions"),
    };
    assert_eq!(insert(TWO_DEFS, &ins), "def foo(A a, b) => R\n  1\nend\ndef bar\nend");
}

#[test]
fn syntax_errors_refuse_annotation() {
    let file = Rc::new(SourceFile::new("t.rb".into(), TWO_DEFS.to_owned()));
    let mut ast = two_defs(&file);
    ast.diagnostics.push(Diagnostic {
        level: Level::Error,
        message: "unexpected token".to_owned(),
        loc: Loc { file: file.clone(), begin_pos: 0, end_pos: 3 },
    });
    match Annotate::annotate(vec![anno(1, "foo", &[], "R")], ast) {
        Err(AnnotateError::Syntax(d)) => assert_eq!(d.len(), 1),
        _ => panic!("expected a syntax error"),
    }
}

#[test]
fn warnings_do_not_refuse_annotation() {
    let file = Rc::new(SourceFile::new("t.rb".into(), TWO_DEFS.to_owned()));
    let mut ast = two_defs(&file);
    ast.diagnostics.push(Diagnostic {
        level: Level::Warning,
        message: "ambiguous".to_owned(),
        loc: Loc { file: file.clone(), begin_pos: 0, end_pos: 3 },
    });
    assert!(Annotate::annotate(vec![anno(4, "bar", &[], "R")], ast).is_ok());
}

#[test]
fn insert_keeps_text_without_insertions() {
    assert_eq!(insert("héllo", &[]), "héllo");
    let ins = vec![Insertion { byte_pos: 0, string: ">".to_owned() }, Insertion { byte_pos: 6, string: "<".to_owned() }];
    assert_eq!(insert("héllo", &ins), ">héllo<");
}

#[test]
fn empty_file_gets_no_insertions() {
    let ast = Ast { node: None, diagnostics: vec![] };
    match Annotate::annotate(vec![anno(1, "foo", &[], "R")], ast) {
        Ok(ins) => assert!(ins.is_empty()),
        Err(_) => panic!("expected no insertions"),
    }

}
