use std::rc::Rc;

use typedruby::ast::{Ast, SourceFile};
use typedruby::builder::Builder;
use typedruby::ffi::{Driver, Token};
use typedruby::sexp::{sexp_node_new, SexpFormatter};

fn tok(begin: usize, end: usize, text: &str) -> Option<Token> {
    Some(Token::new(begin, end, text.to_owned()))
}

#[test]
fn prints_nested_nodes_indented() {
    let file = Rc::new(SourceFile::new("t.rb".into(), "puts \"hi\\n\", 1".to_owned()));
    let b = Builder { driver: Driver::new(file.clone()), emit_file_vars_as_literals: false, cookie: 0 };
    let s = Rc::new(b.string_compose(None, vec![Rc::new(b.string_internal(tok(5, 11, "hi\n")))], None));
    let one = Rc::new(b.integer(tok(13, 14, "1")));
    let call = b.call_method(None, None, tok(0, 4, "puts"), None, vec![s, one], None);
    let ast = Ast { node: Some(Rc::new(call)), diagnostics: vec![] };
    let mut out = "> ".to_owned();
    ast.to_sexp(&mut out);
    assert_eq!(out, "> (send nil :puts\n  (str \"hi\\n\")\n  (int 1))");
}

#[test]
fn empty_file_prints_nothing() {
    let ast = Ast { node: None, diagnostics: vec![] };
    let mut out = String::new();
    ast.to_sexp(&mut out);
    assert_eq!(out, "");
}

#[test]
fn a_node_name_is_written_in_lowercase() {
    let mut f = SexpFormatter { indent: 1, buf: String::new(), print_str: true };
    let n = sexp_node_new(&mut f, "Send");
    assert_eq!(n.fmt.buf, "  (send");
    let mut g = SexpFormatter { indent: 0, buf: String::new(), print_str: true };
    g.new_node("IVar");
    assert_eq!(g.buf, "(ivar");
}
