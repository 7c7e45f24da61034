use std::rc::Rc;

use typedruby::ast::{Ast, Id, Loc, Node, SourceFile};
use typedruby::builder::Builder;
use typedruby::ffi::{Driver, Token};
use typedruby::strip::{remove_byte_ranges, ByteRange, Strip};

fn tok(begin: usize, end: usize, text: &str) -> Option<Token> {
    Some(Token::new(begin, end, text.to_owned()))
}

fn loc(file: &Rc<SourceFile>, begin_pos: usize, end_pos: usize) -> Loc {
    Loc { file: file.clone(), begin_pos, end_pos }
}

/// The tree the parser builds for `def foo => T  \n\n  123\nend`.
fn parse_def_foo(file: &Rc<SourceFile>) -> Ast {
    let builder = Builder {
        driver: Driver::new(file.clone()),
        emit_file_vars_as_literals: false,
        cookie: 12345678,
    };
    let args = Rc::new(builder.args(None, vec![], None, true));
    let cpath = Rc::new(builder.const_(tok(11, 12, "T")));
    let ret_type = Rc::new(builder.tr_cpath(Some(cpath)));
    let ret = Rc::new(Node::TyReturnSig(loc(file, 8, 12), ret_type));
    let proto = Rc::new(builder.prototype(None, Some(args), Some(ret)));
    let body = Rc::new(builder.integer(tok(18, 21, "123")));
    let def = builder.def_method(tok(0, 3, "def"), tok(4, 7, "foo"), Some(proto), Some(body), tok(22, 25, "end"));
    Ast { node: Some(Rc::new(def)), diagnostics: vec![] }
}

fn strip(source: Rc<SourceFile>, ast: Ast) -> String {
    let remove = Strip::strip(&source, ast).unwrap();
    remove_byte_ranges(source.source(), remove)
}

#[test]
fn strips_trailing_whitespace() {
    let source = Rc::new(SourceFile::new("(test)".into(), "def foo => T  \n\n  123\nend".to_owned()));
    let ast = parse_def_foo(&source);

    let stripped = strip(source, ast);

    assert_eq!("def foo\n\n  123\nend", stripped);
}

#[test]
fn strip_keeps_inner_part_of_typed_argument() {
    // def foo(Integer a) => nil
    let src = "def foo(Integer a) => nil\nend";
    let file = Rc::new(SourceFile::new("(test)".into(), src.to_owned()));
    let builder = Builder { driver: Driver::new(file.clone()), emit_file_vars_as_literals: false, cookie: 0 };
    let ty = Rc::new(builder.tr_cpath(Some(Rc::new(builder.const_(tok(8, 15, "Integer"))))));
    let arg = Rc::new(builder.arg(tok(16, 17, "a")));
    let typed = Rc::new(builder.typed_arg(Some(ty), Some(arg)));
    let args = Rc::new(builder.args(tok(7, 8, "("), vec![typed], tok(17, 18, ")"), true));
    let nil = Rc::new(builder.tr_nil(tok(22, 25, "nil")));
    let ret = Rc::new(Node::TyReturnSig(loc(&file, 19, 25), nil));
    let proto = Rc::new(builder.prototype(None, Some(args), Some(ret)));
    let def = builder.def_method(tok(0, 3, "def"), tok(4, 7, "foo"), Some(proto), None, tok(26, 29, "end"));
    let ast = Ast { node: Some(Rc::new(def)), diagnostics: vec![] };
    let remove = Strip::strip(&file, ast).unwrap();
    let ranges: Vec<(usize, usize)> = remove.iter().map(|ByteRange(a, b)| (*a, *b)).collect();
    assert_eq!(ranges, vec![(8, 16), (18, 25)]);
    assert_eq!(remove_byte_ranges(src, remove), "def foo(a)\nend");
    let _ = Id(loc(&file, 0, 0), String::new());
}
