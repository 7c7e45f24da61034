use std::rc::Rc;

use typedruby::abstract_type::{AnnotationStatus, ArgNode, Prototype, TypeNode, TypeScope};
use typedruby::ast::{Id, Loc, Node, SourceFile};
use typedruby::define::{define_ivar, define_method, IvarDef, MethodDef, MethodVisibility};
use typedruby::environment::{resolve_cbase, resolve_cpath};
use typedruby::errors::{report_all, ErrorReporter, ErrorSink, Report};
use typedruby::object::{MethodImpl, ObjectGraph, RubyObject, Scope};

const SRC: &str = "def foo(x) Integer Box Pair Nope T @ivar";

fn loc(b: usize, e: usize) -> Loc {
    let file = Rc::new(SourceFile::new("t.rb".into(), SRC.to_owned()));
    Loc { file, begin_pos: b, end_pos: e }
}

fn at() -> Loc {
    loc(0, 3)
}

fn name(s: &str) -> Rc<Node> {
    Rc::new(Node::Const(at(), None, Id(loc(4, 7), s.to_owned())))
}

fn cpath(s: &str) -> Node {
    Node::TyCpath(at(), name(s))
}

fn geninst(s: &str, args: Vec<Node>) -> Node {
    Node::TyGeninst(at(), name(s), args.into_iter().map(Rc::new).collect())
}

fn root(g: &ObjectGraph) -> Rc<Scope> {
    Rc::new(Scope { parent: None, module: g.Object })
}

fn top_scope(g: &ObjectGraph) -> Rc<TypeScope> {
    TypeScope::new(g, root(g), g.Object)
}

fn messages(reports: &[Report]) -> Vec<String> {
    reports.iter().map(|r| r.message.clone()).collect()
}

fn id_param(s: &str) -> Id {
    Id(at(), s.to_owned())
}

#[test]
fn constant_paths_resolve_from_the_scope() {
    let g = ObjectGraph::new();
    let scope = root(&g);
    let found = resolve_cpath(&g, &Node::Const(at(), None, Id(at(), "Integer".to_owned())), &scope);
    assert_eq!(found.ok().and_then(|c| c.module()), Some(g.Integer));
    let top = Node::Const(at(), Some(Rc::new(Node::Cbase(at()))), Id(at(), "String".to_owned()));
    assert_eq!(resolve_cpath(&g, &top, &scope).ok().and_then(|c| c.module()), Some(g.String));
    let missing = resolve_cpath(&g, &Node::Const(at(), None, Id(at(), "Nope".to_owned())), &scope);
    assert_eq!(missing.err().map(|e| e.1), Some("No such constant"));
    let nested = Node::Const(at(), Some(name("Integer")), Id(at(), "Nope".to_owned()));
    assert_eq!(resolve_cpath(&g, &nested, &scope).err().map(|e| e.1), Some("No such constant"));
    assert_eq!(resolve_cbase(&g, &Node::Cbase(at()), &scope).ok(), Some(g.Object));
    assert_eq!(resolve_cpath(&g, &Node::Self_(at()), &scope).err().map(|e| e.1), Some("Not a static constant path"));
}

#[test]
fn a_class_name_resolves_to_an_instance_of_it() {
    let mut g = ObjectGraph::new();
    let ts = top_scope(&g);
    let mut reports = Vec::new();
    let t = TypeNode::resolve(&cpath("Integer"), &mut g, ts, &mut reports);
    assert!(matches!(&*t, TypeNode::Instance { class, type_parameters, .. }
        if *class == g.Integer && type_parameters.is_empty()));
    assert!(reports.is_empty());
}

#[test]
fn an_unknown_name_is_an_error_type_and_a_report() {
    let mut g = ObjectGraph::new();
    let ts = top_scope(&g);
    let mut reports = Vec::new();
    let t = TypeNode::resolve(&cpath("Nope"), &mut g, ts, &mut reports);
    assert!(matches!(&*t, TypeNode::Error { .. }));
    assert_eq!(messages(&reports), vec!["No such constant".to_owned()]);
    assert_eq!(reports[0].details[0].0, "here");
}

#[test]
fn class_of_a_class_is_its_metaclass() {
    let mut g = ObjectGraph::new();
    let ts = top_scope(&g);
    let mut reports = Vec::new();
    let before = g.size();
    let t = TypeNode::resolve(&geninst("Class", vec![cpath("Integer")]), &mut g, ts.clone(), &mut reports);
    assert!(reports.is_empty());
    match &*t {
        TypeNode::Instance { class, .. } => {
            assert!(matches!(g.object(*class), RubyObject::Metaclass { of, .. } if *of == g.Integer));
            assert_eq!(g.name_of(*class), "Class::[Integer]");
        },
        _ => panic!("expected an instance"),
    }
    assert!(g.size() > before);
    let plain = TypeNode::resolve(&cpath("Class"), &mut g, ts.clone(), &mut reports);
    assert!(matches!(&*plain, TypeNode::Instance { class, .. } if *class == g.Class));
    let bad = TypeNode::resolve(&geninst("Class", vec![Node::TyAny(at()), cpath("Integer")]), &mut g, ts, &mut reports);
    assert!(matches!(&*bad, TypeNode::Error { .. }));
    assert_eq!(messages(&reports), vec![
        "Too many type parameters supplied in instantiation of metaclass".to_owned(),
        "Type parameter in metaclass instantiation must be constant path".to_owned(),
    ]);
}

#[test]
fn generic_classes_take_their_number_of_type_arguments() {
    let mut g = ObjectGraph::new();
    g.define_class(None, g.Object, "Box", g.Object, vec![id_param("T")]);
    g.define_class(None, g.Object, "Pair", g.Object, vec![id_param("K"), id_param("V")]);
    let ts = top_scope(&g);
    let mut reports = Vec::new();
    let none = TypeNode::resolve(&cpath("Box"), &mut g, ts.clone(), &mut reports);
    assert!(matches!(&*none, TypeNode::Instance { type_parameters, .. }
        if type_parameters.len() == 1 && matches!(&*type_parameters[0], TypeNode::Error { .. })));
    let few = TypeNode::resolve(&geninst("Pair", vec![cpath("Integer")]), &mut g, ts.clone(), &mut reports);
    assert!(matches!(&*few, TypeNode::Instance { type_parameters, .. } if type_parameters.len() == 2));
    let many = TypeNode::resolve(&geninst("Box", vec![cpath("Integer"), cpath("String")]), &mut g, ts, &mut reports);
    assert!(matches!(&*many, TypeNode::Instance { type_parameters, .. }
        if type_parameters.len() == 1 && matches!(&*type_parameters[0], TypeNode::Instance { .. })));
    assert_eq!(messages(&reports), vec![
        "Type referenced is generic but no type parameters were supplied".to_owned(),
        "Too few type parameters supplied in instantiation of generic type".to_owned(),
        "Too many type parameters supplied in instantiation of generic type".to_owned(),
    ]);
    assert_eq!(reports[1].details[0].0, "Pair also expects V");
    assert_eq!(reports[2].details[0].0, "from here");
}

#[test]
fn type_parameters_in_scope_resolve_to_themselves() {
    let mut g = ObjectGraph::new();
    let b = g.define_class(None, g.Object, "Box", g.Object, vec![id_param("T")]);
    let ts = TypeScope::new(&g, Rc::new(Scope { parent: Some(root(&g)), module: b }), b);
    let mut reports = Vec::new();
    let t = TypeNode::resolve(&cpath("T"), &mut g, ts.clone(), &mut reports);
    assert!(matches!(&*t, TypeNode::TypeParameter { name, .. } if name == "T"));
    assert!(reports.is_empty());
    let with_args = TypeNode::resolve(&geninst("T", vec![cpath("Integer")]), &mut g, ts, &mut reports);
    assert!(matches!(&*with_args, TypeNode::TypeParameter { .. }));
    assert_eq!(messages(&reports), vec!["Type parameters were supplied but type mentioned does not take any".to_owned()]);
}

#[test]
fn nillable_and_union_types_are_unions() {
    let mut g = ObjectGraph::new();
    let ts = top_scope(&g);
    let mut reports = Vec::new();
    let t = TypeNode::resolve(&Node::TyNillable(at(), Rc::new(cpath("Integer"))), &mut g, ts.clone(), &mut reports);
    match &*t {
        TypeNode::Union { types, .. } => {
            assert_eq!(types.len(), 2);
            assert!(matches!(&*types[0], TypeNode::Instance { class, .. } if *class == g.NilClass));
            assert!(matches!(&*types[1], TypeNode::Instance { class, .. } if *class == g.Integer));
        },
        _ => panic!("expected a union"),
    }
    let or = TypeNode::resolve(&Node::TyOr(at(), Rc::new(cpath("Integer")), Rc::new(Node::TyAny(at()))),
        &mut g, ts.clone(), &mut reports);
    assert!(matches!(&*or, TypeNode::Union { types, .. } if matches!(&*types[1], TypeNode::Any { .. })));
    let paren = TypeNode::resolve(&Node::TyParen(at(), Rc::new(Node::TySelf(at()))), &mut g, ts, &mut reports);
    assert!(matches!(&*paren, TypeNode::SpecialSelf { .. }));
    assert!(reports.is_empty());
}

fn typed_arg(ty: Node, n: &str) -> Rc<Node> {
    Rc::new(Node::TyTypedArg(at(), Rc::new(ty), Rc::new(Node::Arg(at(), n.to_owned()))))
}

#[test]
fn prototypes_say_how_much_is_annotated() {
    let mut g = ObjectGraph::new();
    let ts = top_scope(&g);
    let mut reports = Vec::new();
    let typed = Node::TyPrototype(at(), None, Rc::new(Node::Args(at(), vec![typed_arg(cpath("Integer"), "x")])),
        Some(Rc::new(cpath("String"))));
    let (status, proto) = Prototype::resolve(&at(), Some(&typed), &mut g, ts.clone(), &mut reports);
    assert_eq!(status, AnnotationStatus::Typed);
    assert_eq!(proto.args.len(), 1);
    assert!(matches!(&proto.args[0], ArgNode::Required { ty: Some(_), .. }));
    assert!(proto.retn.is_some());
    let partial = Node::TyPrototype(at(), None, Rc::new(Node::Args(at(), vec![Rc::new(Node::Arg(at(), "y".to_owned()))])),
        Some(Rc::new(cpath("String"))));
    let (status, _) = Prototype::resolve(&at(), Some(&partial), &mut g, ts.clone(), &mut reports);
    assert_eq!(status, AnnotationStatus::Partial);
    let untyped = Node::Args(at(), vec![Rc::new(Node::Arg(at(), "z".to_owned()))]);
    let (status, proto) = Prototype::resolve(&at(), Some(&untyped), &mut g, ts.clone(), &mut reports);
    assert_eq!(status, AnnotationStatus::Untyped);
    assert!(matches!(&proto.args[0], ArgNode::Required { ty: None, .. }));
    let (status, proto) = Prototype::resolve(&at(), None, &mut g, ts, &mut reports);
    assert_eq!(status, AnnotationStatus::Untyped);
    assert!(proto.args.is_empty() && proto.retn.is_none());
    assert!(reports.is_empty());
}

#[test]
fn generic_prototypes_declare_type_variables() {
    let mut g = ObjectGraph::new();
    let ts = top_scope(&g);
    let mut reports = Vec::new();
    let genargs = Node::TyGenargs(at(), vec![Rc::new(Node::TyGendeclarg(at(), "U".to_owned(),
        Some(Rc::new(cpath("Integer")))))]);
    let proto = Node::TyPrototype(at(), Some(Rc::new(genargs)),
        Rc::new(Node::Args(at(), vec![typed_arg(cpath("U"), "u")])), Some(Rc::new(cpath("U"))));
    let (status, p) = Prototype::resolve(&at(), Some(&proto), &mut g, ts, &mut reports);
    assert_eq!(status, AnnotationStatus::Typed);
    assert_eq!(p.type_vars.len(), 1);
    assert_eq!(p.type_constraints.len(), 1);
    assert!(matches!(&p.retn, Some(t) if matches!(&**t, TypeNode::TypeParameter { name, .. } if name == "U")));
    assert!(reports.is_empty());
}

#[test]
fn destructuring_arguments_take_no_exterior_type_or_rest() {
    let mut g = ObjectGraph::new();
    let ts = top_scope(&g);
    let mut reports = Vec::new();
    let mlhs = Node::Mlhs(at(), vec![Rc::new(Node::Arg(at(), "a".to_owned())), Rc::new(Node::Restarg(at(), None))]);
    let arg = Rc::new(Node::TyTypedArg(at(), Rc::new(cpath("Integer")), Rc::new(mlhs)));
    let args = Node::Args(at(), vec![arg]);
    let (status, p) = Prototype::resolve(&at(), Some(&args), &mut g, ts, &mut reports);
    assert_eq!(status, AnnotationStatus::Partial);
    assert!(matches!(&p.args[0], ArgNode::Required { ty: None, .. }));
    assert_eq!(messages(&reports), vec![
        "Only required arguments are supported in destructuring arguments".to_owned(),
        "Exterior type annotations on destructuring arguments are not allowed".to_owned(),
    ]);
    assert_eq!(reports[1].details.len(), 2);
}

fn def_node(proto: Option<Node>) -> Rc<Node> {
    Rc::new(Node::Def(at(), Id(at(), "foo".to_owned()), proto.map(Rc::new), None))
}

#[test]
fn method_definitions_enter_typed_or_untyped_methods() {
    let mut g = ObjectGraph::new();
    let mut reports = Vec::new();
    let scope = root(&g);
    let object = g.Object;
    let typed = Node::TyPrototype(at(), None, Rc::new(Node::Args(at(), vec![typed_arg(cpath("Integer"), "x")])),
        Some(Rc::new(cpath("Integer"))));
    let r = define_method(&mut g, &mut reports, MethodDef::Def {
        module: object, visi: MethodVisibility::Public, name: Id(at(), "foo".to_owned()),
        node: def_node(Some(typed)), scope: scope.clone(),
    });
    assert!(matches!(r.as_ref().map(|e| &*e.implementation), Some(MethodImpl::TypedRuby { .. })));
    assert!(matches!(g.lookup_method(g.Object, "foo").map(|e| e.owner), Some(o) if o == g.Object));
    let partial = Node::TyPrototype(at(), None, Rc::new(Node::Args(at(), vec![Rc::new(Node::Arg(at(), "x".to_owned()))])),
        Some(Rc::new(cpath("Integer"))));
    let r = define_method(&mut g, &mut reports, MethodDef::Def {
        module: object, visi: MethodVisibility::Private, name: Id(at(), "bar".to_owned()),
        node: def_node(Some(partial)), scope,
    });
    assert!(matches!(r.as_ref().map(|e| &*e.implementation), Some(MethodImpl::Ruby { .. })));
    assert_eq!(messages(&reports), vec!["Partial type signatures are not permitted in method definitions".to_owned()]);
    assert_eq!(reports[0].details[0].0, "all arguments and return value must be annotated");
}

#[test]
fn aliases_attributes_and_visibility() {
    let mut g = ObjectGraph::new();
    let mut reports = Vec::new();
    let c = g.define_class(None, g.Object, "Point", g.Object, vec![]);
    define_method(&mut g, &mut reports, MethodDef::AttrReader { module: c, visi: MethodVisibility::Public,
        name: Id(at(), "x".to_owned()) });
    define_method(&mut g, &mut reports, MethodDef::AttrWriter { module: c, visi: MethodVisibility::Public,
        name: Id(at(), "x".to_owned()) });
    let ivar = g.lookup_method(c, "x").map(|e| match &*e.implementation {
        MethodImpl::AttrReader { ivar, .. } => ivar.clone(),
        _ => String::new(),
    });
    assert_eq!(ivar, Some("@x".to_owned()));
    assert!(g.lookup_method(c, "x=").is_some());
    define_method(&mut g, &mut reports, MethodDef::Alias { module: c, to: Id(at(), "y".to_owned()),
        from: Id(at(), "x".to_owned()), emit_error: true });
    assert!(g.lookup_method(c, "y").is_some());
    define_method(&mut g, &mut reports, MethodDef::Alias { module: c, to: Id(at(), "z".to_owned()),
        from: Id(at(), "nope".to_owned()), emit_error: true });
    assert!(matches!(g.lookup_method(c, "z").map(|e| matches!(&*e.implementation, MethodImpl::Untyped)), Some(true)));
    define_method(&mut g, &mut reports, MethodDef::SetVisi { module: c, visi: MethodVisibility::Private,
        name: Id(at(), "x".to_owned()), emit_error: true });
    assert_eq!(g.lookup_method(c, "x").map(|e| e.visibility), Some(MethodVisibility::Private));
    define_method(&mut g, &mut reports, MethodDef::SetVisi { module: c, visi: MethodVisibility::Private,
        name: Id(at(), "nope".to_owned()), emit_error: true });
    assert_eq!(messages(&reports), vec![
        "Could not resolve source method in alias".to_owned(),
        "Could not resolve method name in visibility declaration".to_owned(),
    ]);
    assert_eq!(reports[0].details[0].0, "Point#nope");
}

#[test]
fn module_functions_go_on_the_metaclass() {
    let mut g = ObjectGraph::new();
    let mut reports = Vec::new();
    let m = g.define_module(None, g.Object, "Util", vec![]);
    define_method(&mut g, &mut reports, MethodDef::AttrReader { module: m, visi: MethodVisibility::Public,
        name: Id(at(), "helper".to_owned()) });
    define_method(&mut g, &mut reports, MethodDef::ModuleFunc { module: m, name: Id(at(), "helper".to_owned()),
        emit_error: true });
    let meta = g.metaclass(m);
    assert!(g.lookup_method_direct(meta, "helper").is_some());
    define_method(&mut g, &mut reports, MethodDef::ModuleFunc { module: m, name: Id(at(), "gone".to_owned()),
        emit_error: false });
    assert!(reports.is_empty());
}

#[test]
fn instance_variables_are_declared_once() {
    let mut g = ObjectGraph::new();
    let mut reports = Vec::new();
    let c = g.define_class(None, g.Object, "Point", g.Object, vec![]);
    let decl = || IvarDef { module: c, name: Id(loc(33, 38), "@ivar".to_owned()), type_node: Rc::new(cpath("Integer")),
        scope: Rc::new(Scope { parent: None, module: c }) };
    define_ivar(&mut g, &mut reports, decl());
    assert!(matches!(g.lookup_ivar(c, "@ivar").map(|v| matches!(&*v.ty, TypeNode::Instance { .. })), Some(true)));
    define_ivar(&mut g, &mut reports, decl());
    assert_eq!(messages(&reports), vec!["Duplicate instance variable type declaration".to_owned()]);
    assert_eq!(reports[0].details[1].0, "previous declaration was here");
}

#[test]
fn reports_are_printed_as_errors_in_order() {
    let mut g = ObjectGraph::new();
    let ts = top_scope(&g);
    let mut reports = Vec::new();
    TypeNode::resolve(&cpath("Nope"), &mut g, ts.clone(), &mut reports);
    TypeNode::resolve(&cpath("Nope"), &mut g, ts, &mut reports);
    let mut sink = ErrorReporter::new();
    report_all(&reports, &mut sink);
    assert_eq!(sink.error_count(), 2);
    let text: Vec<u8> = sink.take_output().into_iter().flat_map(|s| s.text).collect();
    let text = String::from_utf8(text).unwrap();
    assert_eq!(text.matches("No such constant").count(), 2);
    assert!(text.starts_with("error: No such constant"));
}
