use vize_ex_nif::css::{
    bundle_answer, bundle_options, compile_css, compile_options, css_answer, css_targets,
    encode_exports, given_string, CssOutput,
};
use vize_ex_nif::term::{Atom, Term};

fn ok_value(t: &Term) -> &Term {
    match t {
        Term::Tuple(v) if v.len() == 2 && matches!(v[0], Term::Atom(Atom::OkTag)) => &v[1],
        _ => panic!("not {{:ok, _}}: {:?}", t),
    }
}

fn get<'a>(t: &'a Term, key: Atom) -> &'a Term {
    match t {
        Term::Dict(ks, vs) => {
            let i = ks.iter().position(|k| matches!(k, Term::Atom(a) if *a == key)).expect("key");
            &vs[i]
        }
        other => panic!("not a map: {:?}", other),
    }
}

fn keys(t: &Term) -> Vec<Atom> {
    match t {
        Term::Dict(ks, _) => ks.iter().map(|k| match k { Term::Atom(a) => *a, o => panic!("{:?}", o) }).collect(),
        other => panic!("not a map: {:?}", other),
    }
}

fn text(t: &Term) -> &str {
    match t {
        Term::Str(s) => s.as_str(),
        other => panic!("not a string: {:?}", other),
    }
}

#[test]
fn negative_versions_mean_no_target() {
    assert!(css_targets(-1, -1, -1).is_none());
    let t = css_targets(-1, 115, 0).expect("targets");
    assert_eq!((t.chrome, t.firefox, t.safari), (None, Some(115), Some(0)));
    let t = css_targets(100, -3, -3).expect("targets");
    assert_eq!((t.chrome, t.firefox, t.safari), (Some(100), None, None));
}

#[test]
fn empty_scope_id_and_file_name_are_left_out() {
    assert_eq!(given_string(""), None);
    assert_eq!(given_string("a.css"), Some("a.css".to_string()));
    let o = compile_options(true, true, "", "", -1, -1, -1, false);
    assert_eq!((o.scope_id, o.filename, o.minify, o.scoped), (None, None, true, true));
    assert!(o.targets.is_none());
    let o = compile_options(false, false, "data-v-1", "x.css", 90, -1, -1, true);
    assert_eq!(o.scope_id, Some("data-v-1".to_string()));
    assert_eq!(o.filename, Some("x.css".to_string()));
    assert!(o.css_modules);
    let b = bundle_options(true, -1, 10, -1, false);
    assert_eq!((b.scope_id, b.filename, b.scoped), (None, None, false));
    assert_eq!(b.targets.expect("targets").firefox, Some(10));
}

#[test]
fn exports_are_nil_when_absent_or_empty() {
    assert!(matches!(encode_exports(&None), Term::Nil));
    assert!(matches!(encode_exports(&Some(vec![])), Term::Nil));
    let e = encode_exports(&Some(vec![("foo".to_string(), "_foo_x1".to_string())]));
    assert!(matches!(&e, Term::Dict(k, v) if matches!(k.as_slice(), [Term::Str(a)] if a == "foo") && matches!(v.as_slice(), [Term::Str(b)] if b == "_foo_x1")));
}

#[test]
fn compile_and_bundle_answers_have_their_keys() {
    let out = CssOutput {
        code: "a{}".to_string(),
        css_vars: vec!["c".to_string()],
        errors: vec![],
        warnings: vec!["w".to_string()],
        exports: None,
    };
    let t = css_answer(&out);
    let m = ok_value(&t);
    assert_eq!(keys(m), vec![Atom::Code, Atom::CssVars, Atom::Errors, Atom::Warnings, Atom::Exports]);
    assert_eq!(text(get(m, Atom::Code)), "a{}");
    let t = bundle_answer(&out);
    let m = ok_value(&t);
    assert_eq!(keys(m), vec![Atom::Code, Atom::Errors, Atom::Warnings, Atom::Exports]);
}

#[test]
fn compile_css_minifies() {
    let t = compile_css("a { color: red; }", true, false, "", "", -1, -1, -1, false);
    let m = ok_value(&t);
    assert_eq!(text(get(m, Atom::Code)), "a{color:red}");
    assert!(matches!(get(m, Atom::Errors), Term::List(v) if v.is_empty()));
    assert!(matches!(get(m, Atom::Exports), Term::Nil));
}

#[test]
fn compile_css_reports_v_bind_variables() {
    let t = compile_css(".a { color: v-bind(color); }", false, false, "", "", -1, -1, -1, false);
    let m = ok_value(&t);
    match get(m, Atom::CssVars) {
        Term::List(v) => assert!(v.iter().any(|x| matches!(x, Term::Str(s) if s == "color")), "{:?}", v),
        other => panic!("{:?}", other),
    }
    assert!(!text(get(m, Atom::Code)).contains("v-bind("));
}

#[test]
fn compile_css_with_modules_exports_class_names() {
    let t = compile_css(".foo { color: red; }", false, false, "", "x.module.css", -1, -1, -1, true);
    let m = ok_value(&t);
    match get(m, Atom::Exports) {
        Term::Dict(ks, vs) => {
            assert!(ks.iter().any(|k| matches!(k, Term::Str(s) if s == "foo")), "{:?}", ks);
            assert_eq!(ks.len(), vs.len());
        }
        other => panic!("{:?}", other),
    }
}
