use vize_ex_nif::sfc::{
    compile_sfc, encode_script_block, parse_answer, parse_sfc, sfc_answer, SfcHashes, SfcOutput, sfc_error_term, sfc_settings, BlockLoc,
    CustomBlock, Descriptor, ScriptBlock, SfcIssue, StyleBlock, TemplateBlock,
};
use vize_ex_nif::term::{Atom, Term};

fn tag_of(t: &Term) -> (Atom, &Term) {
    match t {
        Term::Tuple(v) if v.len() == 2 => match &v[0] {
            Term::Atom(a) => (*a, &v[1]),
            other => panic!("{:?}", other),
        },
        other => panic!("not a tagged tuple: {:?}", other),
    }
}

fn get<'a>(t: &'a Term, key: Atom) -> &'a Term {
    match t {
        Term::Dict(ks, vs) => {
            let i = ks.iter().position(|k| matches!(k, Term::Atom(a) if *a == key)).expect("key");
            &vs[i]
        }
        other => panic!("not a map: {:?}", other),
    }
}

fn keys(t: &Term) -> Vec<Atom> {
    match t {
        Term::Dict(ks, _) => ks.iter().map(|k| match k { Term::Atom(a) => *a, o => panic!("{:?}", o) }).collect(),
        other => panic!("not a map: {:?}", other),
    }
}

fn text(t: &Term) -> &str {
    match t {
        Term::Str(s) => s.as_str(),
        other => panic!("not a string: {:?}", other),
    }
}

fn loc(start: usize, end: usize) -> BlockLoc {
    BlockLoc { start, end, start_line: 1, start_column: 11, end_line: 3, end_column: 1 }
}

const SOURCE: &str = "<template>\n  <button @click=\"count++\">{{ count }}</button>\n</template>\n\n<script setup>\nimport { ref } from 'vue'\nconst count = ref(0)\n</script>\n\n<style scoped>\nbutton { color: blue; }\n</style>\n";

#[test]
fn parsed_blocks_become_maps() {
    let d = Descriptor {
        template: Some(TemplateBlock { content: "<p/>".to_string(), lang: None, loc: loc(10, 14), attrs: vec![] }),
        script: None,
        script_setup: Some(ScriptBlock {
            content: "let a = 1".to_string(),
            lang: Some("ts".to_string()),
            setup: true,
            loc: loc(30, 39),
            attrs: vec![("setup".to_string(), "true".to_string()), ("lang".to_string(), "ts".to_string())],
        }),
        styles: vec![StyleBlock {
            content: "p{}".to_string(),
            lang: None,
            scoped: true,
            module: None,
            loc: loc(50, 53),
            attrs: vec![("scoped".to_string(), "true".to_string())],
        }],
        custom_blocks: vec![CustomBlock { block_type: "i18n".to_string(), content: "{}".to_string(), loc: loc(70, 72), attrs: vec![] }],
    };
    let t = parse_answer(&Ok(d));
    let (a, m) = tag_of(&t);
    assert_eq!(a, Atom::OkTag);
    assert_eq!(keys(m), vec![Atom::Template, Atom::Script, Atom::ScriptSetup, Atom::Styles, Atom::CustomBlocks]);
    assert!(matches!(get(m, Atom::Script), Term::Nil));
    let tpl = get(m, Atom::Template);
    assert_eq!(keys(tpl), vec![Atom::Content, Atom::Lang, Atom::Loc, Atom::Attrs]);
    assert!(matches!(get(tpl, Atom::Lang), Term::Nil));
    assert!(matches!(get(tpl, Atom::Attrs), Term::Dict(k, v) if k.is_empty() && v.is_empty()));
    let l = get(tpl, Atom::Loc);
    assert_eq!(keys(l), vec![Atom::Start, Atom::End, Atom::StartLine, Atom::StartColumn, Atom::EndLine, Atom::EndColumn]);
    assert!(matches!(get(l, Atom::End), Term::Int(14)));
    let setup = get(m, Atom::ScriptSetup);
    assert!(matches!(get(setup, Atom::Setup), Term::Bool(true)));
    assert_eq!(text(get(setup, Atom::Lang)), "ts");
    assert!(matches!(get(setup, Atom::Attrs), Term::Dict(k, _) if k.len() == 2));
    match get(m, Atom::Styles) {
        Term::List(v) => {
            assert_eq!(keys(&v[0]), vec![Atom::Content, Atom::Lang, Atom::Scoped, Atom::Module, Atom::Loc, Atom::Attrs]);
            assert!(matches!(get(&v[0], Atom::Scoped), Term::Bool(true)));
        }
        other => panic!("{:?}", other),
    }
    match get(m, Atom::CustomBlocks) {
        Term::List(v) => assert_eq!(text(get(&v[0], Atom::BlockType)), "i18n"),
        other => panic!("{:?}", other),
    }
}

#[test]
fn parse_failure_is_an_error_with_the_message() {
    let t = parse_answer(&Err("SfcError { message: \"x\" }".to_string()));
    let (a, v) = tag_of(&t);
    assert_eq!(a, Atom::ErrorTag);
    assert_eq!(text(v), "SfcError { message: \"x\" }");
}

#[test]
fn missing_script_is_nil() {
    assert!(matches!(encode_script_block(&None), Term::Nil));
}

#[test]
fn issues_carry_a_code_only_when_there_is_one() {
    let t = sfc_error_term(&SfcIssue { message: "m".to_string(), code: None });
    assert_eq!(keys(&t), vec![Atom::Message]);
    let t = sfc_error_term(&SfcIssue { message: "m".to_string(), code: Some("E1".to_string()) });
    assert_eq!(keys(&t), vec![Atom::Message, Atom::Code]);
    assert_eq!(text(get(&t, Atom::Code)), "E1");
}

#[test]
fn settings_leave_out_empty_names() {
    let s = sfc_settings("", "", true, false);
    assert_eq!((s.filename, s.scope_id, s.vapor, s.ssr), (None, None, true, false));
    let s = sfc_settings("App.vue", "abc12345", false, true);
    assert_eq!((s.filename, s.scope_id), (Some("App.vue".to_string()), Some("abc12345".to_string())));
}

#[test]
fn compile_sfc_gives_code_css_and_hashes() {
    let t = compile_sfc(SOURCE, "App.vue", "", false, false);
    let (a, m) = tag_of(&t);
    assert_eq!(a, Atom::OkTag, "{:?}", t);
    assert_eq!(
        keys(m),
        vec![Atom::Code, Atom::Css, Atom::Errors, Atom::Warnings, Atom::TemplateHash, Atom::StyleHash, Atom::ScriptHash]
    );
    assert!(text(get(m, Atom::Code)).contains("count"));
    assert!(text(get(m, Atom::Css)).contains("color"));
    assert!(matches!(get(m, Atom::Errors), Term::List(v) if v.is_empty()));
    for k in [Atom::TemplateHash, Atom::StyleHash, Atom::ScriptHash] {
        assert!(!text(get(m, k)).is_empty());
    }
}

#[test]
fn hashes_depend_on_the_blocks_only() {
    let a = compile_sfc(SOURCE, "App.vue", "", false, false);
    let b = compile_sfc(SOURCE, "Other.vue", "", false, false);
    let h = |t: &Term, k: Atom| text(get(tag_of(t).1, k)).to_string();
    assert_eq!(h(&a, Atom::TemplateHash), h(&b, Atom::TemplateHash));
    assert_eq!(h(&a, Atom::ScriptHash), h(&b, Atom::ScriptHash));
    let c = compile_sfc("<template><p>x</p></template>", "App.vue", "", false, false);
    let m = tag_of(&c).1;
    assert!(matches!(get(m, Atom::StyleHash), Term::Nil));
    assert!(matches!(get(m, Atom::ScriptHash), Term::Nil));
}

#[test]
fn parse_sfc_gives_the_blocks_of_a_component() {
    let t = parse_sfc(SOURCE);
    let (a, m) = tag_of(&t);
    assert_eq!(a, Atom::OkTag, "{:?}", t);
    assert_eq!(keys(m), vec![Atom::Template, Atom::Script, Atom::ScriptSetup, Atom::Styles, Atom::CustomBlocks]);
    assert!(text(get(get(m, Atom::Template), Atom::Content)).contains("<button"));
    assert!(matches!(get(m, Atom::Script), Term::Nil));
    let setup = get(m, Atom::ScriptSetup);
    assert!(matches!(get(setup, Atom::Setup), Term::Bool(true)));
    assert!(text(get(setup, Atom::Content)).contains("ref(0)"));
    match get(m, Atom::Styles) {
        Term::List(v) => {
            assert_eq!(v.len(), 1);
            assert!(matches!(get(&v[0], Atom::Scoped), Term::Bool(true)));
        }
        other => panic!("{:?}", other),
    }
}

#[test]
fn compile_sfc_gives_the_same_answer_twice() {
    let a = compile_sfc(SOURCE, "App.vue", "", false, false);
    let b = compile_sfc(SOURCE, "App.vue", "", false, false);
    assert_eq!(format!("{:?}", a), format!("{:?}", b));
}

#[test]
fn compile_sfc_scopes_styles_with_the_given_id() {
    let t = compile_sfc(SOURCE, "App.vue", "abc12345", false, false);
    let (a, m) = tag_of(&t);
    assert_eq!(a, Atom::OkTag, "{:?}", t);
    assert!(text(get(m, Atom::Css)).contains("abc12345"), "{:?}", t);
}

#[test]
fn sfc_answer_reports_a_compile_error_or_the_output() {
    let t = sfc_answer(&Err("broken".to_string()));
    let (a, v) = tag_of(&t);
    assert_eq!(a, Atom::ErrorTag);
    assert_eq!(text(v), "broken");
    let out = SfcOutput { code: "x".to_string(), css: None, errors: vec![], warnings: vec![] };
    let h = SfcHashes { template_hash: Some("ab".to_string()), style_hash: None, script_hash: None };
    let t = sfc_answer(&Ok((out, h)));
    let (a, m) = tag_of(&t);
    assert_eq!(a, Atom::OkTag);
    assert_eq!(text(get(m, Atom::Code)), "x");
    assert!(matches!(get(m, Atom::Css), Term::Nil));
    assert_eq!(text(get(m, Atom::TemplateHash)), "ab");
}
