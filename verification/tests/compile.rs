use vize_ex_nif::compile::{
    code_shape, compile_ssr, compile_template, compile_vapor, lint, lint_answer, messages_answer,
    ssr_answer, vapor_answer, CodeShape,
};
use vize_ex_nif::term::{Atom, Term};

fn tag_of(t: &Term) -> (Atom, &Term) {
    match t {
        Term::Tuple(v) if v.len() == 2 => match &v[0] {
            Term::Atom(a) => (*a, &v[1]),
            other => panic!("{:?}", other),
        },
        other => panic!("not a tagged tuple: {:?}", other),
    }
}

fn ok_value(t: &Term) -> &Term {
    let (a, v) = tag_of(t);
    assert_eq!(a, Atom::OkTag, "{:?}", t);
    v
}

fn get<'a>(t: &'a Term, key: Atom) -> &'a Term {
    match t {
        Term::Dict(ks, vs) => {
            let i = ks.iter().position(|k| matches!(k, Term::Atom(a) if *a == key)).expect("key");
            &vs[i]
        }
        other => panic!("not a map: {:?}", other),
    }
}

fn text(t: &Term) -> &str {
    match t {
        Term::Str(s) => s.as_str(),
        other => panic!("not a string: {:?}", other),
    }
}

fn strs(t: &Term) -> Vec<String> {
    match t {
        Term::List(v) => v.iter().map(|x| text(x).to_string()).collect(),
        other => panic!("not a list: {:?}", other),
    }
}

#[test]
fn only_module_mode_gives_an_es_module() {
    assert!(matches!(code_shape("module"), CodeShape::Module));
    assert!(matches!(code_shape("function"), CodeShape::Function));
    assert!(matches!(code_shape(""), CodeShape::Function));
    assert!(matches!(code_shape("Module"), CodeShape::Function));
}

#[test]
fn answers_with_messages_are_errors() {
    let t = messages_answer(&vec!["a".to_string(), "b".to_string()]);
    let (a, v) = tag_of(&t);
    assert_eq!(a, Atom::ErrorTag);
    assert_eq!(strs(v), vec!["a".to_string(), "b".to_string()]);
    let t = ssr_answer(&vec!["bad".to_string()], &"code".to_string(), &"pre".to_string());
    assert_eq!(tag_of(&t).0, Atom::ErrorTag);
    let t = ssr_answer(&vec![], &"code".to_string(), &"pre".to_string());
    assert_eq!(text(get(ok_value(&t), Atom::Preamble)), "pre");
    let t = vapor_answer(&"c".to_string(), &vec!["<p></p>".to_string()], &vec![]);
    assert_eq!(strs(get(ok_value(&t), Atom::Templates)), vec!["<p></p>".to_string()]);
}

#[test]
fn lint_answer_lists_message_and_rule() {
    let t = lint_answer(&vec![("Missing alt".to_string(), "vue/require-alt".to_string())]);
    match ok_value(&t) {
        Term::List(v) => {
            assert_eq!(v.len(), 1);
            assert_eq!(text(get(&v[0], Atom::Message)), "Missing alt");
            assert_eq!(text(get(&v[0], Atom::Name)), "vue/require-alt");
        }
        other => panic!("{:?}", other),
    }
}

#[test]
fn ssr_compile_pushes_the_markup() {
    let t = compile_ssr("<div>{{ msg }}</div>");
    let m = ok_value(&t);
    let code = text(get(m, Atom::Code));
    assert!(code.contains("_push("), "{code}");
    assert!(code.contains("msg"), "{code}");
}

#[test]
fn ssr_compile_of_an_unclosed_element_is_an_error() {
    let t = compile_ssr("<div>");
    let (a, v) = tag_of(&t);
    assert_eq!(a, Atom::ErrorTag);
    assert_eq!(strs(v), vec!["Element is missing end tag.".to_string()]);
}

#[test]
fn vapor_compile_gives_code_and_templates() {
    let t = compile_vapor("<div>{{ msg }}</div>", false);
    let m = ok_value(&t);
    assert!(text(get(m, Atom::Code)).contains("setText"));
    assert!(!strs(get(m, Atom::Templates)).is_empty());
    let t = compile_vapor("<div>", false);
    assert_eq!(tag_of(&t).0, Atom::ErrorTag);
}

#[test]
fn template_compile_lists_helpers_and_follows_the_mode() {
    let t = compile_template("<div v-if=\"show\">{{ msg }}</div>", "module", false);
    let m = ok_value(&t);
    assert!(text(get(m, Atom::Code)).contains("export function render"));
    assert!(strs(get(m, Atom::Helpers)).contains(&"toDisplayString".to_string()));
    let t = compile_template("<div v-if=\"show\">{{ msg }}</div>", "function", false);
    let m = ok_value(&t);
    assert!(!text(get(m, Atom::Code)).contains("export"));
}

#[test]
fn template_compile_of_an_unclosed_element_is_an_error() {
    let t = compile_template("<div>", "function", false);
    let (a, v) = tag_of(&t);
    assert_eq!(a, Atom::ErrorTag);
    assert_eq!(strs(v), vec!["Element is missing end tag.".to_string()]);
}

#[test]
fn lint_answers_with_a_list_of_diagnostics() {
    let t = lint("<template><img></template>", "App.vue");
    match ok_value(&t) {
        Term::List(v) => {
            for d in v {
                let _ = text(get(d, Atom::Message));
                let _ = text(get(d, Atom::Name));
            }
        }
        other => panic!("{:?}", other),
    }
}
