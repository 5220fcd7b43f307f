//! Template compiles (render function, SSR, Vapor) and linting: the calls
//! into vize, and the answers built from what they give back.
use vstd::prelude::*;

use crate::css::texts;
use crate::encode::{dict, dict_v};
use crate::term::{
    group_views, lemma_views, list, push_term, string_list, string_term, strs_v, tagged, tagged_v,
    views, Atom, Term, TermV,
};
use crate::text::{chars_eq, chars_of};
use vize_atelier_core::{CodegenMode, CodegenOptions, TransformOptions};
use vize_carton::Bump;
use vize_patina::Linter;

verus! {

/// vize's arena allocator (bumpalo's `Bump`), carried through unopened.
#[verifier::external_type_specification]
#[verifier::external_body]
pub struct ExBump<const MIN_ALIGN: usize>(Bump<MIN_ALIGN>);

/// vize's linter, carried through unopened.
#[verifier::external_type_specification]
#[verifier::external_body]
pub struct ExLinter(Linter);

/// Each text as a string term.
pub open spec fn chars_v(s: Seq<Seq<char>>) -> Seq<TermV> {
    s.map_values(|c: Seq<char>| TermV::Str(c))
}

pub proof fn lemma_strs_v(v: Seq<String>)
    ensures
        strs_v(v) == chars_v(texts(v)),
{
    assert(strs_v(v) =~= chars_v(texts(v)));
}

/// `{:error, messages}`.
pub open spec fn messages_v(msgs: Seq<Seq<char>>) -> TermV {
    tagged_v(Atom::ErrorTag, TermV::List(chars_v(msgs)))
}

/// `{:error, messages}` (see [`messages_v`]).
pub fn messages_answer(msgs: &Vec<String>) -> (r: Term)
    ensures
        r@ == messages_v(texts(msgs@)),
{
    proof {
        lemma_strs_v(msgs@);
    }
    tagged(Atom::ErrorTag, string_list(msgs))
}

/// `%{k0: v0, k1: v1}` of two strings.
pub open spec fn pair_map_v(k0: Atom, v0: Seq<char>, k1: Atom, v1: Seq<char>) -> TermV {
    dict_v(seq![k0, k1], seq![TermV::Str(v0), TermV::Str(v1)])
}

fn pair_map(k0: Atom, v0: &String, k1: Atom, v1: &String) -> (r: Term)
    ensures
        r@ == pair_map_v(k0, v0@, k1, v1@),
{
    let vals = vec![string_term(v0), string_term(v1)];
    let ghost vv = vals@;
    proof {
        lemma_views(vv);
    }
    let r = dict(vec![k0, k1], vals);
    assert(views(vv) =~= seq![TermV::Str(v0@), TermV::Str(v1@)]);
    r
}

/// A fresh arena for a template's syntax tree (`Bump::new`).
#[verifier::external_body]
fn new_arena() -> Bump {
    Bump::new()
}

// ── SSR ──

/// The parse error messages, the code and the preamble that vize's
/// `compile_ssr` gives for a template.
pub uninterp spec fn ssr_compiled(source: Seq<char>) -> (Seq<Seq<char>>, Seq<char>, Seq<char>);

/// Calls vize's `compile_ssr`: its error messages, code and preamble are a
/// function of the template ([`ssr_compiled`]).
#[verifier::external_body]
fn run_compile_ssr<'a>(arena: &'a Bump, source: &'a str) -> (r: (Vec<String>, String, String))
    ensures
        (texts(r.0@), r.1@, r.2@) == ssr_compiled(source@),
{
    let (_root, errors, out) = vize_atelier_ssr::compile_ssr(arena, source);
    (errors.iter().map(|e| e.message.to_string()).collect(), out.code.into(), out.preamble.into())
}

/// The answer about an SSR compile: `{:error, messages}` when the template
/// has errors, `{:ok, %{code, preamble}}` otherwise.
pub open spec fn ssr_answer_v(errors: Seq<Seq<char>>, code: Seq<char>, preamble: Seq<char>) -> TermV {
    if errors.len() > 0 {
        messages_v(errors)
    } else {
        tagged_v(Atom::OkTag, pair_map_v(Atom::Code, code, Atom::Preamble, preamble))
    }
}

/// The answer about an SSR compile (see [`ssr_answer_v`]).
pub fn ssr_answer(errors: &Vec<String>, code: &String, preamble: &String) -> (r: Term)
    ensures
        r@ == ssr_answer_v(texts(errors@), code@, preamble@),
{
    if errors.len() > 0 {
        messages_answer(errors)
    } else {
        tagged(Atom::OkTag, pair_map(Atom::Code, code, Atom::Preamble, preamble))
    }
}

/// Compiles a template for server-side rendering.
pub fn compile_ssr(source: &str) -> (r: Term)
    ensures
        r@ == ssr_answer_v(ssr_compiled(source@).0, ssr_compiled(source@).1, ssr_compiled(source@).2),
{
    let arena = new_arena();
    let (errors, code, preamble) = run_compile_ssr(&arena, source);
    ssr_answer(&errors, &code, &preamble)
}

// ── Vapor ──

/// The code, the static templates and the error messages that vize's
/// `compile_vapor` gives for a template.
pub uninterp spec fn vapor_compiled(source: Seq<char>, ssr: bool) -> (
    Seq<char>,
    Seq<Seq<char>>,
    Seq<Seq<char>>,
);

/// Calls vize's `compile_vapor`: its code, templates and error messages are a
/// function of the template and the SSR flag ([`vapor_compiled`]).
#[verifier::external_body]
fn run_compile_vapor<'a>(arena: &'a Bump, source: &'a str, ssr: bool) -> (r: (String, Vec<String>, Vec<String>))
    ensures
        (r.0@, texts(r.1@), texts(r.2@)) == vapor_compiled(source@, ssr),
{
    let out = vize_atelier_vapor::compile_vapor(arena, source, vize_atelier_vapor::VaporCompilerOptions { ssr, ..Default::default() });
    let strings = |v: Vec<vize_carton::String>| v.into_iter().map(Into::into).collect();
    (out.code.into(), strings(out.templates), strings(out.error_messages))
}

/// The answer about a Vapor compile: `{:error, messages}` when there are
/// error messages, `{:ok, %{code, templates}}` otherwise.
pub open spec fn vapor_answer_v(code: Seq<char>, templates: Seq<Seq<char>>, errors: Seq<Seq<char>>) -> TermV {
    if errors.len() > 0 {
        messages_v(errors)
    } else {
        tagged_v(
            Atom::OkTag,
            dict_v(
                seq![Atom::Code, Atom::Templates],
                seq![TermV::Str(code), TermV::List(chars_v(templates))],
            ),
        )
    }
}

/// The answer about a Vapor compile (see [`vapor_answer_v`]).
pub fn vapor_answer(code: &String, templates: &Vec<String>, errors: &Vec<String>) -> (r: Term)
    ensures
        r@ == vapor_answer_v(code@, texts(templates@), texts(errors@)),
{
    if errors.len() > 0 {
        messages_answer(errors)
    } else {
        proof {
            lemma_strs_v(templates@);
        }
        let vals = vec![string_term(code), string_list(templates)];
        let ghost vv = vals@;
        proof {
            lemma_views(vv);
        }
        let m = dict(vec![Atom::Code, Atom::Templates], vals);
        assert(views(vv) =~= seq![TermV::Str(code@), TermV::List(chars_v(texts(templates@)))]);
        tagged(Atom::OkTag, m)
    }
}

/// Compiles a template in Vapor mode.
pub fn compile_vapor(source: &str, ssr: bool) -> (r: Term)
    ensures
        r@ == vapor_answer_v(
            vapor_compiled(source@, ssr).0,
            vapor_compiled(source@, ssr).1,
            vapor_compiled(source@, ssr).2,
        ),
{
    let arena = new_arena();
    let (code, templates, errors) = run_compile_vapor(&arena, source, ssr);
    vapor_answer(&code, &templates, &errors)
}

// ── Render function ──

/// The error messages of parsing a template with vize's `parse`.
pub uninterp spec fn template_errors(source: Seq<char>) -> Seq<Seq<char>>;

/// The code, preamble and runtime helper names that vize gives for a
/// template that parses, transformed with identifier prefixing as given and
/// generated as an ES module or as a function, in SSR mode or not.
pub uninterp spec fn template_compiled(source: Seq<char>, prefix_identifiers: bool, module: bool, ssr: bool) -> (
    Seq<char>,
    Seq<char>,
    Seq<Seq<char>>,
);

/// How generated code is shaped: an ES module or a function.
pub enum CodeShape {
    Module,
    Function,
}

/// Calls vize's `parse`; when it reports errors, gives their messages
/// ([`template_errors`]). Otherwise calls `transform` (identifier prefixing
/// and SSR as given) and `generate` (the shape as its mode, SSR as given),
/// and gives the code, the preamble and the names of the root's runtime
/// helpers ([`template_compiled`]).
#[verifier::external_body]
fn run_compile_template(source: &str, prefix_identifiers: bool, shape: CodeShape, ssr: bool) -> (r: Result<(String, String, Vec<String>), Vec<String>>)
    ensures
        (r is Err) == (template_errors(source@).len() > 0),
        r matches Err(m) ==> texts(m@) == template_errors(source@),
        r matches Ok(t) ==> (t.0@, t.1@, texts(t.2@)) == template_compiled(source@, prefix_identifiers, shape is Module, ssr),
{
    let arena = Bump::new();
    let (mut root, errors) = vize_atelier_core::parse(&arena, source);
    if !errors.is_empty() { return Err(errors.iter().map(|e| e.message.to_string()).collect()); }
    vize_atelier_core::transform(&arena, &mut root, TransformOptions { prefix_identifiers, ssr, ..Default::default() }, None);
    let mode = match shape { CodeShape::Module => CodegenMode::Module, CodeShape::Function => CodegenMode::Function };
    let out = vize_atelier_core::generate(&root, CodegenOptions { mode, ssr, ..Default::default() });
    Ok((out.code.into(), out.preamble.into(), root.helpers.iter().map(|h| h.name().to_string()).collect()))
}

/// `{:ok, %{code, preamble, helpers}}`.
pub open spec fn template_answer_v(code: Seq<char>, preamble: Seq<char>, helpers: Seq<Seq<char>>) -> TermV {
    tagged_v(
        Atom::OkTag,
        dict_v(
            seq![Atom::Code, Atom::Preamble, Atom::Helpers],
            seq![TermV::Str(code), TermV::Str(preamble), TermV::List(chars_v(helpers))],
        ),
    )
}

/// `{:ok, %{code, preamble, helpers}}` (see [`template_answer_v`]).
pub fn template_answer(code: &String, preamble: &String, helpers: &Vec<String>) -> (r: Term)
    ensures
        r@ == template_answer_v(code@, preamble@, texts(helpers@)),
{
    proof {
        lemma_strs_v(helpers@);
    }
    let vals = vec![string_term(code), string_term(preamble), string_list(helpers)];
    let ghost vv = vals@;
    proof {
        lemma_views(vv);
    }
    let m = dict(vec![Atom::Code, Atom::Preamble, Atom::Helpers], vals);
    assert(views(vv) =~= seq![
        TermV::Str(code@),
        TermV::Str(preamble@),
        TermV::List(chars_v(texts(helpers@))),
    ]);
    tagged(Atom::OkTag, m)
}

/// Whether a mode asks for an ES module.
pub open spec fn is_module(mode: Seq<char>) -> bool {
    mode == "module"@
}

/// The shape of the code for a mode: an ES module for `"module"`, a
/// function for any other mode.
pub fn code_shape(mode: &str) -> (r: CodeShape)
    ensures
        (r is Module) == is_module(mode@),
{
    let module = chars_of("module");
    if chars_eq(&chars_of(mode), &module) {
        CodeShape::Module
    } else {
        CodeShape::Function
    }
}

/// Compiles a template to a render function: `{:error, messages}` when it
/// does not parse; otherwise it is transformed with identifiers prefixed
/// exactly in mode `"module"`, and generated as an ES module in mode
/// `"module"` and as a function in any other mode, with `ssr` handed to both.
pub fn compile_template(source: &str, mode: &str, ssr: bool) -> (r: Term)
    ensures
        template_errors(source@).len() > 0 ==> r@ == messages_v(template_errors(source@)),
        template_errors(source@).len() == 0 ==> r@ == template_answer_v(
            template_compiled(source@, is_module(mode@), is_module(mode@), ssr).0,
            template_compiled(source@, is_module(mode@), is_module(mode@), ssr).1,
            template_compiled(source@, is_module(mode@), is_module(mode@), ssr).2,
        ),
{
    let shape = code_shape(mode);
    let module_mode = match shape {
        CodeShape::Module => true,
        CodeShape::Function => false,
    };
    match run_compile_template(source, module_mode, shape, ssr) {
        Ok((code, preamble, helpers)) => template_answer(&code, &preamble, &helpers),
        Err(errors) => messages_answer(&errors),
    }
}

// ── Lint ──

/// A linter with the default rules (`Linter::default`).
#[verifier::external_body]
fn default_linter() -> Linter {
    Linter::default()
}

/// Calls the linter's `lint_sfc`, giving the message and rule name of each
/// diagnostic. Nothing is claimed of them: what the linter reports may also
/// rest on type information outside the source.
#[verifier::external_body]
fn run_lint(linter: &Linter, source: &str, filename: &str) -> Vec<(String, String)> {
    let out = linter.lint_sfc(source, filename);
    out.diagnostics.iter().map(|d| (d.message.to_string(), d.rule_name.to_string())).collect()
}

/// `%{message, name}` for each diagnostic.
pub open spec fn diagnostics_v(d: Seq<(String, String)>) -> Seq<TermV> {
    d.map_values(|p: (String, String)| pair_map_v(Atom::Message, p.0@, Atom::Name, p.1@))
}

/// `{:ok, diagnostics}`.
pub open spec fn lint_answer_v(d: Seq<(String, String)>) -> TermV {
    tagged_v(Atom::OkTag, TermV::List(diagnostics_v(d)))
}

/// `{:ok, diagnostics}` (see [`lint_answer_v`]).
pub fn lint_answer(d: &Vec<(String, String)>) -> (r: Term)
    ensures
        r@ == lint_answer_v(d@),
{
    broadcast use group_views;

    let mut out: Vec<Term> = Vec::new();
    let mut i: usize = 0;
    while i < d.len()
        invariant
            i <= d@.len(),
            views(out@) == diagnostics_v(d@.take(i as int)),
        decreases d@.len() - i,
    {
        push_term(&mut out, pair_map(Atom::Message, &d[i].0, Atom::Name, &d[i].1));
        i = i + 1;
        assert(diagnostics_v(d@.take(i as int)) =~= diagnostics_v(d@.take(i - 1)).push(
            pair_map_v(Atom::Message, d@[i - 1].0@, Atom::Name, d@[i - 1].1@),
        ));
    }
    assert(d@.take(d@.len() as int) =~= d@);
    tagged(Atom::OkTag, list(out))
}

/// Lints a single-file component; the answer is `{:ok, diagnostics}` for
/// whatever the linter reports.
pub fn lint(source: &str, filename: &str) -> (r: Term)
    ensures
        exists|d: Seq<(String, String)>| r@ == #[trigger] lint_answer_v(d),
{
    let linter = default_linter();
    let d = run_lint(&linter, source, filename);
    lint_answer(&d)
}

} // verus!
