//! Style sheets: the options a compile or a bundle runs with, and the answer
//! built from what LightningCSS (through vize) gives back.
use vstd::prelude::*;

use crate::encode::{dict, dict_v};
use crate::term::{
    group_views, lemma_views, push_term, string_list, string_term, strs_v, tagged, tagged_v,
    views, Atom, Term, TermV,
};
use vize_atelier_sfc::{
    compile_css as vize_compile_css, CssCompileOptions as VizeCssOptions,
    CssTargets as VizeCssTargets,
};

verus! {

/// Browser versions to compile for.
#[derive(Clone, Copy)]
pub struct CssTargets {
    pub chrome: Option<u32>,
    pub firefox: Option<u32>,
    pub safari: Option<u32>,
}

/// The options of a style sheet compile or bundle; source maps and custom
/// media queries stay off.
pub struct CssOptions {
    pub scope_id: Option<String>,
    pub scoped: bool,
    pub minify: bool,
    pub targets: Option<CssTargets>,
    pub filename: Option<String>,
    pub css_modules: bool,
}

/// The options as plain values.
pub struct CssOptionsV {
    pub scope_id: Option<Seq<char>>,
    pub scoped: bool,
    pub minify: bool,
    pub targets: Option<CssTargets>,
    pub filename: Option<Seq<char>>,
    pub css_modules: bool,
}

/// The characters of an optional string.
pub open spec fn opt_chars(o: Option<String>) -> Option<Seq<char>> {
    match o {
        Some(s) => Some(s@),
        None => None,
    }
}

impl View for CssOptions {
    type V = CssOptionsV;

    open spec fn view(&self) -> CssOptionsV {
        CssOptionsV {
            scope_id: opt_chars(self.scope_id),
            scoped: self.scoped,
            minify: self.minify,
            targets: self.targets,
            filename: opt_chars(self.filename),
            css_modules: self.css_modules,
        }
    }
}

/// A browser version given as a signed number: none when negative.
pub open spec fn version(v: i64) -> Option<u32> {
    if v >= 0 {
        Some(v as u32)
    } else {
        None
    }
}

/// The targets for the given versions: none when every version is negative.
pub open spec fn targets_for(chrome: i64, firefox: i64, safari: i64) -> Option<CssTargets> {
    if chrome >= 0 || firefox >= 0 || safari >= 0 {
        Some(
            CssTargets {
                chrome: version(chrome),
                firefox: version(firefox),
                safari: version(safari),
            },
        )
    } else {
        None
    }
}

fn version_of(v: i64) -> (r: Option<u32>)
    ensures
        r == version(v),
{
    if v >= 0 {
        Some(v as u32)
    } else {
        None
    }
}

/// The targets for the given versions (see [`targets_for`]).
pub fn css_targets(chrome: i64, firefox: i64, safari: i64) -> (r: Option<CssTargets>)
    ensures
        r == targets_for(chrome, firefox, safari),
{
    if chrome >= 0 || firefox >= 0 || safari >= 0 {
        Some(
            CssTargets {
                chrome: version_of(chrome),
                firefox: version_of(firefox),
                safari: version_of(safari),
            },
        )
    } else {
        None
    }
}

/// A string option: none when empty.
pub open spec fn given(s: Seq<char>) -> Option<Seq<char>> {
    if s.len() == 0 {
        None
    } else {
        Some(s)
    }
}

/// A string option: none when empty (see [`given`]).
pub fn given_string(s: &str) -> (r: Option<String>)
    ensures
        opt_chars(r) == given(s@),
{
    if s.is_empty() {
        None
    } else {
        Some(s.to_owned())
    }
}

/// The options of a compile: empty scope ids and file names are left out.
pub open spec fn compile_options_v(
    minify: bool,
    scoped: bool,
    scope_id: Seq<char>,
    filename: Seq<char>,
    chrome: i64,
    firefox: i64,
    safari: i64,
    css_modules: bool,
) -> CssOptionsV {
    CssOptionsV {
        scope_id: given(scope_id),
        scoped,
        minify,
        targets: targets_for(chrome, firefox, safari),
        filename: given(filename),
        css_modules,
    }
}

/// The options of a compile (see [`compile_options_v`]).
pub fn compile_options(
    minify: bool,
    scoped: bool,
    scope_id: &str,
    filename: &str,
    chrome: i64,
    firefox: i64,
    safari: i64,
    css_modules: bool,
) -> (r: CssOptions)
    ensures
        r@ == compile_options_v(
            minify,
            scoped,
            scope_id@,
            filename@,
            chrome,
            firefox,
            safari,
            css_modules,
        ),
{
    CssOptions {
        scope_id: given_string(scope_id),
        scoped,
        minify,
        targets: css_targets(chrome, firefox, safari),
        filename: given_string(filename),
        css_modules,
    }
}

/// The options of a bundle: everything but minifying, targets and CSS
/// modules is left at its default.
pub open spec fn bundle_options_v(
    minify: bool,
    chrome: i64,
    firefox: i64,
    safari: i64,
    css_modules: bool,
) -> CssOptionsV {
    CssOptionsV {
        scope_id: None,
        scoped: false,
        minify,
        targets: targets_for(chrome, firefox, safari),
        filename: None,
        css_modules,
    }
}

/// The options of a bundle (see [`bundle_options_v`]).
pub fn bundle_options(minify: bool, chrome: i64, firefox: i64, safari: i64, css_modules: bool) -> (r:
    CssOptions)
    ensures
        r@ == bundle_options_v(minify, chrome, firefox, safari, css_modules),
{
    CssOptions {
        scope_id: None,
        scoped: false,
        minify,
        targets: css_targets(chrome, firefox, safari),
        filename: None,
        css_modules,
    }
}

/// What a compile or a bundle gives back; `exports` pairs each original CSS
/// module name with its compiled name.
pub struct CssOutput {
    pub code: String,
    pub css_vars: Vec<String>,
    pub errors: Vec<String>,
    pub warnings: Vec<String>,
    pub exports: Option<Vec<(String, String)>>,
}

/// The characters of each string.
pub open spec fn texts(v: Seq<String>) -> Seq<Seq<char>> {
    v.map_values(|s: String| s@)
}

/// The code, CSS variables, errors, warnings and exports (each original
/// CSS module name to its compiled name) that vize's `compile_css` gives for
/// a source and options (scope id, scoped, minify, targets, file name, CSS
/// modules).
pub uninterp spec fn css_compiled(
    source: Seq<char>,
    scope_id: Option<Seq<char>>,
    scoped: bool,
    minify: bool,
    targets: Option<CssTargets>,
    filename: Option<Seq<char>>,
    css_modules: bool,
) -> (
    Seq<char>,
    Seq<Seq<char>>,
    Seq<Seq<char>>,
    Seq<Seq<char>>,
    Option<Map<Seq<char>, Seq<char>>>,
);

/// [`css_compiled`] for a source and options.
pub open spec fn compiled_with(source: Seq<char>, o: CssOptionsV) -> (
    Seq<char>,
    Seq<Seq<char>>,
    Seq<Seq<char>>,
    Seq<Seq<char>>,
    Option<Map<Seq<char>, Seq<char>>>,
) {
    css_compiled(source, o.scope_id, o.scoped, o.minify, o.targets, o.filename, o.css_modules)
}

/// The named part of an output.
pub open spec fn output_parts(out: CssOutput) -> (
    Seq<char>,
    Seq<Seq<char>>,
    Seq<Seq<char>>,
    Seq<Seq<char>>,
    Option<Map<Seq<char>, Seq<char>>>,
) {
    (out.code@, texts(out.css_vars@), texts(out.errors@), texts(out.warnings@), exports_map(out.exports))
}

/// The exports as a map from original to compiled name.
pub open spec fn pairs_map(v: Seq<(String, String)>) -> Map<Seq<char>, Seq<char>>
    decreases v.len(),
{
    if v.len() == 0 {
        Map::empty()
    } else {
        pairs_map(v.drop_last()).insert(v.last().0@, v.last().1@)
    }
}

/// The exports as a map, when there are any.
pub open spec fn exports_map(e: Option<Vec<(String, String)>>) -> Option<Map<Seq<char>, Seq<char>>> {
    match e {
        Some(v) => Some(pairs_map(v@)),
        None => None,
    }
}

/// No original name is exported twice.
pub open spec fn exports_distinct(e: Option<Vec<(String, String)>>) -> bool {
    e matches Some(v) ==> forall|i: int, j: int|
        0 <= i < j < v@.len() ==> #[trigger] v@[i].0@ != #[trigger] v@[j].0@
}

/// Calls vize's `compile_css` (source maps and custom media off), giving its
/// code, CSS variables, errors, warnings and exports; they are a function of
/// the arguments ([`css_compiled`]). The exports come from a hash map, each
/// name once, in the order the map is walked: of the order nothing is
/// claimed, only of the map.
#[verifier::external_body]
fn run_compile_css(
    source: &str,
    scope_id: Option<&str>,
    scoped: bool,
    minify: bool,
    targets: Option<CssTargets>,
    filename: Option<&str>,
    css_modules: bool,
) -> (r: (String, Vec<String>, Vec<String>, Vec<String>, Option<Vec<(String, String)>>))
    ensures
        (r.0@, texts(r.1@), texts(r.2@), texts(r.3@), exports_map(r.4)) == css_compiled(
            source@,
            opt_str(scope_id),
            scoped,
            minify,
            targets,
            opt_str(filename),
            css_modules,
        ),
        exports_distinct(r.4),
{
    let targets = targets.map(|t| VizeCssTargets { chrome: t.chrome, firefox: t.firefox, safari: t.safari, ..Default::default() });
    let r = vize_compile_css(source, &VizeCssOptions { scope_id: scope_id.map(Into::into), scoped, minify, targets, filename: filename.map(Into::into), css_modules, ..Default::default() });
    (r.code.into(), r.css_vars.into_iter().map(Into::into).collect(), r.errors.into_iter().map(Into::into).collect(), r.warnings.into_iter().map(Into::into).collect(), r.exports.map(|m| m.into_iter().map(|(k, v)| (k.into(), v.name.into())).collect()))
}

/// The characters of an optional string slice.
pub open spec fn opt_str(o: Option<&str>) -> Option<Seq<char>> {
    match o {
        Some(s) => Some(s@),
        None => None,
    }
}

/// The string slice of an optional string.
pub fn as_opt_str(o: &Option<String>) -> (r: Option<&str>)
    ensures
        opt_str(r) == opt_chars(*o),
{
    match o {
        Some(s) => Some(s.as_str()),
        None => None,
    }
}

/// The exports as a map, or `nil` when there are none.
pub open spec fn exports_v(e: Option<Vec<(String, String)>>) -> TermV {
    match e {
        Some(v) => if v@.len() > 0 {
            TermV::Dict(
                v@.map_values(|p: (String, String)| TermV::Str(p.0@)),
                v@.map_values(|p: (String, String)| TermV::Str(p.1@)),
            )
        } else {
            TermV::Nil
        },
        None => TermV::Nil,
    }
}

/// The exports as a map, or `nil` (see [`exports_v`]).
pub fn encode_exports(e: &Option<Vec<(String, String)>>) -> (r: Term)
    ensures
        r@ == exports_v(*e),
{
    broadcast use group_views;

    match e {
        Some(v) => {
            if v.len() == 0 {
                return Term::Nil;
            }
            let mut ks: Vec<Term> = Vec::new();
            let mut vs: Vec<Term> = Vec::new();
            let mut i: usize = 0;
            while i < v.len()
                invariant
                    i <= v@.len(),
                    views(ks@) == v@.take(i as int).map_values(
                        |p: (String, String)| TermV::Str(p.0@),
                    ),
                    views(vs@) == v@.take(i as int).map_values(
                        |p: (String, String)| TermV::Str(p.1@),
                    ),
                decreases v@.len() - i,
            {
                push_term(&mut ks, string_term(&v[i].0));
                push_term(&mut vs, string_term(&v[i].1));
                i = i + 1;
                assert(v@.take(i as int).map_values(|p: (String, String)| TermV::Str(p.0@))
                    =~= v@.take(i - 1).map_values(|p: (String, String)| TermV::Str(p.0@)).push(
                    TermV::Str(v@[i - 1].0@),
                ));
                assert(v@.take(i as int).map_values(|p: (String, String)| TermV::Str(p.1@))
                    =~= v@.take(i - 1).map_values(|p: (String, String)| TermV::Str(p.1@)).push(
                    TermV::Str(v@[i - 1].1@),
                ));
            }
            assert(v@.take(v@.len() as int) =~= v@);
            Term::Dict(ks, vs)
        },
        None => Term::Nil,
    }
}

/// `{:ok, %{code, css_vars, errors, warnings, exports}}`: the answer about a
/// compiled style sheet.
pub open spec fn css_answer_v(out: CssOutput) -> TermV {
    tagged_v(
        Atom::OkTag,
        dict_v(
            seq![Atom::Code, Atom::CssVars, Atom::Errors, Atom::Warnings, Atom::Exports],
            seq![
                TermV::Str(out.code@),
                TermV::List(strs_v(out.css_vars@)),
                TermV::List(strs_v(out.errors@)),
                TermV::List(strs_v(out.warnings@)),
                exports_v(out.exports),
            ],
        ),
    )
}

/// The answer about a compiled style sheet (see [`css_answer_v`]).
pub fn css_answer(out: &CssOutput) -> (r: Term)
    ensures
        r@ == css_answer_v(*out),
{
    let vals = vec![
        string_term(&out.code),
        string_list(&out.css_vars),
        string_list(&out.errors),
        string_list(&out.warnings),
        encode_exports(&out.exports),
    ];
    let ghost vv = vals@;
    proof {
        lemma_views(vv);
    }
    let m = dict(vec![Atom::Code, Atom::CssVars, Atom::Errors, Atom::Warnings, Atom::Exports], vals);
    assert(views(vv) =~= seq![
        TermV::Str(out.code@),
        TermV::List(strs_v(out.css_vars@)),
        TermV::List(strs_v(out.errors@)),
        TermV::List(strs_v(out.warnings@)),
        exports_v(out.exports),
    ]);
    tagged(Atom::OkTag, m)
}

/// `{:ok, %{code, errors, warnings, exports}}`: the answer about a bundled
/// style sheet.
pub open spec fn bundle_answer_v(out: CssOutput) -> TermV {
    tagged_v(
        Atom::OkTag,
        dict_v(
            seq![Atom::Code, Atom::Errors, Atom::Warnings, Atom::Exports],
            seq![
                TermV::Str(out.code@),
                TermV::List(strs_v(out.errors@)),
                TermV::List(strs_v(out.warnings@)),
                exports_v(out.exports),
            ],
        ),
    )
}

/// The answer about a bundled style sheet (see [`bundle_answer_v`]).
pub fn bundle_answer(out: &CssOutput) -> (r: Term)
    ensures
        r@ == bundle_answer_v(*out),
{
    let vals = vec![
        string_term(&out.code),
        string_list(&out.errors),
        string_list(&out.warnings),
        encode_exports(&out.exports),
    ];
    let ghost vv = vals@;
    proof {
        lemma_views(vv);
    }
    let m = dict(vec![Atom::Code, Atom::Errors, Atom::Warnings, Atom::Exports], vals);
    assert(views(vv) =~= seq![
        TermV::Str(out.code@),
        TermV::List(strs_v(out.errors@)),
        TermV::List(strs_v(out.warnings@)),
        exports_v(out.exports),
    ]);
    tagged(Atom::OkTag, m)
}

/// Compiles a style sheet: the options come from the arguments (see
/// [`compile_options_v`]), and the answer is built from what the compile
/// gives back; only the order of the exports' entries is left open.
pub fn compile_css(
    source: &str,
    minify: bool,
    scoped: bool,
    scope_id: &str,
    filename: &str,
    chrome: i64,
    firefox: i64,
    safari: i64,
    css_modules: bool,
) -> (r: Term)
    ensures
        exists|out: CssOutput|
            output_parts(out) == compiled_with(
                source@,
                compile_options_v(
                    minify,
                    scoped,
                    scope_id@,
                    filename@,
                    chrome,
                    firefox,
                    safari,
                    css_modules,
                ),
            ) && exports_distinct(out.exports) && r@ == #[trigger] css_answer_v(out),
{
    let options = compile_options(
        minify,
        scoped,
        scope_id,
        filename,
        chrome,
        firefox,
        safari,
        css_modules,
    );
    let (code, css_vars, errors, warnings, exports) = run_compile_css(
        source,
        as_opt_str(&options.scope_id),
        options.scoped,
        options.minify,
        options.targets,
        as_opt_str(&options.filename),
        options.css_modules,
    );
    let out = CssOutput { code, css_vars, errors, warnings, exports };
    let r = css_answer(&out);
    assert(output_parts(out) == compiled_with(source@, options@) && exports_distinct(out.exports)
        && r@ == css_answer_v(out));
    r
}

} // verus!
