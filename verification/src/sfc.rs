//! Single-file components: the blocks of a parsed component and the answer
//! about them, and the compile of a component with vize.
use vstd::prelude::*;

use crate::css::{as_opt_str, given, given_string, opt_chars, opt_str, pairs_map};
use crate::encode::{dict, dict_v, has_atom, lemma_dict_entry, maps_key, no_repeat};
use crate::term::{
    group_views, lemma_views, list, opt_str_v, opt_string_term, push_term, string_term, tagged,
    tagged_v, views, Atom, Term, TermV,
};
use vize_atelier_sfc::{
    compile_sfc as vize_compile_sfc, parse_sfc as vize_parse_sfc, BlockLocation,
    ScriptCompileOptions, SfcCompileOptions, SfcCompileResult, SfcCustomBlock, SfcParseOptions,
    SfcScriptBlock, SfcStyleBlock, SfcTemplateBlock, TemplateCompileOptions,
};

verus! {

/// vize's block location, carried through unopened.
#[verifier::external_type_specification]
#[verifier::external_body]
pub struct ExBlockLocation(BlockLocation);

/// vize's template block, carried through unopened.
#[verifier::external_type_specification]
#[verifier::external_body]
pub struct ExSfcTemplateBlock<'a>(SfcTemplateBlock<'a>);

/// vize's script block, carried through unopened.
#[verifier::external_type_specification]
#[verifier::external_body]
pub struct ExSfcScriptBlock<'a>(SfcScriptBlock<'a>);

/// vize's style block, carried through unopened.
#[verifier::external_type_specification]
#[verifier::external_body]
pub struct ExSfcStyleBlock<'a>(SfcStyleBlock<'a>);

/// vize's custom block, carried through unopened.
#[verifier::external_type_specification]
#[verifier::external_body]
pub struct ExSfcCustomBlock<'a>(SfcCustomBlock<'a>);

/// vize's output of a compile, carried through unopened.
#[verifier::external_type_specification]
#[verifier::external_body]
pub struct ExSfcCompileResult(SfcCompileResult);

/// Where a block stands in the component's source.
#[derive(Clone, Copy)]
pub struct BlockLoc {
    pub start: usize,
    pub end: usize,
    pub start_line: usize,
    pub start_column: usize,
    pub end_line: usize,
    pub end_column: usize,
}

/// The `<template>` block.
pub struct TemplateBlock {
    pub content: String,
    pub lang: Option<String>,
    pub loc: BlockLoc,
    pub attrs: Vec<(String, String)>,
}

/// A `<script>` or `<script setup>` block.
pub struct ScriptBlock {
    pub content: String,
    pub lang: Option<String>,
    pub setup: bool,
    pub loc: BlockLoc,
    pub attrs: Vec<(String, String)>,
}

/// A `<style>` block.
pub struct StyleBlock {
    pub content: String,
    pub lang: Option<String>,
    pub scoped: bool,
    pub module: Option<String>,
    pub loc: BlockLoc,
    pub attrs: Vec<(String, String)>,
}

/// Any other top-level block.
pub struct CustomBlock {
    pub block_type: String,
    pub content: String,
    pub loc: BlockLoc,
    pub attrs: Vec<(String, String)>,
}

/// The blocks of a parsed component.
pub struct Descriptor {
    pub template: Option<TemplateBlock>,
    pub script: Option<ScriptBlock>,
    pub script_setup: Option<ScriptBlock>,
    pub styles: Vec<StyleBlock>,
    pub custom_blocks: Vec<CustomBlock>,
}

/// `%{start, end, start_line, start_column, end_line, end_column}`.
pub open spec fn loc_v(l: BlockLoc) -> TermV {
    dict_v(
        seq![
            Atom::Start,
            Atom::End,
            Atom::StartLine,
            Atom::StartColumn,
            Atom::EndLine,
            Atom::EndColumn,
        ],
        seq![
            TermV::Int(l.start as int),
            TermV::Int(l.end as int),
            TermV::Int(l.start_line as int),
            TermV::Int(l.start_column as int),
            TermV::Int(l.end_line as int),
            TermV::Int(l.end_column as int),
        ],
    )
}

/// The entries of an encoded block location: each key holds its own field
/// of the location (`:start_line` the start line, `:start_column` the start
/// column, and so on).
pub proof fn lemma_loc_entries(l: BlockLoc)
    ensures
        maps_key(loc_v(l), Atom::Start, TermV::Int(l.start as int)),
        maps_key(loc_v(l), Atom::End, TermV::Int(l.end as int)),
        maps_key(loc_v(l), Atom::StartLine, TermV::Int(l.start_line as int)),
        maps_key(loc_v(l), Atom::StartColumn, TermV::Int(l.start_column as int)),
        maps_key(loc_v(l), Atom::EndLine, TermV::Int(l.end_line as int)),
        maps_key(loc_v(l), Atom::EndColumn, TermV::Int(l.end_column as int)),
{
    let ks = seq![
        Atom::Start,
        Atom::End,
        Atom::StartLine,
        Atom::StartColumn,
        Atom::EndLine,
        Atom::EndColumn,
    ];
    let vs = seq![
        TermV::Int(l.start as int),
        TermV::Int(l.end as int),
        TermV::Int(l.start_line as int),
        TermV::Int(l.start_column as int),
        TermV::Int(l.end_line as int),
        TermV::Int(l.end_column as int),
    ];
    assert(no_repeat(ks)) by {
        reveal_with_fuel(no_repeat, 7);
        reveal_with_fuel(has_atom, 7);
    }
    assert(loc_v(l) == dict_v(ks, vs));
    lemma_dict_entry(ks, vs, 0);
    lemma_dict_entry(ks, vs, 1);
    lemma_dict_entry(ks, vs, 2);
    lemma_dict_entry(ks, vs, 3);
    lemma_dict_entry(ks, vs, 4);
    lemma_dict_entry(ks, vs, 5);
}

/// A block's location (see [`loc_v`]).
pub fn loc_term(l: &BlockLoc) -> (r: Term)
    ensures
        r@ == loc_v(*l),
        maps_key(r@, Atom::Start, TermV::Int(l.start as int)),
        maps_key(r@, Atom::End, TermV::Int(l.end as int)),
        maps_key(r@, Atom::StartLine, TermV::Int(l.start_line as int)),
        maps_key(r@, Atom::StartColumn, TermV::Int(l.start_column as int)),
        maps_key(r@, Atom::EndLine, TermV::Int(l.end_line as int)),
        maps_key(r@, Atom::EndColumn, TermV::Int(l.end_column as int)),
{
    proof {
        lemma_loc_entries(*l);
    }
    let vals = vec![
        Term::Int(l.start),
        Term::Int(l.end),
        Term::Int(l.start_line),
        Term::Int(l.start_column),
        Term::Int(l.end_line),
        Term::Int(l.end_column),
    ];
    let ghost vv = vals@;
    proof {
        lemma_views(vv);
    }
    let r = dict(
        vec![
            Atom::Start,
            Atom::End,
            Atom::StartLine,
            Atom::StartColumn,
            Atom::EndLine,
            Atom::EndColumn,
        ],
        vals,
    );
    assert(views(vv) =~= seq![
        TermV::Int(l.start as int),
        TermV::Int(l.end as int),
        TermV::Int(l.start_line as int),
        TermV::Int(l.start_column as int),
        TermV::Int(l.end_line as int),
        TermV::Int(l.end_column as int),
    ]);
    r
}

/// A block's attributes as a map of strings, in the order given.
pub open spec fn attrs_v(a: Seq<(String, String)>) -> TermV {
    TermV::Dict(
        a.map_values(|p: (String, String)| TermV::Str(p.0@)),
        a.map_values(|p: (String, String)| TermV::Str(p.1@)),
    )
}

/// A block's attributes (see [`attrs_v`]).
pub fn attrs_term(a: &Vec<(String, String)>) -> (r: Term)
    ensures
        r@ == attrs_v(a@),
{
    broadcast use group_views;

    let mut ks: Vec<Term> = Vec::new();
    let mut vs: Vec<Term> = Vec::new();
    let mut i: usize = 0;
    while i < a.len()
        invariant
            i <= a@.len(),
            views(ks@) == a@.take(i as int).map_values(|p: (String, String)| TermV::Str(p.0@)),
            views(vs@) == a@.take(i as int).map_values(|p: (String, String)| TermV::Str(p.1@)),
        decreases a@.len() - i,
    {
        push_term(&mut ks, string_term(&a[i].0));
        push_term(&mut vs, string_term(&a[i].1));
        i = i + 1;
        assert(a@.take(i as int).map_values(|p: (String, String)| TermV::Str(p.0@)) =~= a@.take(
            i - 1,
        ).map_values(|p: (String, String)| TermV::Str(p.0@)).push(TermV::Str(a@[i - 1].0@)));
        assert(a@.take(i as int).map_values(|p: (String, String)| TermV::Str(p.1@)) =~= a@.take(
            i - 1,
        ).map_values(|p: (String, String)| TermV::Str(p.1@)).push(TermV::Str(a@[i - 1].1@)));
    }
    assert(a@.take(a@.len() as int) =~= a@);
    Term::Dict(ks, vs)
}

/// `%{content, lang, loc, attrs}`.
pub open spec fn template_v(t: TemplateBlock) -> TermV {
    dict_v(
        seq![Atom::Content, Atom::Lang, Atom::Loc, Atom::Attrs],
        seq![TermV::Str(t.content@), opt_str_v(t.lang), loc_v(t.loc), attrs_v(t.attrs@)],
    )
}

/// The template block, or `nil` (see [`template_v`]).
pub fn template_term(o: &Option<TemplateBlock>) -> (r: Term)
    ensures
        r@ == match *o {
            Some(t) => template_v(t),
            None => TermV::Nil,
        },
{
    match o {
        Some(t) => {
            let vals = vec![
                string_term(&t.content),
                opt_string_term(&t.lang),
                loc_term(&t.loc),
                attrs_term(&t.attrs),
            ];
            let ghost vv = vals@;
            proof {
                lemma_views(vv);
            }
            let r = dict(vec![Atom::Content, Atom::Lang, Atom::Loc, Atom::Attrs], vals);
            assert(views(vv) =~= seq![
                TermV::Str(t.content@),
                opt_str_v(t.lang),
                loc_v(t.loc),
                attrs_v(t.attrs@),
            ]);
            r
        },
        None => Term::Nil,
    }
}

/// `%{content, lang, setup, loc, attrs}`, or `nil`.
pub open spec fn script_v(o: Option<ScriptBlock>) -> TermV {
    match o {
        Some(s) => dict_v(
            seq![Atom::Content, Atom::Lang, Atom::Setup, Atom::Loc, Atom::Attrs],
            seq![
                TermV::Str(s.content@),
                opt_str_v(s.lang),
                TermV::Bool(s.setup),
                loc_v(s.loc),
                attrs_v(s.attrs@),
            ],
        ),
        None => TermV::Nil,
    }
}

/// A script block, or `nil` (see [`script_v`]).
pub fn encode_script_block(o: &Option<ScriptBlock>) -> (r: Term)
    ensures
        r@ == script_v(*o),
{
    match o {
        Some(s) => {
            let vals = vec![
                string_term(&s.content),
                opt_string_term(&s.lang),
                Term::Bool(s.setup),
                loc_term(&s.loc),
                attrs_term(&s.attrs),
            ];
            let ghost vv = vals@;
            proof {
                lemma_views(vv);
            }
            let r = dict(vec![Atom::Content, Atom::Lang, Atom::Setup, Atom::Loc, Atom::Attrs], vals);
            assert(views(vv) =~= seq![
                TermV::Str(s.content@),
                opt_str_v(s.lang),
                TermV::Bool(s.setup),
                loc_v(s.loc),
                attrs_v(s.attrs@),
            ]);
            r
        },
        None => Term::Nil,
    }
}

/// `%{content, lang, scoped, module, loc, attrs}`.
pub open spec fn style_v(s: StyleBlock) -> TermV {
    dict_v(
        seq![Atom::Content, Atom::Lang, Atom::Scoped, Atom::Module, Atom::Loc, Atom::Attrs],
        seq![
            TermV::Str(s.content@),
            opt_str_v(s.lang),
            TermV::Bool(s.scoped),
            opt_str_v(s.module),
            loc_v(s.loc),
            attrs_v(s.attrs@),
        ],
    )
}

fn style_term(s: &StyleBlock) -> (r: Term)
    ensures
        r@ == style_v(*s),
{
    let vals = vec![
        string_term(&s.content),
        opt_string_term(&s.lang),
        Term::Bool(s.scoped),
        opt_string_term(&s.module),
        loc_term(&s.loc),
        attrs_term(&s.attrs),
    ];
    let ghost vv = vals@;
    proof {
        lemma_views(vv);
    }
    let r = dict(
        vec![Atom::Content, Atom::Lang, Atom::Scoped, Atom::Module, Atom::Loc, Atom::Attrs],
        vals,
    );
    assert(views(vv) =~= seq![
        TermV::Str(s.content@),
        opt_str_v(s.lang),
        TermV::Bool(s.scoped),
        opt_str_v(s.module),
        loc_v(s.loc),
        attrs_v(s.attrs@),
    ]);
    r
}

/// `%{block_type, content, loc, attrs}`.
pub open spec fn custom_v(c: CustomBlock) -> TermV {
    dict_v(
        seq![Atom::BlockType, Atom::Content, Atom::Loc, Atom::Attrs],
        seq![TermV::Str(c.block_type@), TermV::Str(c.content@), loc_v(c.loc), attrs_v(c.attrs@)],
    )
}

fn custom_term(c: &CustomBlock) -> (r: Term)
    ensures
        r@ == custom_v(*c),
{
    let vals = vec![
        string_term(&c.block_type),
        string_term(&c.content),
        loc_term(&c.loc),
        attrs_term(&c.attrs),
    ];
    let ghost vv = vals@;
    proof {
        lemma_views(vv);
    }
    let r = dict(vec![Atom::BlockType, Atom::Content, Atom::Loc, Atom::Attrs], vals);
    assert(views(vv) =~= seq![
        TermV::Str(c.block_type@),
        TermV::Str(c.content@),
        loc_v(c.loc),
        attrs_v(c.attrs@),
    ]);
    r
}

/// `%{template, script, script_setup, styles, custom_blocks}`.
pub open spec fn descriptor_v(d: Descriptor) -> TermV {
    dict_v(
        seq![Atom::Template, Atom::Script, Atom::ScriptSetup, Atom::Styles, Atom::CustomBlocks],
        seq![
            match d.template {
                Some(t) => template_v(t),
                None => TermV::Nil,
            },
            script_v(d.script),
            script_v(d.script_setup),
            TermV::List(d.styles@.map_values(|s: StyleBlock| style_v(s))),
            TermV::List(d.custom_blocks@.map_values(|c: CustomBlock| custom_v(c))),
        ],
    )
}

fn styles_term(v: &Vec<StyleBlock>) -> (r: Term)
    ensures
        r@ == TermV::List(v@.map_values(|s: StyleBlock| style_v(s))),
{
    broadcast use group_views;

    let mut out: Vec<Term> = Vec::new();
    let mut i: usize = 0;
    while i < v.len()
        invariant
            i <= v@.len(),
            views(out@) == v@.take(i as int).map_values(|s: StyleBlock| style_v(s)),
        decreases v@.len() - i,
    {
        push_term(&mut out, style_term(&v[i]));
        i = i + 1;
        assert(v@.take(i as int).map_values(|s: StyleBlock| style_v(s)) =~= v@.take(
            i - 1,
        ).map_values(|s: StyleBlock| style_v(s)).push(style_v(v@[i - 1])));
    }
    assert(v@.take(v@.len() as int) =~= v@);
    list(out)
}

fn customs_term(v: &Vec<CustomBlock>) -> (r: Term)
    ensures
        r@ == TermV::List(v@.map_values(|c: CustomBlock| custom_v(c))),
{
    broadcast use group_views;

    let mut out: Vec<Term> = Vec::new();
    let mut i: usize = 0;
    while i < v.len()
        invariant
            i <= v@.len(),
            views(out@) == v@.take(i as int).map_values(|c: CustomBlock| custom_v(c)),
        decreases v@.len() - i,
    {
        push_term(&mut out, custom_term(&v[i]));
        i = i + 1;
        assert(v@.take(i as int).map_values(|c: CustomBlock| custom_v(c)) =~= v@.take(
            i - 1,
        ).map_values(|c: CustomBlock| custom_v(c)).push(custom_v(v@[i - 1])));
    }
    assert(v@.take(v@.len() as int) =~= v@);
    list(out)
}

/// The blocks of a parsed component (see [`descriptor_v`]).
pub fn descriptor_term(d: &Descriptor) -> (r: Term)
    ensures
        r@ == descriptor_v(*d),
{
    let vals = vec![
        template_term(&d.template),
        encode_script_block(&d.script),
        encode_script_block(&d.script_setup),
        styles_term(&d.styles),
        customs_term(&d.custom_blocks),
    ];
    let ghost vv = vals@;
    proof {
        lemma_views(vv);
    }
    let r = dict(
        vec![Atom::Template, Atom::Script, Atom::ScriptSetup, Atom::Styles, Atom::CustomBlocks],
        vals,
    );
    assert(views(vv) =~= seq![
        match d.template {
            Some(t) => template_v(t),
            None => TermV::Nil,
        },
        script_v(d.script),
        script_v(d.script_setup),
        TermV::List(d.styles@.map_values(|s: StyleBlock| style_v(s))),
        TermV::List(d.custom_blocks@.map_values(|c: CustomBlock| custom_v(c))),
    ]);
    r
}

/// The answer about a parse: `{:ok, blocks}`, or `{:error, message}` with the
/// parser's message.
pub open spec fn parse_answer_v(parsed: Result<Descriptor, String>) -> TermV {
    match parsed {
        Ok(d) => tagged_v(Atom::OkTag, descriptor_v(d)),
        Err(m) => tagged_v(Atom::ErrorTag, TermV::Str(m@)),
    }
}

/// The answer about a parse (see [`parse_answer_v`]).
pub fn parse_answer(parsed: &Result<Descriptor, String>) -> (r: Term)
    ensures
        r@ == parse_answer_v(*parsed),
{
    match parsed {
        Ok(d) => tagged(Atom::OkTag, descriptor_term(d)),
        Err(m) => tagged(Atom::ErrorTag, string_term(m)),
    }
}

/// The location of a block (vize's `BlockLocation`).
#[verifier::external_body]
fn loc_of(l: &BlockLocation) -> BlockLoc {
    BlockLoc { start: l.start, end: l.end, start_line: l.start_line, start_column: l.start_column, end_line: l.end_line, end_column: l.end_column }
}

/// The template block; its attributes in the order vize's map is walked.
#[verifier::external_body]
fn template_of(t: &SfcTemplateBlock) -> TemplateBlock {
    let attrs = t.attrs.iter().map(|(k, v)| (k.to_string(), v.to_string())).collect();
    TemplateBlock { content: t.content.to_string(), lang: t.lang.as_deref().map(String::from), loc: loc_of(&t.loc), attrs }
}

/// A script block; its attributes in the order vize's map is walked.
#[verifier::external_body]
fn script_of(s: &SfcScriptBlock) -> ScriptBlock {
    let attrs = s.attrs.iter().map(|(k, v)| (k.to_string(), v.to_string())).collect();
    ScriptBlock { content: s.content.to_string(), lang: s.lang.as_deref().map(String::from), setup: s.setup, loc: loc_of(&s.loc), attrs }
}

/// A style block; its attributes in the order vize's map is walked.
#[verifier::external_body]
fn style_of(s: &SfcStyleBlock) -> StyleBlock {
    let attrs = s.attrs.iter().map(|(k, v)| (k.to_string(), v.to_string())).collect();
    let module = s.module.as_deref().map(String::from);
    StyleBlock { content: s.content.to_string(), lang: s.lang.as_deref().map(String::from), scoped: s.scoped, module, loc: loc_of(&s.loc), attrs }
}

/// A custom block; its attributes in the order vize's map is walked.
#[verifier::external_body]
fn custom_of(c: &SfcCustomBlock) -> CustomBlock {
    let attrs = c.attrs.iter().map(|(k, v)| (k.to_string(), v.to_string())).collect();
    CustomBlock { block_type: c.block_type.to_string(), content: c.content.to_string(), loc: loc_of(&c.loc), attrs }
}

/// A block's plain values, its attributes as a map. The fields that a kind
/// of block does not have are empty: no type but for a custom block, no
/// `setup` but for a script, no `scoped` or `module` but for a style.
pub struct BlockM {
    pub block_type: Seq<char>,
    pub content: Seq<char>,
    pub lang: Option<Seq<char>>,
    pub setup: bool,
    pub scoped: bool,
    pub module: Option<Seq<char>>,
    pub loc: BlockLoc,
    pub attrs: Map<Seq<char>, Seq<char>>,
}

/// The plain values of a component's blocks, in the order they stand.
pub struct DescriptorM {
    pub template: Option<BlockM>,
    pub script: Option<BlockM>,
    pub script_setup: Option<BlockM>,
    pub styles: Seq<BlockM>,
    pub custom_blocks: Seq<BlockM>,
}

pub open spec fn template_m(t: TemplateBlock) -> BlockM {
    BlockM {
        block_type: Seq::empty(),
        content: t.content@,
        lang: opt_chars(t.lang),
        setup: false,
        scoped: false,
        module: None,
        loc: t.loc,
        attrs: pairs_map(t.attrs@),
    }
}

pub open spec fn script_m(s: ScriptBlock) -> BlockM {
    BlockM {
        block_type: Seq::empty(),
        content: s.content@,
        lang: opt_chars(s.lang),
        setup: s.setup,
        scoped: false,
        module: None,
        loc: s.loc,
        attrs: pairs_map(s.attrs@),
    }
}

pub open spec fn style_m(s: StyleBlock) -> BlockM {
    BlockM {
        block_type: Seq::empty(),
        content: s.content@,
        lang: opt_chars(s.lang),
        setup: false,
        scoped: s.scoped,
        module: opt_chars(s.module),
        loc: s.loc,
        attrs: pairs_map(s.attrs@),
    }
}

pub open spec fn custom_m(c: CustomBlock) -> BlockM {
    BlockM {
        block_type: c.block_type@,
        content: c.content@,
        lang: None,
        setup: false,
        scoped: false,
        module: None,
        loc: c.loc,
        attrs: pairs_map(c.attrs@),
    }
}

/// The plain values of a [`Descriptor`].
pub open spec fn descriptor_m(d: Descriptor) -> DescriptorM {
    DescriptorM {
        template: match d.template {
            Some(t) => Some(template_m(t)),
            None => None,
        },
        script: match d.script {
            Some(t) => Some(script_m(t)),
            None => None,
        },
        script_setup: match d.script_setup {
            Some(t) => Some(script_m(t)),
            None => None,
        },
        styles: d.styles@.map_values(|s: StyleBlock| style_m(s)),
        custom_blocks: d.custom_blocks@.map_values(|c: CustomBlock| custom_m(c)),
    }
}

/// No attribute name occurs twice.
pub open spec fn attrs_distinct(a: Seq<(String, String)>) -> bool {
    forall|i: int, j: int| 0 <= i < j < a.len() ==> #[trigger] a[i].0@ != #[trigger] a[j].0@
}

/// No block of `d` names an attribute twice.
pub open spec fn descriptor_attrs_distinct(d: Descriptor) -> bool {
    &&& d.template matches Some(t) ==> attrs_distinct(t.attrs@)
    &&& d.script matches Some(t) ==> attrs_distinct(t.attrs@)
    &&& d.script_setup matches Some(t) ==> attrs_distinct(t.attrs@)
    &&& forall|i: int| 0 <= i < d.styles@.len() ==> attrs_distinct((#[trigger] d.styles@[i]).attrs@)
    &&& forall|i: int| 0 <= i < d.custom_blocks@.len() ==> attrs_distinct((#[trigger] d.custom_blocks@[i]).attrs@)
}

/// The blocks that vize's `parse_sfc` gives for a source (the file name
/// empty), as plain values.
pub uninterp spec fn sfc_blocks(source: Seq<char>) -> DescriptorM;

/// Calls vize's `parse_sfc` with the default options (the file name empty):
/// whether it fails, and its message when it does, are a function of the
/// source ([`sfc_parse_failure`]), and so are the blocks it gives
/// ([`sfc_blocks`]). Each block's attributes come from a hash map, each name
/// once, in the order the map is walked: of the order nothing is claimed.
#[verifier::external_body]
fn parse_blocks(source: &str) -> (r: Result<Descriptor, String>)
    ensures
        match r {
            Ok(d) => sfc_parse_failure(source@, ""@) is None && descriptor_m(d) == sfc_blocks(source@)
                && descriptor_attrs_distinct(d),
            Err(m) => sfc_parse_failure(source@, ""@) == Some(m@),
        },
{
    let d = vize_parse_sfc(source, SfcParseOptions::default()).map_err(|e| format!("{e:?}"))?;
    let styles = d.styles.iter().map(style_of).collect();
    let custom_blocks = d.custom_blocks.iter().map(custom_of).collect();
    Ok(Descriptor { template: d.template.as_ref().map(template_of), script: d.script.as_ref().map(script_of), script_setup: d.script_setup.as_ref().map(script_of), styles, custom_blocks })
}

/// Parses a single-file component: `{:error, message}` with the parser's
/// message when it fails, `{:ok, blocks}` with the blocks vize finds
/// otherwise ([`sfc_blocks`]); only the order of each block's attributes is
/// left open.
pub fn parse_sfc(source: &str) -> (r: Term)
    ensures
        match sfc_parse_failure(source@, ""@) {
            Some(m) => r@ == tagged_v(Atom::ErrorTag, TermV::Str(m)),
            None => exists|d: Descriptor|
                descriptor_m(d) == sfc_blocks(source@) && descriptor_attrs_distinct(d) && r@
                    == #[trigger] tagged_v(Atom::OkTag, descriptor_v(d)),
        },
{
    let parsed = parse_blocks(source);
    let r = parse_answer(&parsed);
    if let Ok(d) = &parsed {
        assert(r@ == tagged_v(Atom::OkTag, descriptor_v(*d)));
    }
    r
}

// ── Compile ──

/// An error or warning of a compile.
pub struct SfcIssue {
    pub message: String,
    pub code: Option<String>,
}

impl View for SfcIssue {
    type V = (Seq<char>, Option<Seq<char>>);

    open spec fn view(&self) -> (Seq<char>, Option<Seq<char>>) {
        (self.message@, opt_chars(self.code))
    }
}

/// `%{message}`, with `code` as well when there is one.
pub open spec fn issue_v(i: (Seq<char>, Option<Seq<char>>)) -> TermV {
    match i.1 {
        Some(c) => dict_v(seq![Atom::Message, Atom::Code], seq![TermV::Str(i.0), TermV::Str(c)]),
        None => dict_v(seq![Atom::Message], seq![TermV::Str(i.0)]),
    }
}

/// An error or warning (see [`issue_v`]).
pub fn sfc_error_term(i: &SfcIssue) -> (r: Term)
    ensures
        r@ == issue_v(i@),
{
    match &i.code {
        Some(c) => {
            let vals = vec![string_term(&i.message), string_term(c)];
            let ghost vv = vals@;
            proof {
                lemma_views(vv);
            }
            let r = dict(vec![Atom::Message, Atom::Code], vals);
            assert(views(vv) =~= seq![TermV::Str(i.message@), TermV::Str(c@)]);
            r
        },
        None => {
            let vals = vec![string_term(&i.message)];
            let ghost vv = vals@;
            proof {
                lemma_views(vv);
            }
            let keys = vec![Atom::Message];
            assert(keys@ =~= seq![Atom::Message]);
            let r = dict(keys, vals);
            assert(views(vv) =~= seq![TermV::Str(i.message@)]);
            r
        },
    }
}

/// The views of the issues.
pub open spec fn issues_view(v: Seq<SfcIssue>) -> Seq<(Seq<char>, Option<Seq<char>>)> {
    v.map_values(|i: SfcIssue| i@)
}

fn issues_term(v: &Vec<SfcIssue>) -> (r: Term)
    ensures
        r@ == TermV::List(issues_view(v@).map_values(|i: (Seq<char>, Option<Seq<char>>)| issue_v(i))),
{
    broadcast use group_views;

    let ghost f = |i: (Seq<char>, Option<Seq<char>>)| issue_v(i);
    let mut out: Vec<Term> = Vec::new();
    let mut i: usize = 0;
    while i < v.len()
        invariant
            i <= v@.len(),
            views(out@) == issues_view(v@.take(i as int)).map_values(f),
            f == (|i: (Seq<char>, Option<Seq<char>>)| issue_v(i)),
        decreases v@.len() - i,
    {
        push_term(&mut out, sfc_error_term(&v[i]));
        i = i + 1;
        assert(issues_view(v@.take(i as int)).map_values(f) =~= issues_view(v@.take(i - 1)).map_values(f).push(
            issue_v(v@[i - 1]@),
        ));
    }
    assert(v@.take(v@.len() as int) =~= v@);
    list(out)
}

/// What a successful compile gives back.
pub struct SfcOutput {
    pub code: String,
    pub css: Option<String>,
    pub errors: Vec<SfcIssue>,
    pub warnings: Vec<SfcIssue>,
}

/// The plain values of a compile's output.
pub struct SfcOutputV {
    pub code: Seq<char>,
    pub css: Option<Seq<char>>,
    pub errors: Seq<(Seq<char>, Option<Seq<char>>)>,
    pub warnings: Seq<(Seq<char>, Option<Seq<char>>)>,
}

impl View for SfcOutput {
    type V = SfcOutputV;

    open spec fn view(&self) -> SfcOutputV {
        SfcOutputV {
            code: self.code@,
            css: opt_chars(self.css),
            errors: issues_view(self.errors@),
            warnings: issues_view(self.warnings@),
        }
    }
}

/// The content hashes of a component's template, styles and scripts.
pub struct SfcHashes {
    pub template_hash: Option<String>,
    pub style_hash: Option<String>,
    pub script_hash: Option<String>,
}

/// The plain values of the hashes.
pub struct SfcHashesV {
    pub template_hash: Option<Seq<char>>,
    pub style_hash: Option<Seq<char>>,
    pub script_hash: Option<Seq<char>>,
}

impl View for SfcHashes {
    type V = SfcHashesV;

    open spec fn view(&self) -> SfcHashesV {
        SfcHashesV {
            template_hash: opt_chars(self.template_hash),
            style_hash: opt_chars(self.style_hash),
            script_hash: opt_chars(self.script_hash),
        }
    }
}

/// `nil` for `None`, the string otherwise.
pub open spec fn opt_text_v(o: Option<Seq<char>>) -> TermV {
    match o {
        Some(s) => TermV::Str(s),
        None => TermV::Nil,
    }
}

/// `%{code, css, errors, warnings, template_hash, style_hash, script_hash}`.
pub open spec fn compiled_v(o: SfcOutputV, h: SfcHashesV) -> TermV {
    dict_v(
        seq![
            Atom::Code,
            Atom::Css,
            Atom::Errors,
            Atom::Warnings,
            Atom::TemplateHash,
            Atom::StyleHash,
            Atom::ScriptHash,
        ],
        seq![
            TermV::Str(o.code),
            opt_text_v(o.css),
            TermV::List(o.errors.map_values(|i: (Seq<char>, Option<Seq<char>>)| issue_v(i))),
            TermV::List(o.warnings.map_values(|i: (Seq<char>, Option<Seq<char>>)| issue_v(i))),
            opt_text_v(h.template_hash),
            opt_text_v(h.style_hash),
            opt_text_v(h.script_hash),
        ],
    )
}

proof fn lemma_opt_text(o: Option<String>)
    ensures
        opt_str_v(o) == opt_text_v(opt_chars(o)),
{
}

/// A compiled component (see [`compiled_v`]).
pub fn compiled_term(out: &SfcOutput, h: &SfcHashes) -> (r: Term)
    ensures
        r@ == compiled_v(out@, h@),
{
    let vals = vec![
        string_term(&out.code),
        opt_string_term(&out.css),
        issues_term(&out.errors),
        issues_term(&out.warnings),
        opt_string_term(&h.template_hash),
        opt_string_term(&h.style_hash),
        opt_string_term(&h.script_hash),
    ];
    let ghost vv = vals@;
    proof {
        lemma_views(vv);
        lemma_opt_text(out.css);
        lemma_opt_text(h.template_hash);
        lemma_opt_text(h.style_hash);
        lemma_opt_text(h.script_hash);
    }
    let r = dict(
        vec![
            Atom::Code,
            Atom::Css,
            Atom::Errors,
            Atom::Warnings,
            Atom::TemplateHash,
            Atom::StyleHash,
            Atom::ScriptHash,
        ],
        vals,
    );
    let ghost o = out@;
    let ghost hv = h@;
    assert(views(vv) =~= seq![
        TermV::Str(o.code),
        opt_text_v(o.css),
        TermV::List(o.errors.map_values(|i: (Seq<char>, Option<Seq<char>>)| issue_v(i))),
        TermV::List(o.warnings.map_values(|i: (Seq<char>, Option<Seq<char>>)| issue_v(i))),
        opt_text_v(hv.template_hash),
        opt_text_v(hv.style_hash),
        opt_text_v(hv.script_hash),
    ]);
    r
}

/// How a component is compiled: an empty file name or scope id is left out.
pub struct SfcSettings {
    pub filename: Option<String>,
    pub scope_id: Option<String>,
    pub vapor: bool,
    pub ssr: bool,
}

/// The settings of a compile (see [`SfcSettings`]).
pub fn sfc_settings(filename: &str, scope_id: &str, vapor: bool, ssr: bool) -> (r: SfcSettings)
    ensures
        opt_chars(r.filename) == given(filename@),
        opt_chars(r.scope_id) == given(scope_id@),
        r.vapor == vapor,
        r.ssr == ssr,
{
    SfcSettings { filename: given_string(filename), scope_id: given_string(scope_id), vapor, ssr }
}

/// The message of vize's `parse_sfc` when it fails on a source and file name
/// (the error's debug form), or `None` when it succeeds.
pub uninterp spec fn sfc_parse_failure(source: Seq<char>, filename: Seq<char>) -> Option<Seq<char>>;

/// The content hashes of the descriptor that vize's `parse_sfc` gives for a
/// source and file name (its `template_hash`, `style_hash` and
/// `script_hash`).
pub uninterp spec fn sfc_hashes(source: Seq<char>, filename: Seq<char>) -> SfcHashesV;

/// The output of a compile (vize's `SfcCompileResult`), as plain strings.
#[verifier::external_body]
fn output_of(out: SfcCompileResult) -> SfcOutput {
    let issues = |v: Vec<vize_atelier_sfc::SfcError>| v.into_iter().map(|e| SfcIssue { message: e.message.into(), code: e.code.map(Into::into) }).collect();
    SfcOutput { code: out.code.into(), css: out.css.map(Into::into), errors: issues(out.errors), warnings: issues(out.warnings) }
}

/// Calls vize's `parse_sfc` (the file name in its options; an empty one is
/// the default), `compile_sfc` on the descriptor, and the descriptor's
/// `template_hash`, `style_hash` and `script_hash`. A parse failure gives the
/// parser's message ([`sfc_parse_failure`]); the hashes are a function of the
/// source and file name ([`sfc_hashes`]). Of the compile's output or error
/// nothing is claimed: with a TypeScript script vize reads the imported type
/// files from disk, relative to the working directory.
#[verifier::external_body]
fn run_compile_sfc(
    source: &str,
    filename: &str,
    script_id: Option<&str>,
    scope_id: Option<&str>,
    vapor: bool,
    ssr: bool,
) -> (r: Result<(SfcOutput, SfcHashes), String>)
    ensures
        match sfc_parse_failure(source@, filename@) {
            Some(m) => r matches Err(e) && e@ == m,
            None => r matches Ok((_, h)) ==> h@ == sfc_hashes(source@, filename@),
        },
{
    let d = vize_parse_sfc(source, SfcParseOptions { filename: filename.into(), ..Default::default() }).map_err(|e| format!("{e:?}"))?;
    let opts = SfcCompileOptions { vapor, scope_id: scope_id.map(Into::into), script: ScriptCompileOptions { id: script_id.map(Into::into), ..Default::default() }, template: TemplateCompileOptions { ssr, ..Default::default() }, ..Default::default() };
    let out = vize_compile_sfc(&d, opts).map_err(|e| e.message.to_string())?;
    Ok((output_of(out), SfcHashes { template_hash: d.template_hash().map(Into::into), style_hash: d.style_hash().map(Into::into), script_hash: d.script_hash().map(Into::into) }))
}

/// The answer about a compile's outcome: `{:ok, compiled}` or
/// `{:error, message}`.
pub open spec fn sfc_answer_v(outcome: Result<(SfcOutputV, SfcHashesV), Seq<char>>) -> TermV {
    match outcome {
        Ok((o, h)) => tagged_v(Atom::OkTag, compiled_v(o, h)),
        Err(m) => tagged_v(Atom::ErrorTag, TermV::Str(m)),
    }
}

/// The plain values of a compile's outcome.
pub open spec fn outcome_view(o: Result<(SfcOutput, SfcHashes), String>) -> Result<(SfcOutputV, SfcHashesV), Seq<char>> {
    match o {
        Ok((out, h)) => Ok((out@, h@)),
        Err(m) => Err(m@),
    }
}

/// The answer about a compile's outcome (see [`sfc_answer_v`]).
pub fn sfc_answer(outcome: &Result<(SfcOutput, SfcHashes), String>) -> (r: Term)
    ensures
        r@ == sfc_answer_v(outcome_view(*outcome)),
{
    match outcome {
        Ok((out, h)) => tagged(Atom::OkTag, compiled_term(out, h)),
        Err(m) => tagged(Atom::ErrorTag, string_term(m)),
    }
}

/// Compiles a single-file component: `{:error, message}` with the parser's
/// message when it does not parse; otherwise the answer about what the
/// compiler gave ([`sfc_answer`]): `{:ok, compiled}` with the component's
/// content hashes, or `{:error, message}` with the compiler's message. An
/// empty file name or scope id is left out, and the file name is the script
/// id.
pub fn compile_sfc(source: &str, filename: &str, scope_id: &str, vapor: bool, ssr: bool) -> (r: Term)
    ensures
        match sfc_parse_failure(source@, filename@) {
            Some(m) => r@ == tagged_v(Atom::ErrorTag, TermV::Str(m)),
            None => exists|outcome: Result<(SfcOutputV, SfcHashesV), Seq<char>>|
                #[trigger] sfc_answer_v(outcome) == r@ && (outcome matches Ok((_, h)) ==> h == sfc_hashes(
                    source@,
                    filename@,
                )),
        },
{
    let settings = sfc_settings(filename, scope_id, vapor, ssr);
    let outcome = run_compile_sfc(
        source,
        filename,
        as_opt_str(&settings.filename),
        as_opt_str(&settings.scope_id),
        settings.vapor,
        settings.ssr,
    );
    let r = sfc_answer(&outcome);
    assert(sfc_answer_v(outcome_view(outcome)) == r@);
    r
}

} // verus!
