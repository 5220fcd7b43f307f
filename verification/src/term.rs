//! The values handed back to the BEAM: atoms, strings, integers, lists,
//! tuples and maps, built here and encoded into Erlang terms at the edge.
use vstd::prelude::*;

verus! {

/// The atoms that results are built from.
#[derive(Debug, Clone, Copy, PartialEq, Eq, Structural)]
pub enum Atom {
    OkTag,
    ErrorTag,
    Template,
    Script,
    ScriptSetup,
    Styles,
    CustomBlocks,
    Content,
    Lang,
    Scoped,
    Module,
    Setup,
    Attrs,
    BlockType,
    Loc,
    Start,
    End,
    StartLine,
    StartColumn,
    EndLine,
    EndColumn,
    Code,
    Css,
    Errors,
    Warnings,
    TemplateHash,
    StyleHash,
    ScriptHash,
    Message,
    Preamble,
    Helpers,
    Templates,
    Block,
    Operations,
    Effects,
    Returns,
    Element,
    Key,
    Values,
    Value,
    Condition,
    Positive,
    Negative,
    Source,
    Index,
    Render,
    Once,
    Parent,
    Anchor,
    KeyProp,
    Tag,
    Props,
    Slots,
    Name,
    Delegate,
    Effect,
    Camel,
    PropModifier,
    IsComponent,
    Components,
    Directives,
    Kind,
    Asset,
    DynamicSlots,
    ChildId,
    ParentId,
    Offset,
    CssVars,
    Exports,
    Static,
    ElementTemplateMap,
    SetProp,
    SetDynamicProps,
    SetText,
    SetEvent,
    SetHtml,
    SetTemplateRef,
    InsertNode,
    PrependNode,
    Directive,
    IfNode,
    ForNode,
    CreateComponent,
    SlotOutlet,
    GetTextChild,
    ChildRef,
    NextRef,
    Statics,
    VShow,
    VModel,
    Regular,
    Teleport,
    KeepAlive,
    Suspense,
    Dynamic,
}

/// A value to hand back: `Dict` (an Erlang map) pairs its keys with its values by position.
#[derive(Debug)]
pub enum Term {
    Atom(Atom),
    Nil,
    Bool(bool),
    Int(usize),
    Str(String),
    List(Vec<Term>),
    Tuple(Vec<Term>),
    Dict(Vec<Term>, Vec<Term>),
}

/// The mathematical content of a [`Term`].
pub enum TermV {
    Atom(Atom),
    Nil,
    Bool(bool),
    Int(int),
    Str(Seq<char>),
    List(Seq<TermV>),
    Tuple(Seq<TermV>),
    Dict(Seq<TermV>, Seq<TermV>),
}

pub open spec fn term_view(t: Term) -> TermV
    decreases t,
{
    match t {
        Term::Atom(a) => TermV::Atom(a),
        Term::Nil => TermV::Nil,
        Term::Bool(b) => TermV::Bool(b),
        Term::Int(n) => TermV::Int(n as int),
        Term::Str(s) => TermV::Str(s@),
        Term::List(v) => TermV::List(views(v@)),
        Term::Tuple(v) => TermV::Tuple(views(v@)),
        Term::Dict(k, v) => TermV::Dict(views(k@), views(v@)),
    }
}

/// The views of a sequence of terms.
pub open spec fn views(s: Seq<Term>) -> Seq<TermV>
    decreases s,
{
    if s.len() == 0 {
        Seq::empty()
    } else {
        views(s.drop_last()).push(term_view(s.last()))
    }
}

impl View for Term {
    type V = TermV;

    open spec fn view(&self) -> TermV {
        term_view(*self)
    }
}

pub proof fn lemma_views(s: Seq<Term>)
    ensures
        views(s).len() == s.len(),
        forall|i: int| 0 <= i < s.len() ==> #[trigger] views(s)[i] == term_view(s[i]),
    decreases s.len(),
{
    if s.len() > 0 {
        lemma_views(s.drop_last());
    }
}

pub broadcast proof fn lemma_views_index(s: Seq<Term>, i: int)
    requires
        0 <= i < s.len(),
    ensures
        #[trigger] views(s)[i] == term_view(s[i]),
{
    lemma_views(s);
}

pub broadcast proof fn lemma_views_len(s: Seq<Term>)
    ensures
        #[trigger] views(s).len() == s.len(),
{
    lemma_views(s);
}

pub broadcast proof fn lemma_views_push(s: Seq<Term>, t: Term)
    ensures
        #[trigger] views(s.push(t)) == views(s).push(term_view(t)),
{
    assert(s.push(t).drop_last() =~= s);
}

pub broadcast group group_views {
    lemma_views_index,
    lemma_views_len,
    lemma_views_push,
}

/// Appends a term, keeping track of the views.
pub fn push_term(v: &mut Vec<Term>, t: Term)
    ensures
        final(v)@ == old(v)@.push(t),
        views(final(v)@) == views(old(v)@).push(t@),
{
    proof {
        lemma_views_push(old(v)@, t);
    }
    v.push(t);
}

/// The atoms as terms.
pub open spec fn atoms_v(s: Seq<Atom>) -> Seq<TermV> {
    s.map_values(|a: Atom| TermV::Atom(a))
}

/// A term that is an atom.
pub fn atom(a: Atom) -> (r: Term)
    ensures
        r@ == TermV::Atom(a),
{
    Term::Atom(a)
}

/// A term that is a copy of a string.
pub fn string_term(s: &String) -> (r: Term)
    ensures
        r@ == TermV::Str(s@),
{
    Term::Str(s.clone())
}

/// A list term.
pub fn list(v: Vec<Term>) -> (r: Term)
    ensures
        r@ == TermV::List(views(v@)),
{
    Term::List(v)
}

/// A map term whose keys are atoms.
pub fn atom_map(keys: Vec<Atom>, vals: Vec<Term>) -> (r: Term)
    ensures
        r@ == TermV::Dict(atoms_v(keys@), views(vals@)),
{
    broadcast use group_views;

    let mut ks: Vec<Term> = Vec::new();
    let mut i: usize = 0;
    while i < keys.len()
        invariant
            i <= keys@.len(),
            views(ks@) == atoms_v(keys@.take(i as int)),
        decreases keys@.len() - i,
    {
        push_term(&mut ks, Term::Atom(keys[i]));
        i = i + 1;
        assert(atoms_v(keys@.take(i as int)) =~= atoms_v(keys@.take(i - 1)).push(
            TermV::Atom(keys@[i - 1]),
        ));
    }
    assert(keys@.take(keys@.len() as int) =~= keys@);
    Term::Dict(ks, vals)
}

/// The terms of the strings, in order.
pub open spec fn strs_v(s: Seq<String>) -> Seq<TermV> {
    s.map_values(|x: String| TermV::Str(x@))
}

/// A list of string terms.
pub fn string_list(v: &Vec<String>) -> (r: Term)
    ensures
        r@ == TermV::List(strs_v(v@)),
{
    broadcast use group_views;

    let mut out: Vec<Term> = Vec::new();
    let mut i: usize = 0;
    while i < v.len()
        invariant
            i <= v@.len(),
            views(out@) == strs_v(v@.take(i as int)),
        decreases v@.len() - i,
    {
        push_term(&mut out, string_term(&v[i]));
        i = i + 1;
        assert(strs_v(v@.take(i as int)) =~= strs_v(v@.take(i - 1)).push(TermV::Str(v@[i - 1]@)));
    }
    assert(v@.take(v@.len() as int) =~= v@);
    Term::List(out)
}

/// The terms of the integers, in order.
pub open spec fn ints_v(s: Seq<usize>) -> Seq<TermV> {
    s.map_values(|x: usize| TermV::Int(x as int))
}

/// A list of integer terms.
pub fn int_list(v: &Vec<usize>) -> (r: Term)
    ensures
        r@ == TermV::List(ints_v(v@)),
{
    broadcast use group_views;

    let mut out: Vec<Term> = Vec::new();
    let mut i: usize = 0;
    while i < v.len()
        invariant
            i <= v@.len(),
            views(out@) == ints_v(v@.take(i as int)),
        decreases v@.len() - i,
    {
        push_term(&mut out, Term::Int(v[i]));
        i = i + 1;
        assert(ints_v(v@.take(i as int)) =~= ints_v(v@.take(i - 1)).push(TermV::Int(v@[i - 1] as int)));
    }
    assert(v@.take(v@.len() as int) =~= v@);
    Term::List(out)
}

/// `nil` for `None`, the integer otherwise.
pub open spec fn opt_int_v(o: Option<usize>) -> TermV {
    match o {
        Some(n) => TermV::Int(n as int),
        None => TermV::Nil,
    }
}

pub fn opt_int_term(o: Option<usize>) -> (r: Term)
    ensures
        r@ == opt_int_v(o),
{
    match o {
        Some(n) => Term::Int(n),
        None => Term::Nil,
    }
}

/// `nil` for `None`, the string otherwise.
pub open spec fn opt_str_v(o: Option<String>) -> TermV {
    match o {
        Some(s) => TermV::Str(s@),
        None => TermV::Nil,
    }
}

pub fn opt_string_term(o: &Option<String>) -> (r: Term)
    ensures
        r@ == opt_str_v(*o),
{
    match o {
        Some(s) => string_term(s),
        None => Term::Nil,
    }
}

/// `{tag, value}`: the shape of every answer (`{:ok, ..}` or `{:error, ..}`).
pub open spec fn tagged_v(tag: Atom, value: TermV) -> TermV {
    TermV::Tuple(seq![TermV::Atom(tag), value])
}

pub fn tagged(tag: Atom, value: Term) -> (r: Term)
    ensures
        r@ == tagged_v(tag, value@),
{
    let ghost tv = value@;
    let vals = vec![Term::Atom(tag), value];
    let ghost vv = vals@;
    proof {
        lemma_views(vv);
    }
    assert(views(vv) =~= seq![TermV::Atom(tag), tv]);
    Term::Tuple(vals)
}

/// The text of an atom.
pub open spec fn atom_name(a: Atom) -> Seq<char> {
    match a {
        Atom::OkTag => "ok"@,
        Atom::ErrorTag => "error"@,
        Atom::Template => "template"@,
        Atom::Script => "script"@,
        Atom::ScriptSetup => "script_setup"@,
        Atom::Styles => "styles"@,
        Atom::CustomBlocks => "custom_blocks"@,
        Atom::Content => "content"@,
        Atom::Lang => "lang"@,
        Atom::Scoped => "scoped"@,
        Atom::Module => "module"@,
        Atom::Setup => "setup"@,
        Atom::Attrs => "attrs"@,
        Atom::BlockType => "block_type"@,
        Atom::Loc => "loc"@,
        Atom::Start => "start"@,
        Atom::End => "end_"@,
        Atom::StartLine => "start_line"@,
        Atom::StartColumn => "start_column"@,
        Atom::EndLine => "end_line"@,
        Atom::EndColumn => "end_column"@,
        Atom::Code => "code"@,
        Atom::Css => "css"@,
        Atom::Errors => "errors"@,
        Atom::Warnings => "warnings"@,
        Atom::TemplateHash => "template_hash"@,
        Atom::StyleHash => "style_hash"@,
        Atom::ScriptHash => "script_hash"@,
        Atom::Message => "message"@,
        Atom::Preamble => "preamble"@,
        Atom::Helpers => "helpers"@,
        Atom::Templates => "templates"@,
        Atom::Block => "block"@,
        Atom::Operations => "operations"@,
        Atom::Effects => "effects"@,
        Atom::Returns => "returns"@,
        Atom::Element => "element"@,
        Atom::Key => "key"@,
        Atom::Values => "values"@,
        Atom::Value => "value"@,
        Atom::Condition => "condition"@,
        Atom::Positive => "positive"@,
        Atom::Negative => "negative"@,
        Atom::Source => "source"@,
        Atom::Index => "index"@,
        Atom::Render => "render"@,
        Atom::Once => "once"@,
        Atom::Parent => "parent"@,
        Atom::Anchor => "anchor"@,
        Atom::KeyProp => "key_prop"@,
        Atom::Tag => "tag"@,
        Atom::Props => "props"@,
        Atom::Slots => "slots"@,
        Atom::Name => "name"@,
        Atom::Delegate => "delegate"@,
        Atom::Effect => "effect"@,
        Atom::Camel => "camel"@,
        Atom::PropModifier => "prop_modifier"@,
        Atom::IsComponent => "is_component"@,
        Atom::Components => "components"@,
        Atom::Directives => "directives"@,
        Atom::Kind => "kind"@,
        Atom::Asset => "asset"@,
        Atom::DynamicSlots => "dynamic_slots"@,
        Atom::ChildId => "child_id"@,
        Atom::ParentId => "parent_id"@,
        Atom::Offset => "offset"@,
        Atom::CssVars => "css_vars"@,
        Atom::Exports => "exports"@,
        Atom::Static => "static"@,
        Atom::ElementTemplateMap => "element_template_map"@,
        Atom::SetProp => "set_prop"@,
        Atom::SetDynamicProps => "set_dynamic_props"@,
        Atom::SetText => "set_text"@,
        Atom::SetEvent => "set_event"@,
        Atom::SetHtml => "set_html"@,
        Atom::SetTemplateRef => "set_template_ref"@,
        Atom::InsertNode => "insert_node"@,
        Atom::PrependNode => "prepend_node"@,
        Atom::Directive => "directive"@,
        Atom::IfNode => "if_node"@,
        Atom::ForNode => "for_node"@,
        Atom::CreateComponent => "create_component"@,
        Atom::SlotOutlet => "slot_outlet"@,
        Atom::GetTextChild => "get_text_child"@,
        Atom::ChildRef => "child_ref"@,
        Atom::NextRef => "next_ref"@,
        Atom::Statics => "statics"@,
        Atom::VShow => "v_show"@,
        Atom::VModel => "v_model"@,
        Atom::Regular => "regular"@,
        Atom::Teleport => "teleport"@,
        Atom::KeepAlive => "keep_alive"@,
        Atom::Suspense => "suspense"@,
        Atom::Dynamic => "dynamic"@,
    }
}

impl Atom {
    /// The text of the atom (see [`atom_name`]).
    pub fn name(&self) -> (r: &'static str)
        ensures
            r@ == atom_name(*self),
    {
        match self {
            Atom::OkTag => "ok",
            Atom::ErrorTag => "error",
            Atom::Template => "template",
            Atom::Script => "script",
            Atom::ScriptSetup => "script_setup",
            Atom::Styles => "styles",
            Atom::CustomBlocks => "custom_blocks",
            Atom::Content => "content",
            Atom::Lang => "lang",
            Atom::Scoped => "scoped",
            Atom::Module => "module",
            Atom::Setup => "setup",
            Atom::Attrs => "attrs",
            Atom::BlockType => "block_type",
            Atom::Loc => "loc",
            Atom::Start => "start",
            Atom::End => "end_",
            Atom::StartLine => "start_line",
            Atom::StartColumn => "start_column",
            Atom::EndLine => "end_line",
            Atom::EndColumn => "end_column",
            Atom::Code => "code",
            Atom::Css => "css",
            Atom::Errors => "errors",
            Atom::Warnings => "warnings",
            Atom::TemplateHash => "template_hash",
            Atom::StyleHash => "style_hash",
            Atom::ScriptHash => "script_hash",
            Atom::Message => "message",
            Atom::Preamble => "preamble",
            Atom::Helpers => "helpers",
            Atom::Templates => "templates",
            Atom::Block => "block",
            Atom::Operations => "operations",
            Atom::Effects => "effects",
            Atom::Returns => "returns",
            Atom::Element => "element",
            Atom::Key => "key",
            Atom::Values => "values",
            Atom::Value => "value",
            Atom::Condition => "condition",
            Atom::Positive => "positive",
            Atom::Negative => "negative",
            Atom::Source => "source",
            Atom::Index => "index",
            Atom::Render => "render",
            Atom::Once => "once",
            Atom::Parent => "parent",
            Atom::Anchor => "anchor",
            Atom::KeyProp => "key_prop",
            Atom::Tag => "tag",
            Atom::Props => "props",
            Atom::Slots => "slots",
            Atom::Name => "name",
            Atom::Delegate => "delegate",
            Atom::Effect => "effect",
            Atom::Camel => "camel",
            Atom::PropModifier => "prop_modifier",
            Atom::IsComponent => "is_component",
            Atom::Components => "components",
            Atom::Directives => "directives",
            Atom::Kind => "kind",
            Atom::Asset => "asset",
            Atom::DynamicSlots => "dynamic_slots",
            Atom::ChildId => "child_id",
            Atom::ParentId => "parent_id",
            Atom::Offset => "offset",
            Atom::CssVars => "css_vars",
            Atom::Exports => "exports",
            Atom::Static => "static",
            Atom::ElementTemplateMap => "element_template_map",
            Atom::SetProp => "set_prop",
            Atom::SetDynamicProps => "set_dynamic_props",
            Atom::SetText => "set_text",
            Atom::SetEvent => "set_event",
            Atom::SetHtml => "set_html",
            Atom::SetTemplateRef => "set_template_ref",
            Atom::InsertNode => "insert_node",
            Atom::PrependNode => "prepend_node",
            Atom::Directive => "directive",
            Atom::IfNode => "if_node",
            Atom::ForNode => "for_node",
            Atom::CreateComponent => "create_component",
            Atom::SlotOutlet => "slot_outlet",
            Atom::GetTextChild => "get_text_child",
            Atom::ChildRef => "child_ref",
            Atom::NextRef => "next_ref",
            Atom::Statics => "statics",
            Atom::VShow => "v_show",
            Atom::VModel => "v_model",
            Atom::Regular => "regular",
            Atom::Teleport => "teleport",
            Atom::KeepAlive => "keep_alive",
            Atom::Suspense => "suspense",
            Atom::Dynamic => "dynamic",
        }
    }
}

} // verus!
