//! The answers about a lowered template: its Vapor IR, and its split into
//! static pieces and slots.
use vstd::prelude::*;

use crate::encode::{block_v, dict, dict_v, encode_block};
use crate::compile::{lemma_strs_v, messages_v};
use crate::css::texts;
use crate::ir::VaporRoot;
use crate::lower::{lower, lowered_ir, same_ir, vapor_parse_errors};
use crate::split::{block_slots, process_block, split_statics};
use crate::term::{
    group_views, lemma_views, list, push_term, string_list, strs_v, tagged, tagged_v, views, Atom, Term, TermV,
};

verus! {

/// `{element_id, template_index}` for each pair, in order.
pub open spec fn pairs_v(m: Seq<(usize, usize)>) -> Seq<TermV> {
    m.map_values(
        |p: (usize, usize)| TermV::Tuple(seq![TermV::Int(p.0 as int), TermV::Int(p.1 as int)]),
    )
}

/// The element-to-template pairs as a list of 2-tuples (see [`pairs_v`]).
pub fn element_template_list(m: &Vec<(usize, usize)>) -> (r: Term)
    ensures
        r@ == TermV::List(pairs_v(m@)),
{
    broadcast use group_views;

    let mut out: Vec<Term> = Vec::new();
    let mut i: usize = 0;
    while i < m.len()
        invariant
            i <= m@.len(),
            views(out@) == pairs_v(m@.take(i as int)),
        decreases m@.len() - i,
    {
        let (k, v) = m[i];
        let pair = vec![Term::Int(k), Term::Int(v)];
        let ghost pv = pair@;
        proof {
            lemma_views(pv);
        }
        assert(views(pv) =~= seq![TermV::Int(k as int), TermV::Int(v as int)]);
        push_term(&mut out, Term::Tuple(pair));
        i = i + 1;
        assert(pairs_v(m@.take(i as int)) =~= pairs_v(m@.take(i - 1)).push(
            TermV::Tuple(seq![TermV::Int(k as int), TermV::Int(v as int)]),
        ));
    }
    assert(m@.take(m@.len() as int) =~= m@);
    list(out)
}

/// The Vapor IR of a lowered template:
/// `%{templates, components, directives, block, element_template_map}`.
pub open spec fn vapor_ir_v(root: VaporRoot) -> TermV {
    dict_v(
        seq![
            Atom::Templates,
            Atom::Components,
            Atom::Directives,
            Atom::Block,
            Atom::ElementTemplateMap,
        ],
        seq![
            TermV::List(strs_v(root.templates@)),
            TermV::List(strs_v(root.components@)),
            TermV::List(strs_v(root.directives@)),
            block_v(root.block),
            TermV::List(pairs_v(root.element_template_map@)),
        ],
    )
}

/// Encodes the Vapor IR of a lowered template (see [`vapor_ir_v`]).
pub fn encode_vapor_ir(root: &VaporRoot) -> (r: Term)
    ensures
        r@ == vapor_ir_v(*root),
{
    let vals = vec![
        string_list(&root.templates),
        string_list(&root.components),
        string_list(&root.directives),
        encode_block(&root.block),
        element_template_list(&root.element_template_map),
    ];
    let ghost vv = vals@;
    let r = dict(
        vec![
            Atom::Templates,
            Atom::Components,
            Atom::Directives,
            Atom::Block,
            Atom::ElementTemplateMap,
        ],
        vals,
    );
    assert(views(vv) =~= seq![
        TermV::List(strs_v(root.templates@)),
        TermV::List(strs_v(root.components@)),
        TermV::List(strs_v(root.directives@)),
        block_v(root.block),
        TermV::List(pairs_v(root.element_template_map@)),
    ]);
    r
}

/// The split of a lowered template's root block:
/// `%{statics, slots, templates, element_template_map}`.
pub open spec fn vapor_split_v(root: VaporRoot) -> TermV {
    dict_v(
        seq![Atom::Statics, Atom::Slots, Atom::Templates, Atom::ElementTemplateMap],
        seq![
            TermV::List(split_statics(root.block, root).map_values(|s: Seq<char>| TermV::Str(s))),
            TermV::List(block_slots(root.block, root)),
            TermV::List(strs_v(root.templates@)),
            TermV::List(pairs_v(root.element_template_map@)),
        ],
    )
}

/// Splits the root block of a lowered template (see [`vapor_split_v`]).
pub fn encode_vapor_split(root: &VaporRoot) -> (r: Term)
    ensures
        r@ == vapor_split_v(*root),
{
    let (statics, slots) = process_block(&root.block, root);
    let ghost segs = split_statics(root.block, *root);
    assert(strs_v(statics@) =~= segs.map_values(|s: Seq<char>| TermV::Str(s))) by {
        assert forall|k: int| 0 <= k < segs.len() implies strs_v(statics@)[k] == TermV::Str(
            segs[k],
        ) by {
            assert(statics@.map_values(|s: String| s@)[k] == statics@[k]@);
        }
    }
    let vals = vec![
        string_list(&statics),
        list(slots),
        string_list(&root.templates),
        element_template_list(&root.element_template_map),
    ];
    let ghost vv = vals@;
    let r = dict(
        vec![Atom::Statics, Atom::Slots, Atom::Templates, Atom::ElementTemplateMap],
        vals,
    );
    assert(views(vv) =~= seq![
        TermV::List(segs.map_values(|s: Seq<char>| TermV::Str(s))),
        TermV::List(block_slots(root.block, *root)),
        TermV::List(strs_v(root.templates@)),
        TermV::List(pairs_v(root.element_template_map@)),
    ]);
    r
}

/// `{:error, messages}`.
pub open spec fn errors_v(msgs: Seq<String>) -> TermV {
    tagged_v(Atom::ErrorTag, TermV::List(strs_v(msgs)))
}

/// `{:error, messages}` (see [`errors_v`]).
pub fn error_list(msgs: &Vec<String>) -> (r: Term)
    ensures
        r@ == errors_v(msgs@),
{
    tagged(Atom::ErrorTag, string_list(msgs))
}

/// The answer about a template that was lowered, or that failed to parse
/// with the given messages: `{:ok, ir}` or `{:error, messages}`.
pub open spec fn vapor_ir_answer(lowered: Result<VaporRoot, Vec<String>>) -> TermV {
    match lowered {
        Ok(root) => tagged_v(Atom::OkTag, vapor_ir_v(root)),
        Err(msgs) => errors_v(msgs@),
    }
}

/// The Vapor IR answer (see [`vapor_ir_answer`]).
pub fn vapor_ir(lowered: &Result<VaporRoot, Vec<String>>) -> (r: Term)
    ensures
        r@ == vapor_ir_answer(*lowered),
{
    match lowered {
        Ok(root) => tagged(Atom::OkTag, encode_vapor_ir(root)),
        Err(msgs) => error_list(msgs),
    }
}

/// The answer about the split of a template that was lowered, or that failed
/// to parse: `{:ok, split}` or `{:error, messages}`.
pub open spec fn vapor_split_answer(lowered: Result<VaporRoot, Vec<String>>) -> TermV {
    match lowered {
        Ok(root) => tagged_v(Atom::OkTag, vapor_split_v(root)),
        Err(msgs) => errors_v(msgs@),
    }
}

/// The Vapor split answer (see [`vapor_split_answer`]).
pub fn vapor_split(lowered: &Result<VaporRoot, Vec<String>>) -> (r: Term)
    ensures
        r@ == vapor_split_answer(*lowered),
{
    match lowered {
        Ok(root) => tagged(Atom::OkTag, encode_vapor_split(root)),
        Err(msgs) => error_list(msgs),
    }
}

/// Parse errors as `{:error, messages}`.
pub proof fn lemma_errors_v(msgs: Seq<String>)
    ensures
        errors_v(msgs) == messages_v(texts(msgs)),
{
    lemma_strs_v(msgs);
}

/// The Vapor IR of a template: `{:error, messages}` with the parser's
/// messages when it does not parse, `{:ok, ir}` of the lowered template
/// otherwise.
pub fn vapor_ir_source(source: &str) -> (r: Term)
    ensures
        vapor_parse_errors(source@).len() > 0 ==> r@ == messages_v(vapor_parse_errors(source@)),
        vapor_parse_errors(source@).len() == 0 ==> exists|root: VaporRoot|
            root.element_ids_distinct() && same_ir(root, lowered_ir(source@)) && r@ == #[trigger] tagged_v(
                Atom::OkTag,
                vapor_ir_v(root),
            ),
{
    let lowered = lower(source);
    let r = vapor_ir(&lowered);
    match &lowered {
        Ok(root) => {
            assert(r@ == tagged_v(Atom::OkTag, vapor_ir_v(*root)));
        },
        Err(m) => {
            proof {
                lemma_errors_v(m@);
            }
        },
    }
    r
}

/// The split of a template's root block: `{:error, messages}` with the
/// parser's messages when it does not parse, `{:ok, split}` of the lowered
/// template otherwise.
pub fn vapor_split_source(source: &str) -> (r: Term)
    ensures
        vapor_parse_errors(source@).len() > 0 ==> r@ == messages_v(vapor_parse_errors(source@)),
        vapor_parse_errors(source@).len() == 0 ==> exists|root: VaporRoot|
            root.element_ids_distinct() && same_ir(root, lowered_ir(source@)) && r@ == #[trigger] tagged_v(
                Atom::OkTag,
                vapor_split_v(root),
            ),
{
    let lowered = lower(source);
    let r = vapor_split(&lowered);
    match &lowered {
        Ok(root) => {
            assert(r@ == tagged_v(Atom::OkTag, vapor_split_v(*root)));
        },
        Err(m) => {
            proof {
                lemma_errors_v(m@);
            }
        },
    }
    r
}

} // verus!
