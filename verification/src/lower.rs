//! Lowering a template to the Vapor IR with vize, and the conversion of
//! vize's IR into the library's [`crate::ir`] values, one node kind at a time.
use vstd::prelude::*;

use crate::css::texts;
use crate::ir::{
    Block, Component, ComponentKind, CompoundPart, DirectiveExp, Effect, Expr, ForNode, IfNode,
    Negative, Operation, Prop, VaporRoot,
};
use vize_atelier_core::options::{ParserOptions, TransformOptions};
use vize_atelier_core::{CompoundExpressionChild, ExpressionNode, SimpleExpressionNode};
use vize_atelier_vapor::ir::{
    BlockIRNode, ComponentKind as VizeComponentKind, CreateComponentIRNode, ForIRNode, IRProp,
    IfIRNode, NegativeBranch, OperationNode, RootIRNode,
};
use vize_carton::Bump;

verus! {

/// vize's simple expression, carried through unopened.
#[verifier::external_type_specification]
#[verifier::external_body]
pub struct ExSimpleExpressionNode<'a>(SimpleExpressionNode<'a>);

/// vize's directive expression, carried through unopened.
#[verifier::external_type_specification]
#[verifier::external_body]
pub struct ExExpressionNode<'a>(ExpressionNode<'a>);

/// vize's bound property, carried through unopened.
#[verifier::external_type_specification]
#[verifier::external_body]
pub struct ExIRProp<'a>(IRProp<'a>);

/// vize's IR block, carried through unopened.
#[verifier::external_type_specification]
#[verifier::external_body]
pub struct ExBlockIRNode<'a>(BlockIRNode<'a>);

/// vize's `v-if` node, carried through unopened.
#[verifier::external_type_specification]
#[verifier::external_body]
pub struct ExIfIRNode<'a>(IfIRNode<'a>);

/// vize's `v-for` node, carried through unopened.
#[verifier::external_type_specification]
#[verifier::external_body]
pub struct ExForIRNode<'a>(ForIRNode<'a>);

/// vize's component node, carried through unopened.
#[verifier::external_type_specification]
#[verifier::external_body]
pub struct ExCreateComponentIRNode<'a>(CreateComponentIRNode<'a>);

/// vize's IR operation, carried through unopened.
#[verifier::external_type_specification]
#[verifier::external_body]
pub struct ExOperationNode<'a>(OperationNode<'a>);

/// vize's IR root, carried through unopened.
#[verifier::external_type_specification]
#[verifier::external_body]
pub struct ExRootIRNode<'a>(RootIRNode<'a>);

/// A simple expression: its content and whether it is static.
#[verifier::external_body]
fn ir_expr(e: &SimpleExpressionNode) -> Expr {
    Expr { content: e.content.to_string(), is_static: e.is_static }
}

/// A bound property: its key, its values in order, and its component flag.
#[verifier::external_body]
fn ir_prop(p: &IRProp) -> Prop {
    Prop { key: ir_expr(&p.key), values: p.values.iter().map(|v| ir_expr(v)).collect(), is_component: p.is_component }
}

/// A directive expression: a simple one, or the children of a compound one
/// (simple children and strings kept, any other child as
/// [`CompoundPart::Other`]).
#[verifier::external_body]
fn ir_dir_exp(e: &ExpressionNode) -> DirectiveExp {
    match e {
        ExpressionNode::Simple(s) => DirectiveExp::Simple(ir_expr(s)),
        ExpressionNode::Compound(c) => DirectiveExp::Compound(c.children.iter().map(|child| match child {
            CompoundExpressionChild::Simple(s) => CompoundPart::Simple(ir_expr(s)),
            CompoundExpressionChild::String(s) => CompoundPart::Text(s.to_string()),
            _ => CompoundPart::Other,
        }).collect()),
    }
}

/// A block: its operations and effects in order, and its root element ids.
#[verifier::external_body]
fn ir_block(b: &BlockIRNode) -> Block {
    let effect = b.effect.iter().map(|e| Effect { operations: e.operations.iter().map(ir_op).collect() }).collect();
    Block { operation: b.operation.iter().map(ir_op).collect(), effect, returns: b.returns.iter().copied().collect() }
}

/// A `v-if` node, its negative branch a block or a nested `v-if`.
#[verifier::external_body]
fn ir_if(n: &IfIRNode) -> IfNode {
    let negative = match &n.negative {
        Some(NegativeBranch::Block(b)) => Some(Negative::Block(ir_block(b))),
        Some(NegativeBranch::If(m)) => Some(Negative::If(Box::new(ir_if(m)))),
        None => None,
    };
    IfNode { condition: ir_expr(&n.condition), positive: ir_block(&n.positive), negative, once: n.once, parent: n.parent, anchor: n.anchor }
}

/// A `v-for` node.
#[verifier::external_body]
fn ir_for(n: &ForIRNode) -> ForNode {
    let opt = |e: &Option<vize_carton::Box<SimpleExpressionNode>>| e.as_deref().map(ir_expr);
    ForNode { source: ir_expr(&n.source), value: opt(&n.value), key: opt(&n.key), index: opt(&n.index), key_prop: opt(&n.key_prop), render: ir_block(&n.render), once: n.once, parent: n.parent, anchor: n.anchor }
}

/// A component node; its kind maps variant for variant.
#[verifier::external_body]
fn ir_component(n: &CreateComponentIRNode) -> Component {
    let kind = match n.kind {
        VizeComponentKind::Regular => ComponentKind::Regular,
        VizeComponentKind::Teleport => ComponentKind::Teleport,
        VizeComponentKind::KeepAlive => ComponentKind::KeepAlive,
        VizeComponentKind::Suspense => ComponentKind::Suspense,
        VizeComponentKind::Dynamic => ComponentKind::Dynamic,
    };
    Component { tag: n.tag.to_string(), props: n.props.iter().map(ir_prop).collect(), asset: n.asset, once: n.once, dynamic_slots: n.dynamic_slots, kind, parent: n.parent, anchor: n.anchor }
}

/// An operation, handed to the converter for its group; every variant is
/// named here, so a variant that a later vize adds stops the build.
#[verifier::external_body]
fn ir_op(op: &OperationNode) -> Operation {
    match op {
        OperationNode::SetProp(_) | OperationNode::SetText(_) | OperationNode::SetEvent(_) => ir_op_setters(op),
        OperationNode::SetDynamicProps(_) | OperationNode::SetHtml(_) | OperationNode::SetTemplateRef(_) | OperationNode::InsertNode(_) | OperationNode::PrependNode(_) => ir_op_nodes(op),
        OperationNode::Directive(_) | OperationNode::If(_) | OperationNode::For(_) | OperationNode::CreateComponent(_) | OperationNode::SlotOutlet(_) => ir_op_structure(op),
        OperationNode::GetTextChild(_) | OperationNode::ChildRef(_) | OperationNode::NextRef(_) => ir_op_refs(op),
    }
}

/// Property, text and event setters (see [`ir_op`]).
#[verifier::external_body]
fn ir_op_setters(op: &OperationNode) -> Operation {
    match op {
        OperationNode::SetProp(n) => Operation::SetProp { element: n.element, prop: ir_prop(&n.prop), tag: n.tag.to_string(), camel: n.camel, prop_modifier: n.prop_modifier },
        OperationNode::SetText(n) => Operation::SetText { element: n.element, values: n.values.iter().map(|v| ir_expr(v)).collect() },
        OperationNode::SetEvent(n) => Operation::SetEvent { element: n.element, key: ir_expr(&n.key), value: n.value.as_deref().map(ir_expr), delegate: n.delegate, effect: n.effect },
        _ => ir_op(op),
    }
}

/// Dynamic props, HTML, template refs and node insertions (see [`ir_op`]).
#[verifier::external_body]
fn ir_op_nodes(op: &OperationNode) -> Operation {
    match op {
        OperationNode::SetDynamicProps(n) => Operation::SetDynamicProps { element: n.element, props: n.props.iter().map(|p| ir_expr(p)).collect() },
        OperationNode::SetHtml(n) => Operation::SetHtml { element: n.element, value: ir_expr(&n.value) },
        OperationNode::SetTemplateRef(n) => Operation::SetTemplateRef { element: n.element, value: ir_expr(&n.value) },
        OperationNode::InsertNode(n) => Operation::InsertNode { elements: n.elements.clone(), parent: n.parent, anchor: n.anchor },
        OperationNode::PrependNode(n) => Operation::PrependNode { elements: n.elements.clone(), parent: n.parent },
        _ => ir_op(op),
    }
}

/// Directives, `v-if`, `v-for`, components and slot outlets (see
/// [`ir_op`]).
#[verifier::external_body]
fn ir_op_structure(op: &OperationNode) -> Operation {
    match op {
        OperationNode::Directive(n) => Operation::Directive { element: n.element, name: n.name.to_string(), tag: n.tag.to_string(), exp: n.dir.exp.as_ref().map(ir_dir_exp) },
        OperationNode::If(n) => Operation::If(Box::new(ir_if(n))),
        OperationNode::For(n) => Operation::For(Box::new(ir_for(n))),
        OperationNode::CreateComponent(n) => Operation::CreateComponent(ir_component(n)),
        OperationNode::SlotOutlet(n) => Operation::SlotOutlet { name: ir_expr(&n.name), props: n.props.iter().map(ir_prop).collect() },
        _ => ir_op(op),
    }
}

/// Text children and references (see [`ir_op`]).
#[verifier::external_body]
fn ir_op_refs(op: &OperationNode) -> Operation {
    match op {
        OperationNode::GetTextChild(n) => Operation::GetTextChild { parent: n.parent },
        OperationNode::ChildRef(n) => Operation::ChildRef { child_id: n.child_id, parent_id: n.parent_id, offset: n.offset },
        OperationNode::NextRef(n) => Operation::NextRef { child_id: n.child_id, prev_id: n.prev_id, offset: n.offset },
        _ => ir_op(op),
    }
}

/// The lowered template: its templates, components and directives in order,
/// its root block, and its element-to-template pairs in the order vize's map
/// is walked.
#[verifier::external_body]
fn ir_root(ir: &RootIRNode) -> VaporRoot {
    let strings = |v: &[vize_carton::String]| v.iter().map(|s| s.to_string()).collect();
    let element_template_map = ir.element_template_map.iter().map(|(&k, &v)| (k, v)).collect();
    VaporRoot { templates: strings(&ir.templates), components: strings(&ir.component), directives: strings(&ir.directive), block: ir_block(&ir.block), element_template_map }
}

/// The error messages of parsing a template with vize's
/// `parse_with_options` and the default parser options.
pub uninterp spec fn vapor_parse_errors(source: Seq<char>) -> Seq<Seq<char>>;

/// The element-to-template pairs of a lowered template, as a map.
pub open spec fn etm_map(m: Seq<(usize, usize)>) -> Map<usize, usize>
    decreases m.len(),
{
    if m.len() == 0 {
        Map::empty()
    } else {
        etm_map(m.drop_last()).insert(m.last().0, m.last().1)
    }
}

/// Two lowered templates that differ at most in the order of their
/// element-to-template pairs.
pub open spec fn same_ir(a: VaporRoot, b: VaporRoot) -> bool {
    &&& a.templates == b.templates
    &&& a.components == b.components
    &&& a.directives == b.directives
    &&& a.block == b.block
    &&& etm_map(a.element_template_map@) == etm_map(b.element_template_map@)
}

/// What vize lowers a template to (`parse_with_options` with the default
/// options, `transform` for Vapor, `transform_to_ir`), as the library's IR;
/// its element-to-template pairs in some order.
pub uninterp spec fn lowered_ir(source: Seq<char>) -> VaporRoot;

/// Calls vize's `parse_with_options` (default options); when it reports
/// errors, gives their messages ([`vapor_parse_errors`]). Otherwise calls
/// `transform` for Vapor and `transform_to_ir`, and gives the IR converted
/// ([`lowered_ir`]). The element-to-template pairs come from a hash map,
/// each id once, in the order the map is walked: of the order nothing is
/// claimed, only of the map.
#[verifier::external_body]
pub(crate) fn lower(source: &str) -> (r: Result<VaporRoot, Vec<String>>)
    ensures
        (r is Err) == (vapor_parse_errors(source@).len() > 0),
        r matches Err(m) ==> texts(m@) == vapor_parse_errors(source@),
        r matches Ok(root) ==> root.element_ids_distinct() && same_ir(root, lowered_ir(source@)),
{
    let arena = Bump::new();
    let (mut root, errors) = vize_atelier_core::parse_with_options(&arena, source, ParserOptions::default());
    if !errors.is_empty() { return Err(errors.iter().map(|e| e.message.to_string()).collect()); }
    vize_atelier_core::transform(&arena, &mut root, TransformOptions { vapor: true, ..Default::default() }, None);
    let ir = vize_atelier_vapor::transform_to_ir(&arena, &root);
    let lowered = ir_root(&ir);
    Ok(lowered)
}

} // verus!
