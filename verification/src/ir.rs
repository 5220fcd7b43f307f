//! The Vapor intermediate representation of a template, as plain values.
use vstd::prelude::*;

verus! {

/// A simple expression: its source text, and whether it is a static value.
pub struct Expr {
    pub content: String,
    pub is_static: bool,
}

/// A bound property: its key and the expressions of its value.
pub struct Prop {
    pub key: Expr,
    pub values: Vec<Expr>,
    pub is_component: bool,
}

/// One child of a compound directive expression.
pub enum CompoundPart {
    Simple(Expr),
    Text(String),
    /// A child that carries no text of its own.
    Other,
}

/// The expression of a directive.
pub enum DirectiveExp {
    Simple(Expr),
    Compound(Vec<CompoundPart>),
}

/// What kind of component a component node creates.
#[derive(Debug, Clone, Copy, PartialEq, Eq, Structural)]
pub enum ComponentKind {
    Regular,
    Teleport,
    KeepAlive,
    Suspense,
    Dynamic,
}

/// A group of operations that run as one reactive effect.
pub struct Effect {
    pub operations: Vec<Operation>,
}

/// A block: its operations, its effects, and the ids of its root elements.
pub struct Block {
    pub operation: Vec<Operation>,
    pub effect: Vec<Effect>,
    pub returns: Vec<usize>,
}

/// `v-if` / `v-else-if` / `v-else`.
pub struct IfNode {
    pub condition: Expr,
    pub positive: Block,
    pub negative: Option<Negative>,
    pub once: bool,
    pub parent: Option<usize>,
    pub anchor: Option<usize>,
}

/// The branch taken when a condition fails.
pub enum Negative {
    Block(Block),
    If(Box<IfNode>),
}

/// `v-for`.
pub struct ForNode {
    pub source: Expr,
    pub value: Option<Expr>,
    pub key: Option<Expr>,
    pub index: Option<Expr>,
    pub key_prop: Option<Expr>,
    pub render: Block,
    pub once: bool,
    pub parent: Option<usize>,
    pub anchor: Option<usize>,
}

/// A component to create.
pub struct Component {
    pub tag: String,
    pub props: Vec<Prop>,
    pub asset: bool,
    pub once: bool,
    pub dynamic_slots: bool,
    pub kind: ComponentKind,
    pub parent: Option<usize>,
    pub anchor: Option<usize>,
}

/// One operation of a block.
pub enum Operation {
    SetProp { element: usize, prop: Prop, tag: String, camel: bool, prop_modifier: bool },
    SetDynamicProps { element: usize, props: Vec<Expr> },
    SetText { element: usize, values: Vec<Expr> },
    SetEvent { element: usize, key: Expr, value: Option<Expr>, delegate: bool, effect: bool },
    SetHtml { element: usize, value: Expr },
    SetTemplateRef { element: usize, value: Expr },
    InsertNode { elements: Vec<usize>, parent: usize, anchor: Option<usize> },
    PrependNode { elements: Vec<usize>, parent: usize },
    Directive { element: usize, name: String, tag: String, exp: Option<DirectiveExp> },
    If(Box<IfNode>),
    For(Box<ForNode>),
    CreateComponent(Component),
    SlotOutlet { name: Expr, props: Vec<Prop> },
    GetTextChild { parent: usize },
    ChildRef { child_id: usize, parent_id: usize, offset: usize },
    NextRef { child_id: usize, prev_id: usize, offset: usize },
}

/// The lowered template: static HTML templates, the components and
/// directives it uses, its root block, and which template each element id
/// stands for.
pub struct VaporRoot {
    pub templates: Vec<String>,
    pub components: Vec<String>,
    pub directives: Vec<String>,
    pub block: Block,
    pub element_template_map: Vec<(usize, usize)>,
}

impl VaporRoot {
    /// No element id is paired with a template twice, as in the map the
    /// pairs are read from.
    pub open spec fn element_ids_distinct(&self) -> bool {
        forall|i: int, j: int|
            0 <= i < j < self.element_template_map@.len() ==> (#[trigger] self.element_template_map@[i]).0
                != (#[trigger] self.element_template_map@[j]).0
    }
}

} // verus!
