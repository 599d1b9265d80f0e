//! Where a topic stands: file, contract, member and nested blocks.
use crate::domain::path::ProjectPath;
use crate::domain::topic::Topic;
use vstd::prelude::*;

verus! {

/// The annotation of a containing block: the control flow statement whose body
/// the block is, or the annotated block itself.
#[derive(Debug, Clone, Copy, PartialEq, Eq, Structural)]
pub struct BlockAnnotation {
    pub topic: Topic,
    pub kind: BlockAnnotationKind,
}

#[derive(Debug, Clone, Copy, PartialEq, Eq, Structural)]
pub enum BlockAnnotationKind {
    If(ControlFlowBranch),
    For,
    While,
    DoWhile,
    Unchecked,
    InlineAssembly,
}

#[derive(Debug, Clone, Copy, PartialEq, Eq, Structural)]
pub enum ControlFlowBranch {
    True,
    False,
}

/// One layer in the nesting of containing blocks.
#[derive(Debug, Clone, Copy, PartialEq, Eq, Structural)]
pub struct ContainingBlockLayer {
    pub block: Topic,
    pub annotation: Option<BlockAnnotation>,
}

#[derive(Debug)]
pub enum Scope {
    Global,
    Container { container: ProjectPath },
    Component { container: ProjectPath, component: Topic },
    Member {
        container: ProjectPath,
        component: Topic,
        member: Topic,
        /// The list node of the signature that holds the topic, for topics
        /// inside a signature.
        signature_container: Option<Topic>,
    },
    ContainingBlock {
        container: ProjectPath,
        component: Topic,
        member: Topic,
        containing_blocks: Vec<ContainingBlockLayer>,
    },
}

/// What a scope holds.
pub ghost enum ScopeView {
    Global,
    Container { container: Seq<char> },
    Component { container: Seq<char>, component: Topic },
    Member {
        container: Seq<char>,
        component: Topic,
        member: Topic,
        signature_container: Option<Topic>,
    },
    ContainingBlock {
        container: Seq<char>,
        component: Topic,
        member: Topic,
        blocks: Seq<ContainingBlockLayer>,
    },
}

impl View for Scope {
    type V = ScopeView;

    open spec fn view(&self) -> ScopeView {
        match self {
            Scope::Global => ScopeView::Global,
            Scope::Container { container } => ScopeView::Container { container: container@ },
            Scope::Component { container, component } => ScopeView::Component {
                container: container@,
                component: *component,
            },
            Scope::Member { container, component, member, signature_container } =>
                ScopeView::Member {
                container: container@,
                component: *component,
                member: *member,
                signature_container: *signature_container,
            },
            Scope::ContainingBlock { container, component, member, containing_blocks } =>
                ScopeView::ContainingBlock {
                container: container@,
                component: *component,
                member: *member,
                blocks: containing_blocks@,
            },
        }
    }
}

impl ScopeView {
    /// The enclosing topics, outermost first.
    pub open spec fn ancestors(self) -> Seq<Topic> {
        match self {
            ScopeView::Global => seq![],
            ScopeView::Container { .. } => seq![],
            ScopeView::Component { component, .. } => seq![component],
            ScopeView::Member { component, member, .. } => seq![component, member],
            ScopeView::ContainingBlock { component, member, blocks, .. } => seq![component, member]
                + blocks.map_values(|l: ContainingBlockLayer| l.block),
        }
    }

    /// This scope with `topic` as the next level.
    pub open spec fn nested(self, topic: Topic) -> ScopeView {
        match self {
            ScopeView::Global => ScopeView::Global,
            ScopeView::Container { container } => ScopeView::Component {
                container,
                component: topic,
            },
            ScopeView::Component { container, component } => ScopeView::Member {
                container,
                component,
                member: topic,
                signature_container: None,
            },
            ScopeView::Member { container, component, member, .. } => ScopeView::ContainingBlock {
                container,
                component,
                member,
                blocks: seq![ContainingBlockLayer { block: topic, annotation: None }],
            },
            ScopeView::ContainingBlock { container, component, member, blocks } =>
                ScopeView::ContainingBlock {
                container,
                component,
                member,
                blocks: blocks.push(ContainingBlockLayer { block: topic, annotation: None }),
            },
        }
    }

    /// Whether the innermost block can take an annotation.
    pub open spec fn takes_annotation(self) -> bool {
        match self {
            ScopeView::ContainingBlock { blocks, .. } => blocks.len() > 0
                && blocks.last().annotation is None,
            _ => false,
        }
    }

    /// This scope with an annotation on its innermost block.
    pub open spec fn annotated(self, annotation: BlockAnnotation) -> ScopeView {
        match self {
            ScopeView::ContainingBlock { container, component, member, blocks } =>
                ScopeView::ContainingBlock {
                container,
                component,
                member,
                blocks: blocks.update(
                    blocks.len() - 1,
                    ContainingBlockLayer {
                        block: blocks.last().block,
                        annotation: Some(annotation),
                    },
                ),
            },
            _ => self,
        }
    }

    /// This scope with `topic` as its member.
    pub open spec fn with_member(self, topic: Topic) -> ScopeView {
        match self {
            ScopeView::Global => self,
            ScopeView::Container { .. } => self,
            ScopeView::Component { container, component } => ScopeView::Member {
                container,
                component,
                member: topic,
                signature_container: None,
            },
            ScopeView::Member { container, component, .. } => ScopeView::Member {
                container,
                component,
                member: topic,
                signature_container: None,
            },
            ScopeView::ContainingBlock { container, component, .. } => ScopeView::Member {
                container,
                component,
                member: topic,
                signature_container: None,
            },
        }
    }
}

/// Outside the global scope, nesting adds the topic as the innermost ancestor
/// and keeps the others.
pub proof fn nesting_adds_innermost_ancestor(s: ScopeView, topic: Topic)
    requires
        s != ScopeView::Global,
    ensures
        s.nested(topic).ancestors() == s.ancestors().push(topic),
{
    let n = s.nested(topic);
    match s {
        ScopeView::ContainingBlock { component, member, blocks, .. } => {
            let layer = ContainingBlockLayer { block: topic, annotation: None };
            let f = |l: ContainingBlockLayer| l.block;
            assert(blocks.push(layer).map_values(f) =~= blocks.map_values(f).push(topic));
            assert(n.ancestors() =~= s.ancestors().push(topic));
        },
        ScopeView::Member { .. } => {
            assert(n.ancestors() =~= s.ancestors().push(topic));
        },
        _ => {
            assert(n.ancestors() =~= s.ancestors().push(topic));
        },
    }
}

/// An annotation changes no ancestor.
pub proof fn annotating_keeps_ancestors(s: ScopeView, annotation: BlockAnnotation)
    requires
        s.takes_annotation(),
    ensures
        s.annotated(annotation).ancestors() == s.ancestors(),
{
    assert(s.annotated(annotation).ancestors() =~= s.ancestors());
}

/// Of two members set one after the other, the later stays.
pub proof fn later_member_replaces_earlier(s: ScopeView, a: Topic, b: Topic)
    ensures
        s.with_member(a).with_member(b) == s.with_member(b),
{
}

impl Scope {
    /// The enclosing topics, outermost first: the contract, the member and the
    /// containing blocks, as far as the scope has them.
    pub fn ancestor_topics(&self) -> (r: Vec<&Topic>)
        ensures
            r@.len() == self@.ancestors().len(),
            forall|i: int| 0 <= i < r@.len() ==> *(#[trigger] r@[i]) == self@.ancestors()[i],
    {
        match self {
            Scope::Global | Scope::Container { .. } => vec![],
            Scope::Component { component, .. } => vec![component],
            Scope::Member { component, member, .. } => vec![component, member],
            Scope::ContainingBlock { component, member, containing_blocks, .. } => {
                let mut r: Vec<&Topic> = vec![component, member];
                for i in 0..containing_blocks.len()
                    invariant
                        r@.len() == 2 + i,
                        *r@[0] == *component,
                        *r@[1] == *member,
                        forall|j: int|
                            0 <= j < i ==> *(#[trigger] r@[j + 2]) == containing_blocks@[j].block,
                {
                    r.push(&containing_blocks[i].block);
                }
                assert forall|i: int| 0 <= i < r@.len() implies *(#[trigger] r@[i])
                    == self@.ancestors()[i] by {
                    if i >= 2 {
                        assert(*r@[(i - 2) + 2] == containing_blocks@[i - 2].block);
                    }
                }
                r
            },
        }
    }

    /// A scope that holds the same.
    pub fn copy(&self) -> (r: Scope)
        ensures
            r@ == self@,
    {
        match self {
            Scope::Global => Scope::Global,
            Scope::Container { container } => Scope::Container { container: container.copy() },
            Scope::Component { container, component } => Scope::Component {
                container: container.copy(),
                component: *component,
            },
            Scope::Member { container, component, member, signature_container } => Scope::Member {
                container: container.copy(),
                component: *component,
                member: *member,
                signature_container: *signature_container,
            },
            Scope::ContainingBlock { container, component, member, containing_blocks } =>
                Scope::ContainingBlock {
                container: container.copy(),
                component: *component,
                member: *member,
                containing_blocks: copy_layers(containing_blocks),
            },
        }
    }
}

fn copy_layers(layers: &Vec<ContainingBlockLayer>) -> (r: Vec<ContainingBlockLayer>)
    ensures
        r@ == layers@,
{
    let mut r: Vec<ContainingBlockLayer> = Vec::new();
    for i in 0..layers.len()
        invariant
            r@ == layers@.take(i as int),
    {
        assert(layers@.take(i + 1) =~= layers@.take(i as int).push(layers@[i as int]));
        r.push(layers[i]);
    }
    assert(layers@.take(layers@.len() as int) =~= layers@);
    r
}

/// The scope with `topic` as the next level. The global scope cannot be nested.
pub fn add_to_scope(scope: &Scope, topic: Topic) -> (r: Scope)
    ensures
        r@ == scope@.nested(topic),
{
    match scope {
        Scope::Global => Scope::Global,
        Scope::Container { container } => Scope::Component {
            container: container.copy(),
            component: topic,
        },
        Scope::Component { container, component } => Scope::Member {
            container: container.copy(),
            component: *component,
            member: topic,
            signature_container: None,
        },
        Scope::Member { container, component, member, .. } => {
            let containing_blocks = vec![ContainingBlockLayer { block: topic, annotation: None }];
            assert(containing_blocks@ =~= seq![
                ContainingBlockLayer { block: topic, annotation: None },
            ]);
            Scope::ContainingBlock {
                container: container.copy(),
                component: *component,
                member: *member,
                containing_blocks,
            }
        },
        Scope::ContainingBlock { container, component, member, containing_blocks } => {
            let mut containing_blocks = copy_layers(containing_blocks);
            containing_blocks.push(ContainingBlockLayer { block: topic, annotation: None });
            Scope::ContainingBlock {
                container: container.copy(),
                component: *component,
                member: *member,
                containing_blocks,
            }
        },
    }
}

/// Attaches an annotation to the innermost containing block, which has none.
pub fn add_annotation_to_scope(scope: &Scope, annotation: BlockAnnotation) -> (r: Scope)
    requires
        scope@.takes_annotation(),
    ensures
        r@ == scope@.annotated(annotation),
{
    match scope {
        Scope::ContainingBlock { container, component, member, containing_blocks } => {
            let mut containing_blocks = copy_layers(containing_blocks);
            let last: usize = containing_blocks.len() - 1;
            let block = containing_blocks[last].block;
            containing_blocks.set(
                last,
                ContainingBlockLayer { block, annotation: Some(annotation) },
            );
            Scope::ContainingBlock {
                container: container.copy(),
                component: *component,
                member: *member,
                containing_blocks,
            }
        },
        _ => {
            assert(false);
            Scope::Global
        },
    }
}

/// Sets the member of a scope, in place of the one it has. A scope without a
/// component stays as it is.
pub fn set_member(scope: &Scope, topic: Topic) -> (r: Scope)
    ensures
        r@ == scope@.with_member(topic),
{
    match scope {
        Scope::Global => Scope::Global,
        Scope::Container { .. } => scope.copy(),
        Scope::Component { container, component } => Scope::Member {
            container: container.copy(),
            component: *component,
            member: topic,
            signature_container: None,
        },
        Scope::Member { container, component, .. } => Scope::Member {
            container: container.copy(),
            component: *component,
            member: topic,
            signature_container: None,
        },
        Scope::ContainingBlock { container, component, .. } => Scope::Member {
            container: container.copy(),
            component: *component,
            member: topic,
            signature_container: None,
        },
    }
}

/// Sets the signature container of a member scope.
pub fn set_signature_container(scope: &Scope, container: Topic) -> (r: Scope)
    requires
        scope is Member,
    ensures
        match scope@ {
            ScopeView::Member { container: file, component, member, .. } => r@
                == (ScopeView::Member {
                container: file,
                component,
                member,
                signature_container: Some(container),
            }),
            _ => false,
        },
{
    match scope {
        Scope::Member { container: file, component, member, .. } => Scope::Member {
            container: file.copy(),
            component: *component,
            member: *member,
            signature_container: Some(container),
        },
        _ => {
            assert(false);
            Scope::Global
        },
    }
}

} // verus!
