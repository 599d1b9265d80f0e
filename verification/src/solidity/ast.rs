//! Nodes of Solidity syntax trees.
use crate::domain::kinds::{ContractKind, FunctionKind, VariableMutability};
use crate::domain::node::Node;
use crate::domain::path::ProjectPath;
use crate::domain::topic::{new_node_topic, Topic};
use crate::ordered::{lookup, OrderedMap};
use crate::solidity::vocabulary::{AssignmentOperator, BinaryOperator, FunctionStateMutability};
use crate::solidity::vocabulary::{FunctionVisibility, LiteralKind, StorageLocation};
use crate::solidity::vocabulary::{UnaryOperator, VariableVisibility};
use crate::text::{bounded_int_of_text, parse_int, split_on, split_text};
use std::str::FromStr;
use vstd::prelude::*;
use vstd::string::*;

verus! {

/// The syntax tree of one Solidity file.
#[derive(Debug)]
pub struct SolidityAST {
    pub node_id: i32,
    pub nodes: Vec<ASTNode>,
    pub project_path: ProjectPath,
}

/// A stretch of a source file. A part that is unknown is absent.
#[derive(Debug, Clone, Copy, PartialEq, Eq, Hash, Structural)]
pub struct SourceLocation {
    pub start: Option<usize>,
    pub length: Option<usize>,
    pub index: Option<usize>,
}

impl Default for SourceLocation {
    fn default() -> (r: Self)
        ensures
            r == (SourceLocation { start: None, length: None, index: None }),
    {
        SourceLocation { start: None, length: None, index: None }
    }
}

/// The number that part `k` of a location holds.
pub open spec fn location_part(s: Seq<char>, k: int) -> Option<int> {
    if k < split_text(s, ':').len() {
        bounded_int_of_text(split_text(s, ':')[k], isize::MIN as int, isize::MAX as int)
    } else {
        None
    }
}

/// A part of a location that is below zero is unknown.
pub open spec fn known_part(n: int) -> Option<usize> {
    if n < 0 {
        None
    } else {
        Some(n as usize)
    }
}

/// The location that a text denotes: start, length and file index, with a colon
/// between them. Further parts do not count.
pub open spec fn location_of_text(s: Seq<char>) -> Option<SourceLocation> {
    match (location_part(s, 0), location_part(s, 1), location_part(s, 2)) {
        (Some(start), Some(length), Some(index)) => Some(
            SourceLocation {
                start: known_part(start),
                length: known_part(length),
                index: known_part(index),
            },
        ),
        _ => None,
    }
}

fn parse_part(parts: &Vec<String>, k: usize) -> (r: Option<Option<usize>>)
    ensures
        ({
            let n = if k < parts@.len() {
                bounded_int_of_text(parts@[k as int]@, isize::MIN as int, isize::MAX as int)
            } else {
                None
            };
            match r {
                Some(p) => n is Some && p == known_part(n->0),
                None => n is None,
            }
        }),
{
    if k >= parts.len() {
        return None;
    }
    match parse_int(parts[k].as_str(), isize::MIN as i128, isize::MAX as i128) {
        None => None,
        Some(n) => if n < 0 {
            Some(None)
        } else {
            Some(Some(n as usize))
        },
    }
}

impl SourceLocation {
    /// Reads a location.
    pub fn parse_str(s: &str) -> (r: Result<SourceLocation, String>)
        ensures
            match r {
                Ok(l) => location_of_text(s@) == Some(l),
                Err(m) => location_of_text(s@) is None && m@ == s@ + " invalid source location"@,
            },
    {
        let parts = split_on(s, ':');
        let start = parse_part(&parts, 0);
        let length = parse_part(&parts, 1);
        let index = parse_part(&parts, 2);
        assert(forall|k: int|
            0 <= k < parts@.len() ==> #[trigger] parts@[k]@ == split_text(s@, ':')[k]);
        match (start, length, index) {
            (Some(start), Some(length), Some(index)) => Ok(
                SourceLocation { start, length, index },
            ),
            _ => {
                let mut m = s.to_owned();
                m.append(" invalid source location");
                Err(m)
            },
        }
    }
}

impl FromStr for SourceLocation {
    type Err = String;

    fn from_str(s: &str) -> (r: Result<Self, String>)
        ensures
            match r {
                Ok(l) => location_of_text(s@) == Some(l),
                Err(m) => location_of_text(s@) is None && m@ == s@ + " invalid source location"@,
            },
    {
        SourceLocation::parse_str(s)
    }
}

#[derive(Debug)]
pub struct TypeDescriptions {
    pub type_identifier: String,
    pub type_string: String,
}

/// What kind of node a stub stands for, as far as rendering asks.
#[derive(Debug)]
pub enum StubKind {
    /// An identifier, with the topic of the declaration that it refers to.
    Identifier { referenced_topic: Topic },
    /// A member access, with the kind of its base.
    MemberAccess { base_kind: Box<StubKind> },
    /// A conversion, with the kind and the topic of its argument.
    TypeConversion { argument_kind: Box<StubKind>, argument_topic: Topic },
    Literal,
    Declaration,
    /// An expression that wraps another, with the kind of that one.
    CompoundExpression { expression_kind: Box<StubKind> },
    Other,
}

impl StubKind {
    /// Whether the kind at the core, below accesses, conversions and calls, is an
    /// identifier or a literal.
    pub open spec fn identifier_like(self) -> bool
        decreases self,
    {
        match self {
            StubKind::Identifier { .. } => true,
            StubKind::Literal => true,
            StubKind::TypeConversion { argument_kind, .. } => argument_kind.identifier_like(),
            StubKind::MemberAccess { base_kind } => base_kind.identifier_like(),
            StubKind::CompoundExpression { expression_kind } => expression_kind.identifier_like(),
            StubKind::Declaration => false,
            StubKind::Other => false,
        }
    }

    /// The topic that a placeholder for this kind targets.
    pub open spec fn placeholder(self) -> Option<Topic>
        decreases self,
    {
        match self {
            StubKind::Identifier { referenced_topic } => Some(referenced_topic),
            StubKind::MemberAccess { base_kind } => base_kind.placeholder(),
            StubKind::TypeConversion { argument_topic, .. } => Some(argument_topic),
            StubKind::CompoundExpression { expression_kind } => expression_kind.placeholder(),
            _ => None,
        }
    }

    /// Whether this kind counts as an identifier for placeholders.
    pub fn is_identifier_like(&self) -> (r: bool)
        ensures
            r == self.identifier_like(),
        decreases self,
    {
        match self {
            StubKind::Identifier { .. } => true,
            StubKind::Literal => true,
            StubKind::TypeConversion { argument_kind, .. } => argument_kind.is_identifier_like(),
            StubKind::MemberAccess { base_kind } => base_kind.is_identifier_like(),
            StubKind::CompoundExpression { expression_kind } =>
                expression_kind.is_identifier_like(),
            StubKind::Declaration => false,
            StubKind::Other => false,
        }
    }

    /// The topic to use for a placeholder, if the kind carries one.
    pub fn placeholder_topic(&self) -> (r: Option<&Topic>)
        ensures
            r is Some == self.placeholder() is Some,
            r is Some ==> *r->0 == self.placeholder()->0,
        decreases self,
    {
        match self {
            StubKind::Identifier { referenced_topic } => Some(referenced_topic),
            StubKind::MemberAccess { base_kind } => base_kind.placeholder_topic(),
            StubKind::TypeConversion { argument_topic, .. } => Some(argument_topic),
            StubKind::CompoundExpression { expression_kind } =>
                expression_kind.placeholder_topic(),
            _ => None,
        }
    }
}

pub open spec fn pointees(s: Seq<&ASTNode>) -> Seq<ASTNode> {
    s.map_values(|n: &ASTNode| *n)
}

pub open spec fn opt_node(n: Option<Box<ASTNode>>) -> Seq<ASTNode> {
    match n {
        Some(n) => seq![*n],
        None => seq![],
    }
}

pub open spec fn opt_nodes(n: Option<Vec<ASTNode>>) -> Seq<ASTNode> {
    match n {
        Some(n) => n@,
        None => seq![],
    }
}

/// The node that `node` stands for among `nodes`.
pub open spec fn resolved(node: &ASTNode, nodes: Seq<(Topic, Node)>) -> ASTNode {
    match node {
        ASTNode::Stub { topic, .. } => match lookup(nodes, *topic) {
            Some(Node::Solidity(n)) => n,
            _ => *node,
        },
        _ => *node,
    }
}

pub open spec fn all_resolved(list: Seq<ASTNode>, nodes: Seq<(Topic, Node)>) -> Seq<ASTNode> {
    list.map_values(|n: ASTNode| resolved(&n, nodes))
}

fn push_list<'a>(out: &mut Vec<&'a ASTNode>, list: &'a Vec<ASTNode>)
    ensures
        pointees(final(out)@) == pointees(old(out)@) + list@,
{
    for i in 0..list.len()
        invariant
            pointees(out@) == pointees(old(out)@) + list@.take(i as int),
    {
        let ghost was = out@;
        out.push(&list[i]);
        assert(pointees(out@) =~= pointees(was).push(list@[i as int]));
        assert(pointees(was).push(list@[i as int]) =~= pointees(old(out)@) + list@.take(i + 1));
    }
    assert(list@.take(list@.len() as int) =~= list@);
}

fn push_opt<'a>(out: &mut Vec<&'a ASTNode>, n: &'a Option<Box<ASTNode>>)
    ensures
        pointees(final(out)@) == pointees(old(out)@) + opt_node(*n),
{
    match n {
        Some(n) => {
            out.push(&**n);
            assert(pointees(out@) =~= pointees(old(out)@) + seq![**n]);
        },
        None => {
            assert(pointees(out@) =~= pointees(old(out)@) + seq![]);
        },
    }
}

fn push_opt_list<'a>(out: &mut Vec<&'a ASTNode>, n: &'a Option<Vec<ASTNode>>)
    ensures
        pointees(final(out)@) == pointees(old(out)@) + opt_nodes(*n),
{
    match n {
        Some(n) => {
            push_list(out, n);
        },
        None => {
            assert(pointees(out@) =~= pointees(old(out)@) + seq![]);
        },
    }
}

/// Each node of a list, for change.
fn each_mut<'a>(list: &'a mut [ASTNode]) -> (r: Vec<&'a mut ASTNode>)
    ensures
        r@.len() == old(list)@.len(),
        forall|i: int| 0 <= i < r@.len() ==> *(#[trigger] r@[i]) == old(list)@[i],
        final(list)@.len() == r@.len(),
        forall|i: int| 0 <= i < r@.len() ==> *final(#[trigger] r@[i]) == final(list)@[i],
    decreases old(list)@.len(),
{
    let mut r: Vec<&'a mut ASTNode> = Vec::new();
    let n: usize = list.len();
    if n == 0 {
        return r;
    }
    if n == 1 {
        match list.first_mut() {
            Some(x) => {
                r.push(x);
            },
            None => {},
        }
        return r;
    }
    let (head, tail) = list.split_at_mut(n / 2);
    r = each_mut(head);
    let mut rest = each_mut(tail);
    r.append(&mut rest);
    r
}

impl SolidityAST {
    /// The top-level nodes, with stubs resolved.
    pub fn resolve_nodes<'a>(&'a self, nodes_map: &'a OrderedMap<Topic, Node>) -> (r: Vec<
        &'a ASTNode,
    >)
        ensures
            pointees(r@) == all_resolved(self.nodes@, nodes_map.pairs()),
    {
        let mut r: Vec<&'a ASTNode> = Vec::new();
        for i in 0..self.nodes.len()
            invariant
                r@.len() == i,
                forall|j: int|
                    0 <= j < i ==> *(#[trigger] r@[j]) == resolved(
                        &self.nodes@[j],
                        nodes_map.pairs(),
                    ),
        {
            r.push(self.nodes[i].resolve(nodes_map));
        }
        assert(pointees(r@) =~= all_resolved(self.nodes@, nodes_map.pairs()));
        r
    }
}

/// A node of a Solidity syntax tree.
#[derive(Debug)]
pub enum ASTNode {
    Assignment {
        node_id: i32,
        src_location: SourceLocation,
        operator: AssignmentOperator,
        right_hand_side: Box<ASTNode>,
        left_hand_side: Box<ASTNode>,
    },
    BinaryOperation {
        node_id: i32,
        src_location: SourceLocation,
        left_expression: Box<ASTNode>,
        operator: BinaryOperator,
        right_expression: Box<ASTNode>,
        type_descriptions: TypeDescriptions,
    },
    Conditional {
        node_id: i32,
        src_location: SourceLocation,
        condition: Box<ASTNode>,
        true_expression: Box<ASTNode>,
        false_expression: Option<Box<ASTNode>>,
    },
    ElementaryTypeNameExpression {
        node_id: i32,
        src_location: SourceLocation,
        type_descriptions: TypeDescriptions,
        type_node: Box<ASTNode>,
    },
    FunctionCall {
        node_id: i32,
        src_location: SourceLocation,
        arguments: Vec<ASTNode>,
        expression: Box<ASTNode>,
        name_locations: Vec<SourceLocation>,
        names: Vec<String>,
        try_call: bool,
        type_descriptions: TypeDescriptions,
        referenced_return_declarations: Vec<i32>,
    },
    /// A call argument together with the parameter it maps to, where that is known.
    Argument {
        node_id: i32,
        src_location: SourceLocation,
        parameter: Option<Box<ASTNode>>,
        argument: Box<ASTNode>,
    },
    TypeConversion {
        node_id: i32,
        src_location: SourceLocation,
        argument: Box<ASTNode>,
        expression: Box<ASTNode>,
        name_locations: Vec<SourceLocation>,
        names: Vec<String>,
        try_call: bool,
        type_descriptions: TypeDescriptions,
    },
    StructConstructor {
        node_id: i32,
        src_location: SourceLocation,
        arguments: Vec<ASTNode>,
        expression: Box<ASTNode>,
        name_locations: Vec<SourceLocation>,
        names: Vec<String>,
        try_call: bool,
        type_descriptions: TypeDescriptions,
    },
    FunctionCallOptions {
        node_id: i32,
        src_location: SourceLocation,
        expression: Box<ASTNode>,
        options: Vec<ASTNode>,
    },
    Identifier {
        node_id: i32,
        src_location: SourceLocation,
        name: String,
        overloaded_declarations: Vec<i32>,
        referenced_declaration: i32,
    },
    IdentifierPath {
        node_id: i32,
        src_location: SourceLocation,
        name: String,
        name_locations: Vec<SourceLocation>,
        referenced_declaration: i32,
    },
    IndexAccess {
        node_id: i32,
        src_location: SourceLocation,
        base_expression: Box<ASTNode>,
        index_expression: Option<Box<ASTNode>>,
    },
    IndexRangeAccess {
        node_id: i32,
        src_location: SourceLocation,
        nodes: Vec<ASTNode>,
        body: Option<Box<ASTNode>>,
    },
    Literal {
        node_id: i32,
        src_location: SourceLocation,
        hex_value: String,
        kind: LiteralKind,
        type_descriptions: TypeDescriptions,
        value: Option<String>,
    },
    MemberAccess {
        node_id: i32,
        src_location: SourceLocation,
        expression: Box<ASTNode>,
        member_location: SourceLocation,
        member_name: String,
        referenced_declaration: Option<i32>,
        type_descriptions: TypeDescriptions,
    },
    NewExpression {
        node_id: i32,
        src_location: SourceLocation,
        type_node: Box<ASTNode>,
    },
    TupleExpression {
        node_id: i32,
        src_location: SourceLocation,
        components: Vec<ASTNode>,
    },
    UnaryOperation {
        node_id: i32,
        src_location: SourceLocation,
        prefix: bool,
        operator: UnaryOperator,
        sub_expression: Box<ASTNode>,
    },
    EnumValue {
        node_id: i32,
        src_location: SourceLocation,
        name: String,
        name_location: SourceLocation,
    },
    Block {
        node_id: i32,
        src_location: SourceLocation,
        statements: Vec<ASTNode>,
    },
    SemanticBlock {
        node_id: i32,
        src_location: SourceLocation,
        documentation: Option<String>,
        statements: Vec<ASTNode>,
    },
    /// Contract members that share a leading comment. Introduces no scope.
    ContractMemberGroup {
        node_id: i32,
        src_location: SourceLocation,
        documentation: Option<String>,
        members: Vec<ASTNode>,
    },
    Break {
        node_id: i32,
        src_location: SourceLocation,
    },
    Continue {
        node_id: i32,
        src_location: SourceLocation,
    },
    DoWhileStatement {
        node_id: i32,
        src_location: SourceLocation,
        condition: Box<ASTNode>,
        body: Option<Box<ASTNode>>,
    },
    EmitStatement {
        node_id: i32,
        src_location: SourceLocation,
        event_call: Box<ASTNode>,
    },
    ExpressionStatement {
        node_id: i32,
        src_location: SourceLocation,
        expression: Box<ASTNode>,
    },
    ForStatement {
        node_id: i32,
        src_location: SourceLocation,
        condition: Box<ASTNode>,
        body: Box<ASTNode>,
    },
    /// The clauses of a `for` loop.
    LoopExpression {
        node_id: i32,
        src_location: SourceLocation,
        initialization_expression: Option<Box<ASTNode>>,
        condition: Option<Box<ASTNode>>,
        loop_expression: Option<Box<ASTNode>>,
        is_simple_counter_loop: bool,
    },
    IfStatement {
        node_id: i32,
        src_location: SourceLocation,
        condition: Box<ASTNode>,
        true_body: Box<ASTNode>,
        false_body: Option<Box<ASTNode>>,
    },
    InlineAssembly {
        node_id: i32,
        src_location: SourceLocation,
    },
    PlaceholderStatement {
        node_id: i32,
        src_location: SourceLocation,
    },
    Return {
        node_id: i32,
        src_location: SourceLocation,
        expression: Option<Box<ASTNode>>,
        function_return_parameters: i32,
    },
    RevertStatement {
        node_id: i32,
        src_location: SourceLocation,
        error_call: Box<ASTNode>,
    },
    TryStatement {
        node_id: i32,
        src_location: SourceLocation,
        clauses: Vec<ASTNode>,
        external_call: Box<ASTNode>,
    },
    UncheckedBlock {
        node_id: i32,
        src_location: SourceLocation,
        statements: Vec<ASTNode>,
    },
    VariableDeclarationStatement {
        node_id: i32,
        src_location: SourceLocation,
        declarations: Vec<ASTNode>,
        initial_value: Option<Box<ASTNode>>,
    },
    WhileStatement {
        node_id: i32,
        src_location: SourceLocation,
        condition: Box<ASTNode>,
        body: Option<Box<ASTNode>>,
    },
    ContractSignature {
        node_id: i32,
        src_location: SourceLocation,
        documentation: Option<Box<ASTNode>>,
        name: String,
        name_location: SourceLocation,
        declaration_id: i32,
        contract_kind: ContractKind,
        abstract_: bool,
        base_contracts: Vec<ASTNode>,
        directives: Vec<ASTNode>,
    },
    FunctionSignature {
        node_id: i32,
        src_location: SourceLocation,
        documentation: Option<Box<ASTNode>>,
        kind: FunctionKind,
        modifiers: Box<ASTNode>,
        name: String,
        name_location: SourceLocation,
        declaration_id: i32,
        parameters: Box<ASTNode>,
        return_parameters: Box<ASTNode>,
        scope: i32,
        state_mutability: FunctionStateMutability,
        virtual_: bool,
        visibility: FunctionVisibility,
        implementation_declaration: Option<i32>,
    },
    ModifierSignature {
        node_id: i32,
        src_location: SourceLocation,
        documentation: Option<Box<ASTNode>>,
        name: String,
        name_location: SourceLocation,
        declaration_id: i32,
        parameters: Box<ASTNode>,
        virtual_: bool,
        visibility: FunctionVisibility,
        implementation_declaration: Option<i32>,
    },
    ContractDefinition {
        node_id: i32,
        src_location: SourceLocation,
        signature: Box<ASTNode>,
        nodes: Vec<ASTNode>,
    },
    FunctionDefinition {
        node_id: i32,
        src_location: SourceLocation,
        signature: Box<ASTNode>,
        implemented: bool,
        body: Option<Box<ASTNode>>,
    },
    EventDefinition {
        node_id: i32,
        src_location: SourceLocation,
        name: String,
        name_location: SourceLocation,
        parameters: Box<ASTNode>,
    },
    ErrorDefinition {
        node_id: i32,
        src_location: SourceLocation,
        name: String,
        name_location: SourceLocation,
        parameters: Box<ASTNode>,
    },
    ModifierDefinition {
        node_id: i32,
        src_location: SourceLocation,
        signature: Box<ASTNode>,
        body: Box<ASTNode>,
    },
    StructDefinition {
        node_id: i32,
        src_location: SourceLocation,
        members: Vec<ASTNode>,
        canonical_name: String,
        name: String,
        name_location: SourceLocation,
        visibility: VariableVisibility,
    },
    EnumDefinition {
        node_id: i32,
        src_location: SourceLocation,
        members: Vec<ASTNode>,
        canonical_name: String,
        name: String,
        name_location: SourceLocation,
    },
    UserDefinedValueTypeDefinition {
        node_id: i32,
        src_location: SourceLocation,
        name: String,
        underlying_type: Box<ASTNode>,
    },
    VariableDeclaration {
        node_id: i32,
        src_location: SourceLocation,
        constant: bool,
        function_selector: Option<String>,
        mutability: VariableMutability,
        name: String,
        name_location: SourceLocation,
        scope: i32,
        state_variable: bool,
        storage_location: StorageLocation,
        type_node: Box<ASTNode>,
        value: Option<Box<ASTNode>>,
        visibility: VariableVisibility,
        parameter_variable: Option<i32>,
        implementation_declaration: Option<i32>,
        base_functions: Vec<i32>,
        struct_field: bool,
    },
    PragmaDirective {
        node_id: i32,
        src_location: SourceLocation,
        literals: Vec<String>,
    },
    ImportDirective {
        node_id: i32,
        src_location: SourceLocation,
        absolute_path: String,
        file: String,
        source_unit: i32,
    },
    UsingForDirective {
        node_id: i32,
        src_location: SourceLocation,
        global: bool,
        library_name: Option<Box<ASTNode>>,
        type_node: Option<Box<ASTNode>>,
    },
    SourceUnit {
        node_id: i32,
        src_location: SourceLocation,
        nodes: Vec<ASTNode>,
    },
    InheritanceSpecifier {
        node_id: i32,
        src_location: SourceLocation,
        base_name: Box<ASTNode>,
    },
    ElementaryTypeName {
        node_id: i32,
        src_location: SourceLocation,
        name: String,
    },
    FunctionTypeName {
        node_id: i32,
        src_location: SourceLocation,
        parameter_types: Box<ASTNode>,
        return_parameter_types: Box<ASTNode>,
        state_mutability: FunctionStateMutability,
        visibility: FunctionVisibility,
    },
    ParameterList {
        node_id: i32,
        src_location: SourceLocation,
        parameters: Vec<ASTNode>,
        is_return_parameters: bool,
    },
    ModifierList {
        node_id: i32,
        src_location: SourceLocation,
        modifiers: Vec<ASTNode>,
    },
    TryCatchClause {
        node_id: i32,
        src_location: SourceLocation,
        error_name: String,
        block: Box<ASTNode>,
        parameters: Option<Box<ASTNode>>,
    },
    ModifierInvocation {
        node_id: i32,
        src_location: SourceLocation,
        modifier_name: Box<ASTNode>,
        arguments: Option<Vec<ASTNode>>,
    },
    UserDefinedTypeName {
        node_id: i32,
        src_location: SourceLocation,
        path_node: Box<ASTNode>,
        referenced_declaration: i32,
    },
    ArrayTypeName {
        node_id: i32,
        src_location: SourceLocation,
        base_type: Box<ASTNode>,
    },
    Mapping {
        node_id: i32,
        src_location: SourceLocation,
        key_name: Option<String>,
        key_name_location: SourceLocation,
        key_type: Box<ASTNode>,
        value_name: Option<String>,
        value_name_location: SourceLocation,
        value_type: Box<ASTNode>,
    },
    StructuredDocumentation {
        node_id: i32,
        src_location: SourceLocation,
        text: String,
    },
    /// Stands for another node, which the nodes map holds.
    Stub {
        node_id: i32,
        src_location: SourceLocation,
        topic: Topic,
        kind: StubKind,
    },
    /// Any node of another type.
    Other {
        node_id: i32,
        src_location: SourceLocation,
        nodes: Vec<ASTNode>,
        body: Option<Box<ASTNode>>,
        node_type: String,
    },
}

/// The direct children of a node, in the order in which they are listed.
pub open spec fn children_of(node: &ASTNode) -> Seq<ASTNode> {
    match node {
        ASTNode::Assignment { right_hand_side, left_hand_side, .. } => seq![**right_hand_side] + seq![**left_hand_side],
        ASTNode::BinaryOperation { left_expression, right_expression, .. } => seq![**left_expression] + seq![**right_expression],
        ASTNode::Conditional { condition, true_expression, false_expression, .. } => seq![**condition] + seq![**true_expression] + opt_node(*false_expression),
        ASTNode::ElementaryTypeNameExpression { type_node, .. } => seq![**type_node],
        ASTNode::FunctionCall { expression, arguments, .. } => seq![**expression] + arguments@,
        ASTNode::Argument { argument, parameter, .. } => seq![**argument] + opt_node(*parameter),
        ASTNode::TypeConversion { expression, argument, .. } => seq![**expression] + seq![**argument],
        ASTNode::StructConstructor { expression, arguments, .. } => seq![**expression] + arguments@,
        ASTNode::FunctionCallOptions { expression, options, .. } => seq![**expression] + options@,
        ASTNode::IndexAccess { base_expression, index_expression, .. } => seq![**base_expression] + opt_node(*index_expression),
        ASTNode::MemberAccess { expression, .. } => seq![**expression],
        ASTNode::NewExpression { type_node, .. } => seq![**type_node],
        ASTNode::TupleExpression { components, .. } => components@,
        ASTNode::UnaryOperation { sub_expression, .. } => seq![**sub_expression],
        ASTNode::Block { statements, .. } => statements@,
        ASTNode::SemanticBlock { statements, .. } => statements@,
        ASTNode::ContractMemberGroup { members, .. } => members@,
        ASTNode::DoWhileStatement { condition, body, .. } => seq![**condition] + opt_node(*body),
        ASTNode::EmitStatement { event_call, .. } => seq![**event_call],
        ASTNode::ExpressionStatement { expression, .. } => seq![**expression],
        ASTNode::ForStatement { condition, body, .. } => seq![**condition] + seq![**body],
        ASTNode::LoopExpression { initialization_expression, condition, loop_expression, .. } => opt_node(*initialization_expression) + opt_node(*condition) + opt_node(*loop_expression),
        ASTNode::IfStatement { condition, true_body, false_body, .. } => seq![**condition] + seq![**true_body] + opt_node(*false_body),
        ASTNode::Return { expression, .. } => opt_node(*expression),
        ASTNode::RevertStatement { error_call, .. } => seq![**error_call],
        ASTNode::TryStatement { external_call, clauses, .. } => seq![**external_call] + clauses@,
        ASTNode::UncheckedBlock { statements, .. } => statements@,
        ASTNode::VariableDeclarationStatement { declarations, initial_value, .. } => declarations@ + opt_node(*initial_value),
        ASTNode::WhileStatement { body, condition, .. } => opt_node(*body) + seq![**condition],
        ASTNode::ContractSignature { documentation, base_contracts, directives, .. } => opt_node(*documentation) + base_contracts@ + directives@,
        ASTNode::FunctionSignature { documentation, modifiers, parameters, return_parameters, .. } => opt_node(*documentation) + seq![**modifiers] + seq![**parameters] + seq![**return_parameters],
        ASTNode::ModifierSignature { documentation, parameters, .. } => opt_node(*documentation) + seq![**parameters],
        ASTNode::ContractDefinition { signature, nodes, .. } => seq![**signature] + nodes@,
        ASTNode::FunctionDefinition { signature, body, .. } => seq![**signature] + opt_node(*body),
        ASTNode::EventDefinition { parameters, .. } => seq![**parameters],
        ASTNode::ErrorDefinition { parameters, .. } => seq![**parameters],
        ASTNode::ModifierDefinition { signature, body, .. } => seq![**signature] + seq![**body],
        ASTNode::StructDefinition { members, .. } => members@,
        ASTNode::EnumDefinition { members, .. } => members@,
        ASTNode::UserDefinedValueTypeDefinition { underlying_type, .. } => seq![**underlying_type],
        ASTNode::VariableDeclaration { type_node, value, .. } => seq![**type_node] + opt_node(*value),
        ASTNode::UsingForDirective { type_node, library_name, .. } => opt_node(*type_node) + opt_node(*library_name),
        ASTNode::SourceUnit { nodes, .. } => nodes@,
        ASTNode::InheritanceSpecifier { base_name, .. } => seq![**base_name],
        ASTNode::FunctionTypeName { parameter_types, return_parameter_types, .. } => seq![**parameter_types] + seq![**return_parameter_types],
        ASTNode::ParameterList { parameters, .. } => parameters@,
        ASTNode::ModifierList { modifiers, .. } => modifiers@,
        ASTNode::TryCatchClause { block, parameters, .. } => seq![**block] + opt_node(*parameters),
        ASTNode::ModifierInvocation { modifier_name, arguments, .. } => seq![**modifier_name] + opt_nodes(*arguments),
        ASTNode::UserDefinedTypeName { path_node, .. } => seq![**path_node],
        ASTNode::ArrayTypeName { base_type, .. } => seq![**base_type],
        ASTNode::Mapping { key_type, value_type, .. } => seq![**key_type] + seq![**value_type],
        ASTNode::IndexRangeAccess { nodes, body, .. } => nodes@ + opt_node(*body),
        ASTNode::Other { nodes, body, .. } => nodes@ + opt_node(*body),
        _ => seq![],
    }
}

/// The direct children of a node, in the order in which they are handed out for
/// change.
pub open spec fn slots_of(node: &ASTNode) -> Seq<ASTNode> {
    match node {
        ASTNode::Assignment { right_hand_side, left_hand_side, .. } => seq![**right_hand_side] + seq![**left_hand_side],
        ASTNode::BinaryOperation { left_expression, right_expression, .. } => seq![**left_expression] + seq![**right_expression],
        ASTNode::Conditional { condition, true_expression, false_expression, .. } => seq![**condition] + seq![**true_expression] + opt_node(*false_expression),
        ASTNode::ElementaryTypeNameExpression { type_node, .. } => seq![**type_node],
        ASTNode::FunctionCall { expression, arguments, .. } => seq![**expression] + arguments@,
        ASTNode::Argument { argument, parameter, .. } => seq![**argument] + opt_node(*parameter),
        ASTNode::TypeConversion { expression, argument, .. } => seq![**expression] + seq![**argument],
        ASTNode::StructConstructor { expression, arguments, .. } => seq![**expression] + arguments@,
        ASTNode::FunctionCallOptions { expression, options, .. } => seq![**expression] + options@,
        ASTNode::IndexAccess { base_expression, index_expression, .. } => seq![**base_expression] + opt_node(*index_expression),
        ASTNode::MemberAccess { expression, .. } => seq![**expression],
        ASTNode::NewExpression { type_node, .. } => seq![**type_node],
        ASTNode::TupleExpression { components, .. } => components@,
        ASTNode::UnaryOperation { sub_expression, .. } => seq![**sub_expression],
        ASTNode::Block { statements, .. } => statements@,
        ASTNode::SemanticBlock { statements, .. } => statements@,
        ASTNode::ContractMemberGroup { members, .. } => members@,
        ASTNode::DoWhileStatement { condition, body, .. } => seq![**condition] + opt_node(*body),
        ASTNode::EmitStatement { event_call, .. } => seq![**event_call],
        ASTNode::ExpressionStatement { expression, .. } => seq![**expression],
        ASTNode::ForStatement { condition, body, .. } => seq![**condition] + seq![**body],
        ASTNode::LoopExpression { initialization_expression, condition, loop_expression, .. } => opt_node(*initialization_expression) + opt_node(*condition) + opt_node(*loop_expression),
        ASTNode::IfStatement { condition, true_body, false_body, .. } => seq![**condition] + seq![**true_body] + opt_node(*false_body),
        ASTNode::Return { expression, .. } => opt_node(*expression),
        ASTNode::RevertStatement { error_call, .. } => seq![**error_call],
        ASTNode::TryStatement { external_call, clauses, .. } => seq![**external_call] + clauses@,
        ASTNode::UncheckedBlock { statements, .. } => statements@,
        ASTNode::VariableDeclarationStatement { declarations, initial_value, .. } => declarations@ + opt_node(*initial_value),
        ASTNode::WhileStatement { condition, body, .. } => seq![**condition] + opt_node(*body),
        ASTNode::ContractSignature { documentation, base_contracts, directives, .. } => opt_node(*documentation) + base_contracts@ + directives@,
        ASTNode::FunctionSignature { documentation, modifiers, parameters, return_parameters, .. } => opt_node(*documentation) + seq![**modifiers] + seq![**parameters] + seq![**return_parameters],
        ASTNode::ModifierSignature { documentation, parameters, .. } => opt_node(*documentation) + seq![**parameters],
        ASTNode::ContractDefinition { signature, nodes, .. } => seq![**signature] + nodes@,
        ASTNode::FunctionDefinition { signature, body, .. } => seq![**signature] + opt_node(*body),
        ASTNode::EventDefinition { parameters, .. } => seq![**parameters],
        ASTNode::ErrorDefinition { parameters, .. } => seq![**parameters],
        ASTNode::ModifierDefinition { signature, body, .. } => seq![**signature] + seq![**body],
        ASTNode::StructDefinition { members, .. } => members@,
        ASTNode::EnumDefinition { members, .. } => members@,
        ASTNode::UserDefinedValueTypeDefinition { underlying_type, .. } => seq![**underlying_type],
        ASTNode::VariableDeclaration { type_node, value, .. } => seq![**type_node] + opt_node(*value),
        ASTNode::UsingForDirective { type_node, library_name, .. } => opt_node(*type_node) + opt_node(*library_name),
        ASTNode::SourceUnit { nodes, .. } => nodes@,
        ASTNode::InheritanceSpecifier { base_name, .. } => seq![**base_name],
        ASTNode::FunctionTypeName { parameter_types, return_parameter_types, .. } => seq![**parameter_types] + seq![**return_parameter_types],
        ASTNode::ParameterList { parameters, .. } => parameters@,
        ASTNode::ModifierList { modifiers, .. } => modifiers@,
        ASTNode::TryCatchClause { block, parameters, .. } => seq![**block] + opt_node(*parameters),
        ASTNode::ModifierInvocation { modifier_name, arguments, .. } => seq![**modifier_name] + opt_nodes(*arguments),
        ASTNode::UserDefinedTypeName { path_node, .. } => seq![**path_node],
        ASTNode::ArrayTypeName { base_type, .. } => seq![**base_type],
        ASTNode::Mapping { key_type, value_type, .. } => seq![**key_type] + seq![**value_type],
        ASTNode::IndexRangeAccess { nodes, body, .. } => nodes@ + opt_node(*body),
        ASTNode::Other { nodes, body, .. } => nodes@ + opt_node(*body),
        _ => seq![],
    }
}

/// Reading and changing a node see the same children in the same order, except
/// that a `while` loop lists its body first for reading.
pub proof fn slots_are_children(node: &ASTNode)
    ensures
        !(node is WhileStatement) ==> slots_of(node) == children_of(node),
        slots_of(node).to_multiset() == children_of(node).to_multiset(),
{
    match node {
        ASTNode::WhileStatement { condition, body, .. } => {
            let c = seq![**condition];
            let b = opt_node(*body);
            vstd::seq_lib::lemma_multiset_commutative(c, b);
            vstd::seq_lib::lemma_multiset_commutative(b, c);
            assert(c.to_multiset().add(b.to_multiset()) =~= b.to_multiset().add(c.to_multiset()));
        },
        _ => {},
    }
}

/// Two nodes agree in all but their children.
pub open spec fn same_frame(a: &ASTNode, b: &ASTNode) -> bool {
    match (a, b) {
        (
            ASTNode::Assignment { node_id: a_node_id, src_location: a_src_location, operator: a_operator, .. },
            ASTNode::Assignment { node_id: b_node_id, src_location: b_src_location, operator: b_operator, .. },
        ) => {
            &&& a_node_id == b_node_id
            &&& a_src_location == b_src_location
            &&& a_operator == b_operator
        },
        (
            ASTNode::BinaryOperation { node_id: a_node_id, src_location: a_src_location, operator: a_operator, type_descriptions: a_type_descriptions, .. },
            ASTNode::BinaryOperation { node_id: b_node_id, src_location: b_src_location, operator: b_operator, type_descriptions: b_type_descriptions, .. },
        ) => {
            &&& a_node_id == b_node_id
            &&& a_src_location == b_src_location
            &&& a_operator == b_operator
            &&& a_type_descriptions == b_type_descriptions
        },
        (
            ASTNode::Conditional { node_id: a_node_id, src_location: a_src_location, false_expression: a_false_expression, .. },
            ASTNode::Conditional { node_id: b_node_id, src_location: b_src_location, false_expression: b_false_expression, .. },
        ) => {
            &&& a_node_id == b_node_id
            &&& a_src_location == b_src_location
            &&& (a_false_expression is Some) == (b_false_expression is Some)
        },
        (
            ASTNode::ElementaryTypeNameExpression { node_id: a_node_id, src_location: a_src_location, type_descriptions: a_type_descriptions, .. },
            ASTNode::ElementaryTypeNameExpression { node_id: b_node_id, src_location: b_src_location, type_descriptions: b_type_descriptions, .. },
        ) => {
            &&& a_node_id == b_node_id
            &&& a_src_location == b_src_location
            &&& a_type_descriptions == b_type_descriptions
        },
        (
            ASTNode::FunctionCall { node_id: a_node_id, src_location: a_src_location, name_locations: a_name_locations, names: a_names, try_call: a_try_call, type_descriptions: a_type_descriptions, referenced_return_declarations: a_referenced_return_declarations, arguments: a_arguments, .. },
            ASTNode::FunctionCall { node_id: b_node_id, src_location: b_src_location, name_locations: b_name_locations, names: b_names, try_call: b_try_call, type_descriptions: b_type_descriptions, referenced_return_declarations: b_referenced_return_declarations, arguments: b_arguments, .. },
        ) => {
            &&& a_node_id == b_node_id
            &&& a_src_location == b_src_location
            &&& a_name_locations == b_name_locations
            &&& a_names == b_names
            &&& a_try_call == b_try_call
            &&& a_type_descriptions == b_type_descriptions
            &&& a_referenced_return_declarations == b_referenced_return_declarations
            &&& a_arguments@.len() == b_arguments@.len()
        },
        (
            ASTNode::Argument { node_id: a_node_id, src_location: a_src_location, parameter: a_parameter, .. },
            ASTNode::Argument { node_id: b_node_id, src_location: b_src_location, parameter: b_parameter, .. },
        ) => {
            &&& a_node_id == b_node_id
            &&& a_src_location == b_src_location
            &&& (a_parameter is Some) == (b_parameter is Some)
        },
        (
            ASTNode::TypeConversion { node_id: a_node_id, src_location: a_src_location, name_locations: a_name_locations, names: a_names, try_call: a_try_call, type_descriptions: a_type_descriptions, .. },
            ASTNode::TypeConversion { node_id: b_node_id, src_location: b_src_location, name_locations: b_name_locations, names: b_names, try_call: b_try_call, type_descriptions: b_type_descriptions, .. },
        ) => {
            &&& a_node_id == b_node_id
            &&& a_src_location == b_src_location
            &&& a_name_locations == b_name_locations
            &&& a_names == b_names
            &&& a_try_call == b_try_call
            &&& a_type_descriptions == b_type_descriptions
        },
        (
            ASTNode::StructConstructor { node_id: a_node_id, src_location: a_src_location, name_locations: a_name_locations, names: a_names, try_call: a_try_call, type_descriptions: a_type_descriptions, arguments: a_arguments, .. },
            ASTNode::StructConstructor { node_id: b_node_id, src_location: b_src_location, name_locations: b_name_locations, names: b_names, try_call: b_try_call, type_descriptions: b_type_descriptions, arguments: b_arguments, .. },
        ) => {
            &&& a_node_id == b_node_id
            &&& a_src_location == b_src_location
            &&& a_name_locations == b_name_locations
            &&& a_names == b_names
            &&& a_try_call == b_try_call
            &&& a_type_descriptions == b_type_descriptions
            &&& a_arguments@.len() == b_arguments@.len()
        },
        (
            ASTNode::FunctionCallOptions { node_id: a_node_id, src_location: a_src_location, options: a_options, .. },
            ASTNode::FunctionCallOptions { node_id: b_node_id, src_location: b_src_location, options: b_options, .. },
        ) => {
            &&& a_node_id == b_node_id
            &&& a_src_location == b_src_location
            &&& a_options@.len() == b_options@.len()
        },
        (
            ASTNode::Identifier { node_id: a_node_id, src_location: a_src_location, name: a_name, overloaded_declarations: a_overloaded_declarations, referenced_declaration: a_referenced_declaration, .. },
            ASTNode::Identifier { node_id: b_node_id, src_location: b_src_location, name: b_name, overloaded_declarations: b_overloaded_declarations, referenced_declaration: b_referenced_declaration, .. },
        ) => {
            &&& a_node_id == b_node_id
            &&& a_src_location == b_src_location
            &&& a_name == b_name
            &&& a_overloaded_declarations == b_overloaded_declarations
            &&& a_referenced_declaration == b_referenced_declaration
        },
        (
            ASTNode::IdentifierPath { node_id: a_node_id, src_location: a_src_location, name: a_name, name_locations: a_name_locations, referenced_declaration: a_referenced_declaration, .. },
            ASTNode::IdentifierPath { node_id: b_node_id, src_location: b_src_location, name: b_name, name_locations: b_name_locations, referenced_declaration: b_referenced_declaration, .. },
        ) => {
            &&& a_node_id == b_node_id
            &&& a_src_location == b_src_location
            &&& a_name == b_name
            &&& a_name_locations == b_name_locations
            &&& a_referenced_declaration == b_referenced_declaration
        },
        (
            ASTNode::IndexAccess { node_id: a_node_id, src_location: a_src_location, index_expression: a_index_expression, .. },
            ASTNode::IndexAccess { node_id: b_node_id, src_location: b_src_location, index_expression: b_index_expression, .. },
        ) => {
            &&& a_node_id == b_node_id
            &&& a_src_location == b_src_location
            &&& (a_index_expression is Some) == (b_index_expression is Some)
        },
        (
            ASTNode::IndexRangeAccess { node_id: a_node_id, src_location: a_src_location, nodes: a_nodes, body: a_body, .. },
            ASTNode::IndexRangeAccess { node_id: b_node_id, src_location: b_src_location, nodes: b_nodes, body: b_body, .. },
        ) => {
            &&& a_node_id == b_node_id
            &&& a_src_location == b_src_location
            &&& (a_body is Some) == (b_body is Some)
            &&& a_nodes@.len() == b_nodes@.len()
        },
        (
            ASTNode::Literal { node_id: a_node_id, src_location: a_src_location, hex_value: a_hex_value, kind: a_kind, type_descriptions: a_type_descriptions, value: a_value, .. },
            ASTNode::Literal { node_id: b_node_id, src_location: b_src_location, hex_value: b_hex_value, kind: b_kind, type_descriptions: b_type_descriptions, value: b_value, .. },
        ) => {
            &&& a_node_id == b_node_id
            &&& a_src_location == b_src_location
            &&& a_hex_value == b_hex_value
            &&& a_kind == b_kind
            &&& a_type_descriptions == b_type_descriptions
            &&& a_value == b_value
        },
        (
            ASTNode::MemberAccess { node_id: a_node_id, src_location: a_src_location, member_location: a_member_location, member_name: a_member_name, referenced_declaration: a_referenced_declaration, type_descriptions: a_type_descriptions, .. },
            ASTNode::MemberAccess { node_id: b_node_id, src_location: b_src_location, member_location: b_member_location, member_name: b_member_name, referenced_declaration: b_referenced_declaration, type_descriptions: b_type_descriptions, .. },
        ) => {
            &&& a_node_id == b_node_id
            &&& a_src_location == b_src_location
            &&& a_member_location == b_member_location
            &&& a_member_name == b_member_name
            &&& a_referenced_declaration == b_referenced_declaration
            &&& a_type_descriptions == b_type_descriptions
        },
        (
            ASTNode::NewExpression { node_id: a_node_id, src_location: a_src_location, .. },
            ASTNode::NewExpression { node_id: b_node_id, src_location: b_src_location, .. },
        ) => {
            &&& a_node_id == b_node_id
            &&& a_src_location == b_src_location
        },
        (
            ASTNode::TupleExpression { node_id: a_node_id, src_location: a_src_location, components: a_components, .. },
            ASTNode::TupleExpression { node_id: b_node_id, src_location: b_src_location, components: b_components, .. },
        ) => {
            &&& a_node_id == b_node_id
            &&& a_src_location == b_src_location
            &&& a_components@.len() == b_components@.len()
        },
        (
            ASTNode::UnaryOperation { node_id: a_node_id, src_location: a_src_location, prefix: a_prefix, operator: a_operator, .. },
            ASTNode::UnaryOperation { node_id: b_node_id, src_location: b_src_location, prefix: b_prefix, operator: b_operator, .. },
        ) => {
            &&& a_node_id == b_node_id
            &&& a_src_location == b_src_location
            &&& a_prefix == b_prefix
            &&& a_operator == b_operator
        },
        (
            ASTNode::EnumValue { node_id: a_node_id, src_location: a_src_location, name: a_name, name_location: a_name_location, .. },
            ASTNode::EnumValue { node_id: b_node_id, src_location: b_src_location, name: b_name, name_location: b_name_location, .. },
        ) => {
            &&& a_node_id == b_node_id
            &&& a_src_location == b_src_location
            &&& a_name == b_name
            &&& a_name_location == b_name_location
        },
        (
            ASTNode::Block { node_id: a_node_id, src_location: a_src_location, statements: a_statements, .. },
            ASTNode::Block { node_id: b_node_id, src_location: b_src_location, statements: b_statements, .. },
        ) => {
            &&& a_node_id == b_node_id
            &&& a_src_location == b_src_location
            &&& a_statements@.len() == b_statements@.len()
        },
        (
            ASTNode::SemanticBlock { node_id: a_node_id, src_location: a_src_location, documentation: a_documentation, statements: a_statements, .. },
            ASTNode::SemanticBlock { node_id: b_node_id, src_location: b_src_location, documentation: b_documentation, statements: b_statements, .. },
        ) => {
            &&& a_node_id == b_node_id
            &&& a_src_location == b_src_location
            &&& a_documentation == b_documentation
            &&& a_statements@.len() == b_statements@.len()
        },
        (
            ASTNode::ContractMemberGroup { node_id: a_node_id, src_location: a_src_location, documentation: a_documentation, members: a_members, .. },
            ASTNode::ContractMemberGroup { node_id: b_node_id, src_location: b_src_location, documentation: b_documentation, members: b_members, .. },
        ) => {
            &&& a_node_id == b_node_id
            &&& a_src_location == b_src_location
            &&& a_documentation == b_documentation
            &&& a_members@.len() == b_members@.len()
        },
        (
            ASTNode::Break { node_id: a_node_id, src_location: a_src_location, .. },
            ASTNode::Break { node_id: b_node_id, src_location: b_src_location, .. },
        ) => {
            &&& a_node_id == b_node_id
            &&& a_src_location == b_src_location
        },
        (
            ASTNode::Continue { node_id: a_node_id, src_location: a_src_location, .. },
            ASTNode::Continue { node_id: b_node_id, src_location: b_src_location, .. },
        ) => {
            &&& a_node_id == b_node_id
            &&& a_src_location == b_src_location
        },
        (
            ASTNode::DoWhileStatement { node_id: a_node_id, src_location: a_src_location, body: a_body, .. },
            ASTNode::DoWhileStatement { node_id: b_node_id, src_location: b_src_location, body: b_body, .. },
        ) => {
            &&& a_node_id == b_node_id
            &&& a_src_location == b_src_location
            &&& (a_body is Some) == (b_body is Some)
        },
        (
            ASTNode::EmitStatement { node_id: a_node_id, src_location: a_src_location, .. },
            ASTNode::EmitStatement { node_id: b_node_id, src_location: b_src_location, .. },
        ) => {
            &&& a_node_id == b_node_id
            &&& a_src_location == b_src_location
        },
        (
            ASTNode::ExpressionStatement { node_id: a_node_id, src_location: a_src_location, .. },
            ASTNode::ExpressionStatement { node_id: b_node_id, src_location: b_src_location, .. },
        ) => {
            &&& a_node_id == b_node_id
            &&& a_src_location == b_src_location
        },
        (
            ASTNode::ForStatement { node_id: a_node_id, src_location: a_src_location, .. },
            ASTNode::ForStatement { node_id: b_node_id, src_location: b_src_location, .. },
        ) => {
            &&& a_node_id == b_node_id
            &&& a_src_location == b_src_location
        },
        (
            ASTNode::LoopExpression { node_id: a_node_id, src_location: a_src_location, is_simple_counter_loop: a_is_simple_counter_loop, initialization_expression: a_initialization_expression, condition: a_condition, loop_expression: a_loop_expression, .. },
            ASTNode::LoopExpression { node_id: b_node_id, src_location: b_src_location, is_simple_counter_loop: b_is_simple_counter_loop, initialization_expression: b_initialization_expression, condition: b_condition, loop_expression: b_loop_expression, .. },
        ) => {
            &&& a_node_id == b_node_id
            &&& a_src_location == b_src_location
            &&& a_is_simple_counter_loop == b_is_simple_counter_loop
            &&& (a_initialization_expression is Some) == (b_initialization_expression is Some)
            &&& (a_condition is Some) == (b_condition is Some)
            &&& (a_loop_expression is Some) == (b_loop_expression is Some)
        },
        (
            ASTNode::IfStatement { node_id: a_node_id, src_location: a_src_location, false_body: a_false_body, .. },
            ASTNode::IfStatement { node_id: b_node_id, src_location: b_src_location, false_body: b_false_body, .. },
        ) => {
            &&& a_node_id == b_node_id
            &&& a_src_location == b_src_location
            &&& (a_false_body is Some) == (b_false_body is Some)
        },
        (
            ASTNode::InlineAssembly { node_id: a_node_id, src_location: a_src_location, .. },
            ASTNode::InlineAssembly { node_id: b_node_id, src_location: b_src_location, .. },
        ) => {
            &&& a_node_id == b_node_id
            &&& a_src_location == b_src_location
        },
        (
            ASTNode::PlaceholderStatement { node_id: a_node_id, src_location: a_src_location, .. },
            ASTNode::PlaceholderStatement { node_id: b_node_id, src_location: b_src_location, .. },
        ) => {
            &&& a_node_id == b_node_id
            &&& a_src_location == b_src_location
        },
        (
            ASTNode::Return { node_id: a_node_id, src_location: a_src_location, function_return_parameters: a_function_return_parameters, expression: a_expression, .. },
            ASTNode::Return { node_id: b_node_id, src_location: b_src_location, function_return_parameters: b_function_return_parameters, expression: b_expression, .. },
        ) => {
            &&& a_node_id == b_node_id
            &&& a_src_location == b_src_location
            &&& a_function_return_parameters == b_function_return_parameters
            &&& (a_expression is Some) == (b_expression is Some)
        },
        (
            ASTNode::RevertStatement { node_id: a_node_id, src_location: a_src_location, .. },
            ASTNode::RevertStatement { node_id: b_node_id, src_location: b_src_location, .. },
        ) => {
            &&& a_node_id == b_node_id
            &&& a_src_location == b_src_location
        },
        (
            ASTNode::TryStatement { node_id: a_node_id, src_location: a_src_location, clauses: a_clauses, .. },
            ASTNode::TryStatement { node_id: b_node_id, src_location: b_src_location, clauses: b_clauses, .. },
        ) => {
            &&& a_node_id == b_node_id
            &&& a_src_location == b_src_location
            &&& a_clauses@.len() == b_clauses@.len()
        },
        (
            ASTNode::UncheckedBlock { node_id: a_node_id, src_location: a_src_location, statements: a_statements, .. },
            ASTNode::UncheckedBlock { node_id: b_node_id, src_location: b_src_location, statements: b_statements, .. },
        ) => {
            &&& a_node_id == b_node_id
            &&& a_src_location == b_src_location
            &&& a_statements@.len() == b_statements@.len()
        },
        (
            ASTNode::VariableDeclarationStatement { node_id: a_node_id, src_location: a_src_location, initial_value: a_initial_value, declarations: a_declarations, .. },
            ASTNode::VariableDeclarationStatement { node_id: b_node_id, src_location: b_src_location, initial_value: b_initial_value, declarations: b_declarations, .. },
        ) => {
            &&& a_node_id == b_node_id
            &&& a_src_location == b_src_location
            &&& (a_initial_value is Some) == (b_initial_value is Some)
            &&& a_declarations@.len() == b_declarations@.len()
        },
        (
            ASTNode::WhileStatement { node_id: a_node_id, src_location: a_src_location, body: a_body, .. },
            ASTNode::WhileStatement { node_id: b_node_id, src_location: b_src_location, body: b_body, .. },
        ) => {
            &&& a_node_id == b_node_id
            &&& a_src_location == b_src_location
            &&& (a_body is Some) == (b_body is Some)
        },
        (
            ASTNode::ContractSignature { node_id: a_node_id, src_location: a_src_location, name: a_name, name_location: a_name_location, declaration_id: a_declaration_id, contract_kind: a_contract_kind, abstract_: a_abstract_, documentation: a_documentation, base_contracts: a_base_contracts, directives: a_directives, .. },
            ASTNode::ContractSignature { node_id: b_node_id, src_location: b_src_location, name: b_name, name_location: b_name_location, declaration_id: b_declaration_id, contract_kind: b_contract_kind, abstract_: b_abstract_, documentation: b_documentation, base_contracts: b_base_contracts, directives: b_directives, .. },
        ) => {
            &&& a_node_id == b_node_id
            &&& a_src_location == b_src_location
            &&& a_name == b_name
            &&& a_name_location == b_name_location
            &&& a_declaration_id == b_declaration_id
            &&& a_contract_kind == b_contract_kind
            &&& a_abstract_ == b_abstract_
            &&& (a_documentation is Some) == (b_documentation is Some)
            &&& a_base_contracts@.len() == b_base_contracts@.len()
            &&& a_directives@.len() == b_directives@.len()
        },
        (
            ASTNode::FunctionSignature { node_id: a_node_id, src_location: a_src_location, kind: a_kind, name: a_name, name_location: a_name_location, declaration_id: a_declaration_id, scope: a_scope, state_mutability: a_state_mutability, virtual_: a_virtual_, visibility: a_visibility, implementation_declaration: a_implementation_declaration, documentation: a_documentation, .. },
            ASTNode::FunctionSignature { node_id: b_node_id, src_location: b_src_location, kind: b_kind, name: b_name, name_location: b_name_location, declaration_id: b_declaration_id, scope: b_scope, state_mutability: b_state_mutability, virtual_: b_virtual_, visibility: b_visibility, implementation_declaration: b_implementation_declaration, documentation: b_documentation, .. },
        ) => {
            &&& a_node_id == b_node_id
            &&& a_src_location == b_src_location
            &&& a_kind == b_kind
            &&& a_name == b_name
            &&& a_name_location == b_name_location
            &&& a_declaration_id == b_declaration_id
            &&& a_scope == b_scope
            &&& a_state_mutability == b_state_mutability
            &&& a_virtual_ == b_virtual_
            &&& a_visibility == b_visibility
            &&& a_implementation_declaration == b_implementation_declaration
            &&& (a_documentation is Some) == (b_documentation is Some)
        },
        (
            ASTNode::ModifierSignature { node_id: a_node_id, src_location: a_src_location, name: a_name, name_location: a_name_location, declaration_id: a_declaration_id, virtual_: a_virtual_, visibility: a_visibility, implementation_declaration: a_implementation_declaration, documentation: a_documentation, .. },
            ASTNode::ModifierSignature { node_id: b_node_id, src_location: b_src_location, name: b_name, name_location: b_name_location, declaration_id: b_declaration_id, virtual_: b_virtual_, visibility: b_visibility, implementation_declaration: b_implementation_declaration, documentation: b_documentation, .. },
        ) => {
            &&& a_node_id == b_node_id
            &&& a_src_location == b_src_location
            &&& a_name == b_name
            &&& a_name_location == b_name_location
            &&& a_declaration_id == b_declaration_id
            &&& a_virtual_ == b_virtual_
            &&& a_visibility == b_visibility
            &&& a_implementation_declaration == b_implementation_declaration
            &&& (a_documentation is Some) == (b_documentation is Some)
        },
        (
            ASTNode::ContractDefinition { node_id: a_node_id, src_location: a_src_location, nodes: a_nodes, .. },
            ASTNode::ContractDefinition { node_id: b_node_id, src_location: b_src_location, nodes: b_nodes, .. },
        ) => {
            &&& a_node_id == b_node_id
            &&& a_src_location == b_src_location
            &&& a_nodes@.len() == b_nodes@.len()
        },
        (
            ASTNode::FunctionDefinition { node_id: a_node_id, src_location: a_src_location, implemented: a_implemented, body: a_body, .. },
            ASTNode::FunctionDefinition { node_id: b_node_id, src_location: b_src_location, implemented: b_implemented, body: b_body, .. },
        ) => {
            &&& a_node_id == b_node_id
            &&& a_src_location == b_src_location
            &&& a_implemented == b_implemented
            &&& (a_body is Some) == (b_body is Some)
        },
        (
            ASTNode::EventDefinition { node_id: a_node_id, src_location: a_src_location, name: a_name, name_location: a_name_location, .. },
            ASTNode::EventDefinition { node_id: b_node_id, src_location: b_src_location, name: b_name, name_location: b_name_location, .. },
        ) => {
            &&& a_node_id == b_node_id
            &&& a_src_location == b_src_location
            &&& a_name == b_name
            &&& a_name_location == b_name_location
        },
        (
            ASTNode::ErrorDefinition { node_id: a_node_id, src_location: a_src_location, name: a_name, name_location: a_name_location, .. },
            ASTNode::ErrorDefinition { node_id: b_node_id, src_location: b_src_location, name: b_name, name_location: b_name_location, .. },
        ) => {
            &&& a_node_id == b_node_id
            &&& a_src_location == b_src_location
            &&& a_name == b_name
            &&& a_name_location == b_name_location
        },
        (
            ASTNode::ModifierDefinition { node_id: a_node_id, src_location: a_src_location, .. },
            ASTNode::ModifierDefinition { node_id: b_node_id, src_location: b_src_location, .. },
        ) => {
            &&& a_node_id == b_node_id
            &&& a_src_location == b_src_location
        },
        (
            ASTNode::StructDefinition { node_id: a_node_id, src_location: a_src_location, canonical_name: a_canonical_name, name: a_name, name_location: a_name_location, visibility: a_visibility, members: a_members, .. },
            ASTNode::StructDefinition { node_id: b_node_id, src_location: b_src_location, canonical_name: b_canonical_name, name: b_name, name_location: b_name_location, visibility: b_visibility, members: b_members, .. },
        ) => {
            &&& a_node_id == b_node_id
            &&& a_src_location == b_src_location
            &&& a_canonical_name == b_canonical_name
            &&& a_name == b_name
            &&& a_name_location == b_name_location
            &&& a_visibility == b_visibility
            &&& a_members@.len() == b_members@.len()
        },
        (
            ASTNode::EnumDefinition { node_id: a_node_id, src_location: a_src_location, canonical_name: a_canonical_name, name: a_name, name_location: a_name_location, members: a_members, .. },
            ASTNode::EnumDefinition { node_id: b_node_id, src_location: b_src_location, canonical_name: b_canonical_name, name: b_name, name_location: b_name_location, members: b_members, .. },
        ) => {
            &&& a_node_id == b_node_id
            &&& a_src_location == b_src_location
            &&& a_canonical_name == b_canonical_name
            &&& a_name == b_name
            &&& a_name_location == b_name_location
            &&& a_members@.len() == b_members@.len()
        },
        (
            ASTNode::UserDefinedValueTypeDefinition { node_id: a_node_id, src_location: a_src_location, name: a_name, .. },
            ASTNode::UserDefinedValueTypeDefinition { node_id: b_node_id, src_location: b_src_location, name: b_name, .. },
        ) => {
            &&& a_node_id == b_node_id
            &&& a_src_location == b_src_location
            &&& a_name == b_name
        },
        (
            ASTNode::VariableDeclaration { node_id: a_node_id, src_location: a_src_location, constant: a_constant, function_selector: a_function_selector, mutability: a_mutability, name: a_name, name_location: a_name_location, scope: a_scope, state_variable: a_state_variable, storage_location: a_storage_location, visibility: a_visibility, parameter_variable: a_parameter_variable, implementation_declaration: a_implementation_declaration, base_functions: a_base_functions, struct_field: a_struct_field, value: a_value, .. },
            ASTNode::VariableDeclaration { node_id: b_node_id, src_location: b_src_location, constant: b_constant, function_selector: b_function_selector, mutability: b_mutability, name: b_name, name_location: b_name_location, scope: b_scope, state_variable: b_state_variable, storage_location: b_storage_location, visibility: b_visibility, parameter_variable: b_parameter_variable, implementation_declaration: b_implementation_declaration, base_functions: b_base_functions, struct_field: b_struct_field, value: b_value, .. },
        ) => {
            &&& a_node_id == b_node_id
            &&& a_src_location == b_src_location
            &&& a_constant == b_constant
            &&& a_function_selector == b_function_selector
            &&& a_mutability == b_mutability
            &&& a_name == b_name
            &&& a_name_location == b_name_location
            &&& a_scope == b_scope
            &&& a_state_variable == b_state_variable
            &&& a_storage_location == b_storage_location
            &&& a_visibility == b_visibility
            &&& a_parameter_variable == b_parameter_variable
            &&& a_implementation_declaration == b_implementation_declaration
            &&& a_base_functions == b_base_functions
            &&& a_struct_field == b_struct_field
            &&& (a_value is Some) == (b_value is Some)
        },
        (
            ASTNode::PragmaDirective { node_id: a_node_id, src_location: a_src_location, literals: a_literals, .. },
            ASTNode::PragmaDirective { node_id: b_node_id, src_location: b_src_location, literals: b_literals, .. },
        ) => {
            &&& a_node_id == b_node_id
            &&& a_src_location == b_src_location
            &&& a_literals == b_literals
        },
        (
            ASTNode::ImportDirective { node_id: a_node_id, src_location: a_src_location, absolute_path: a_absolute_path, file: a_file, source_unit: a_source_unit, .. },
            ASTNode::ImportDirective { node_id: b_node_id, src_location: b_src_location, absolute_path: b_absolute_path, file: b_file, source_unit: b_source_unit, .. },
        ) => {
            &&& a_node_id == b_node_id
            &&& a_src_location == b_src_location
            &&& a_absolute_path == b_absolute_path
            &&& a_file == b_file
            &&& a_source_unit == b_source_unit
        },
        (
            ASTNode::UsingForDirective { node_id: a_node_id, src_location: a_src_location, global: a_global, type_node: a_type_name, library_name: a_library_name, .. },
            ASTNode::UsingForDirective { node_id: b_node_id, src_location: b_src_location, global: b_global, type_node: b_type_name, library_name: b_library_name, .. },
        ) => {
            &&& a_node_id == b_node_id
            &&& a_src_location == b_src_location
            &&& a_global == b_global
            &&& (a_type_name is Some) == (b_type_name is Some)
            &&& (a_library_name is Some) == (b_library_name is Some)
        },
        (
            ASTNode::SourceUnit { node_id: a_node_id, src_location: a_src_location, nodes: a_nodes, .. },
            ASTNode::SourceUnit { node_id: b_node_id, src_location: b_src_location, nodes: b_nodes, .. },
        ) => {
            &&& a_node_id == b_node_id
            &&& a_src_location == b_src_location
            &&& a_nodes@.len() == b_nodes@.len()
        },
        (
            ASTNode::InheritanceSpecifier { node_id: a_node_id, src_location: a_src_location, .. },
            ASTNode::InheritanceSpecifier { node_id: b_node_id, src_location: b_src_location, .. },
        ) => {
            &&& a_node_id == b_node_id
            &&& a_src_location == b_src_location
        },
        (
            ASTNode::ElementaryTypeName { node_id: a_node_id, src_location: a_src_location, name: a_name, .. },
            ASTNode::ElementaryTypeName { node_id: b_node_id, src_location: b_src_location, name: b_name, .. },
        ) => {
            &&& a_node_id == b_node_id
            &&& a_src_location == b_src_location
            &&& a_name == b_name
        },
        (
            ASTNode::FunctionTypeName { node_id: a_node_id, src_location: a_src_location, state_mutability: a_state_mutability, visibility: a_visibility, .. },
            ASTNode::FunctionTypeName { node_id: b_node_id, src_location: b_src_location, state_mutability: b_state_mutability, visibility: b_visibility, .. },
        ) => {
            &&& a_node_id == b_node_id
            &&& a_src_location == b_src_location
            &&& a_state_mutability == b_state_mutability
            &&& a_visibility == b_visibility
        },
        (
            ASTNode::ParameterList { node_id: a_node_id, src_location: a_src_location, is_return_parameters: a_is_return_parameters, parameters: a_parameters, .. },
            ASTNode::ParameterList { node_id: b_node_id, src_location: b_src_location, is_return_parameters: b_is_return_parameters, parameters: b_parameters, .. },
        ) => {
            &&& a_node_id == b_node_id
            &&& a_src_location == b_src_location
            &&& a_is_return_parameters == b_is_return_parameters
            &&& a_parameters@.len() == b_parameters@.len()
        },
        (
            ASTNode::ModifierList { node_id: a_node_id, src_location: a_src_location, modifiers: a_modifiers, .. },
            ASTNode::ModifierList { node_id: b_node_id, src_location: b_src_location, modifiers: b_modifiers, .. },
        ) => {
            &&& a_node_id == b_node_id
            &&& a_src_location == b_src_location
            &&& a_modifiers@.len() == b_modifiers@.len()
        },
        (
            ASTNode::TryCatchClause { node_id: a_node_id, src_location: a_src_location, error_name: a_error_name, parameters: a_parameters, .. },
            ASTNode::TryCatchClause { node_id: b_node_id, src_location: b_src_location, error_name: b_error_name, parameters: b_parameters, .. },
        ) => {
            &&& a_node_id == b_node_id
            &&& a_src_location == b_src_location
            &&& a_error_name == b_error_name
            &&& (a_parameters is Some) == (b_parameters is Some)
        },
        (
            ASTNode::ModifierInvocation { node_id: a_node_id, src_location: a_src_location, arguments: a_arguments, .. },
            ASTNode::ModifierInvocation { node_id: b_node_id, src_location: b_src_location, arguments: b_arguments, .. },
        ) => {
            &&& a_node_id == b_node_id
            &&& a_src_location == b_src_location
            &&& (a_arguments is Some) == (b_arguments is Some)
            &&& (a_arguments is Some ==> a_arguments->0@.len() == b_arguments->0@.len())
        },
        (
            ASTNode::UserDefinedTypeName { node_id: a_node_id, src_location: a_src_location, referenced_declaration: a_referenced_declaration, .. },
            ASTNode::UserDefinedTypeName { node_id: b_node_id, src_location: b_src_location, referenced_declaration: b_referenced_declaration, .. },
        ) => {
            &&& a_node_id == b_node_id
            &&& a_src_location == b_src_location
            &&& a_referenced_declaration == b_referenced_declaration
        },
        (
            ASTNode::ArrayTypeName { node_id: a_node_id, src_location: a_src_location, .. },
            ASTNode::ArrayTypeName { node_id: b_node_id, src_location: b_src_location, .. },
        ) => {
            &&& a_node_id == b_node_id
            &&& a_src_location == b_src_location
        },
        (
            ASTNode::Mapping { node_id: a_node_id, src_location: a_src_location, key_name: a_key_name, key_name_location: a_key_name_location, value_name: a_value_name, value_name_location: a_value_name_location, .. },
            ASTNode::Mapping { node_id: b_node_id, src_location: b_src_location, key_name: b_key_name, key_name_location: b_key_name_location, value_name: b_value_name, value_name_location: b_value_name_location, .. },
        ) => {
            &&& a_node_id == b_node_id
            &&& a_src_location == b_src_location
            &&& a_key_name == b_key_name
            &&& a_key_name_location == b_key_name_location
            &&& a_value_name == b_value_name
            &&& a_value_name_location == b_value_name_location
        },
        (
            ASTNode::StructuredDocumentation { node_id: a_node_id, src_location: a_src_location, text: a_text, .. },
            ASTNode::StructuredDocumentation { node_id: b_node_id, src_location: b_src_location, text: b_text, .. },
        ) => {
            &&& a_node_id == b_node_id
            &&& a_src_location == b_src_location
            &&& a_text == b_text
        },
        (
            ASTNode::Stub { node_id: a_node_id, src_location: a_src_location, topic: a_topic, kind: a_kind, .. },
            ASTNode::Stub { node_id: b_node_id, src_location: b_src_location, topic: b_topic, kind: b_kind, .. },
        ) => {
            &&& a_node_id == b_node_id
            &&& a_src_location == b_src_location
            &&& a_topic == b_topic
            &&& a_kind == b_kind
        },
        (
            ASTNode::Other { node_id: a_node_id, src_location: a_src_location, node_type: a_node_type, body: a_body, nodes: a_nodes, .. },
            ASTNode::Other { node_id: b_node_id, src_location: b_src_location, node_type: b_node_type, body: b_body, nodes: b_nodes, .. },
        ) => {
            &&& a_node_id == b_node_id
            &&& a_src_location == b_src_location
            &&& a_node_type == b_node_type
            &&& (a_body is Some) == (b_body is Some)
            &&& a_nodes@.len() == b_nodes@.len()
        },
        _ => false,
    }
}

pub open spec fn id_of(node: &ASTNode) -> i32 {
    match node {
        ASTNode::Assignment { node_id, .. } => *node_id,
        ASTNode::BinaryOperation { node_id, .. } => *node_id,
        ASTNode::Conditional { node_id, .. } => *node_id,
        ASTNode::ElementaryTypeNameExpression { node_id, .. } => *node_id,
        ASTNode::FunctionCall { node_id, .. } => *node_id,
        ASTNode::Argument { node_id, .. } => *node_id,
        ASTNode::TypeConversion { node_id, .. } => *node_id,
        ASTNode::StructConstructor { node_id, .. } => *node_id,
        ASTNode::FunctionCallOptions { node_id, .. } => *node_id,
        ASTNode::Identifier { node_id, .. } => *node_id,
        ASTNode::IdentifierPath { node_id, .. } => *node_id,
        ASTNode::IndexAccess { node_id, .. } => *node_id,
        ASTNode::IndexRangeAccess { node_id, .. } => *node_id,
        ASTNode::Literal { node_id, .. } => *node_id,
        ASTNode::MemberAccess { node_id, .. } => *node_id,
        ASTNode::NewExpression { node_id, .. } => *node_id,
        ASTNode::TupleExpression { node_id, .. } => *node_id,
        ASTNode::UnaryOperation { node_id, .. } => *node_id,
        ASTNode::EnumValue { node_id, .. } => *node_id,
        ASTNode::Block { node_id, .. } => *node_id,
        ASTNode::SemanticBlock { node_id, .. } => *node_id,
        ASTNode::ContractMemberGroup { node_id, .. } => *node_id,
        ASTNode::Break { node_id, .. } => *node_id,
        ASTNode::Continue { node_id, .. } => *node_id,
        ASTNode::DoWhileStatement { node_id, .. } => *node_id,
        ASTNode::EmitStatement { node_id, .. } => *node_id,
        ASTNode::ExpressionStatement { node_id, .. } => *node_id,
        ASTNode::ForStatement { node_id, .. } => *node_id,
        ASTNode::LoopExpression { node_id, .. } => *node_id,
        ASTNode::IfStatement { node_id, .. } => *node_id,
        ASTNode::InlineAssembly { node_id, .. } => *node_id,
        ASTNode::PlaceholderStatement { node_id, .. } => *node_id,
        ASTNode::Return { node_id, .. } => *node_id,
        ASTNode::RevertStatement { node_id, .. } => *node_id,
        ASTNode::TryStatement { node_id, .. } => *node_id,
        ASTNode::UncheckedBlock { node_id, .. } => *node_id,
        ASTNode::VariableDeclarationStatement { node_id, .. } => *node_id,
        ASTNode::WhileStatement { node_id, .. } => *node_id,
        ASTNode::ContractSignature { node_id, .. } => *node_id,
        ASTNode::FunctionSignature { node_id, .. } => *node_id,
        ASTNode::ModifierSignature { node_id, .. } => *node_id,
        ASTNode::ContractDefinition { node_id, .. } => *node_id,
        ASTNode::FunctionDefinition { node_id, .. } => *node_id,
        ASTNode::EventDefinition { node_id, .. } => *node_id,
        ASTNode::ErrorDefinition { node_id, .. } => *node_id,
        ASTNode::ModifierDefinition { node_id, .. } => *node_id,
        ASTNode::StructDefinition { node_id, .. } => *node_id,
        ASTNode::EnumDefinition { node_id, .. } => *node_id,
        ASTNode::UserDefinedValueTypeDefinition { node_id, .. } => *node_id,
        ASTNode::VariableDeclaration { node_id, .. } => *node_id,
        ASTNode::PragmaDirective { node_id, .. } => *node_id,
        ASTNode::ImportDirective { node_id, .. } => *node_id,
        ASTNode::UsingForDirective { node_id, .. } => *node_id,
        ASTNode::SourceUnit { node_id, .. } => *node_id,
        ASTNode::InheritanceSpecifier { node_id, .. } => *node_id,
        ASTNode::ElementaryTypeName { node_id, .. } => *node_id,
        ASTNode::FunctionTypeName { node_id, .. } => *node_id,
        ASTNode::ParameterList { node_id, .. } => *node_id,
        ASTNode::ModifierList { node_id, .. } => *node_id,
        ASTNode::TryCatchClause { node_id, .. } => *node_id,
        ASTNode::ModifierInvocation { node_id, .. } => *node_id,
        ASTNode::UserDefinedTypeName { node_id, .. } => *node_id,
        ASTNode::ArrayTypeName { node_id, .. } => *node_id,
        ASTNode::Mapping { node_id, .. } => *node_id,
        ASTNode::StructuredDocumentation { node_id, .. } => *node_id,
        ASTNode::Stub { node_id, .. } => *node_id,
        ASTNode::Other { node_id, .. } => *node_id,
    }
}

pub open spec fn location_of(node: &ASTNode) -> SourceLocation {
    match node {
        ASTNode::Assignment { src_location, .. } => *src_location,
        ASTNode::BinaryOperation { src_location, .. } => *src_location,
        ASTNode::Conditional { src_location, .. } => *src_location,
        ASTNode::ElementaryTypeNameExpression { src_location, .. } => *src_location,
        ASTNode::FunctionCall { src_location, .. } => *src_location,
        ASTNode::Argument { src_location, .. } => *src_location,
        ASTNode::TypeConversion { src_location, .. } => *src_location,
        ASTNode::StructConstructor { src_location, .. } => *src_location,
        ASTNode::FunctionCallOptions { src_location, .. } => *src_location,
        ASTNode::Identifier { src_location, .. } => *src_location,
        ASTNode::IdentifierPath { src_location, .. } => *src_location,
        ASTNode::IndexAccess { src_location, .. } => *src_location,
        ASTNode::IndexRangeAccess { src_location, .. } => *src_location,
        ASTNode::Literal { src_location, .. } => *src_location,
        ASTNode::MemberAccess { src_location, .. } => *src_location,
        ASTNode::NewExpression { src_location, .. } => *src_location,
        ASTNode::TupleExpression { src_location, .. } => *src_location,
        ASTNode::UnaryOperation { src_location, .. } => *src_location,
        ASTNode::EnumValue { src_location, .. } => *src_location,
        ASTNode::Block { src_location, .. } => *src_location,
        ASTNode::SemanticBlock { src_location, .. } => *src_location,
        ASTNode::ContractMemberGroup { src_location, .. } => *src_location,
        ASTNode::Break { src_location, .. } => *src_location,
        ASTNode::Continue { src_location, .. } => *src_location,
        ASTNode::DoWhileStatement { src_location, .. } => *src_location,
        ASTNode::EmitStatement { src_location, .. } => *src_location,
        ASTNode::ExpressionStatement { src_location, .. } => *src_location,
        ASTNode::ForStatement { src_location, .. } => *src_location,
        ASTNode::LoopExpression { src_location, .. } => *src_location,
        ASTNode::IfStatement { src_location, .. } => *src_location,
        ASTNode::InlineAssembly { src_location, .. } => *src_location,
        ASTNode::PlaceholderStatement { src_location, .. } => *src_location,
        ASTNode::Return { src_location, .. } => *src_location,
        ASTNode::RevertStatement { src_location, .. } => *src_location,
        ASTNode::TryStatement { src_location, .. } => *src_location,
        ASTNode::UncheckedBlock { src_location, .. } => *src_location,
        ASTNode::VariableDeclarationStatement { src_location, .. } => *src_location,
        ASTNode::WhileStatement { src_location, .. } => *src_location,
        ASTNode::ContractSignature { src_location, .. } => *src_location,
        ASTNode::FunctionSignature { src_location, .. } => *src_location,
        ASTNode::ModifierSignature { src_location, .. } => *src_location,
        ASTNode::ContractDefinition { src_location, .. } => *src_location,
        ASTNode::FunctionDefinition { src_location, .. } => *src_location,
        ASTNode::EventDefinition { src_location, .. } => *src_location,
        ASTNode::ErrorDefinition { src_location, .. } => *src_location,
        ASTNode::ModifierDefinition { src_location, .. } => *src_location,
        ASTNode::StructDefinition { src_location, .. } => *src_location,
        ASTNode::EnumDefinition { src_location, .. } => *src_location,
        ASTNode::UserDefinedValueTypeDefinition { src_location, .. } => *src_location,
        ASTNode::VariableDeclaration { src_location, .. } => *src_location,
        ASTNode::PragmaDirective { src_location, .. } => *src_location,
        ASTNode::ImportDirective { src_location, .. } => *src_location,
        ASTNode::UsingForDirective { src_location, .. } => *src_location,
        ASTNode::SourceUnit { src_location, .. } => *src_location,
        ASTNode::InheritanceSpecifier { src_location, .. } => *src_location,
        ASTNode::ElementaryTypeName { src_location, .. } => *src_location,
        ASTNode::FunctionTypeName { src_location, .. } => *src_location,
        ASTNode::ParameterList { src_location, .. } => *src_location,
        ASTNode::ModifierList { src_location, .. } => *src_location,
        ASTNode::TryCatchClause { src_location, .. } => *src_location,
        ASTNode::ModifierInvocation { src_location, .. } => *src_location,
        ASTNode::UserDefinedTypeName { src_location, .. } => *src_location,
        ASTNode::ArrayTypeName { src_location, .. } => *src_location,
        ASTNode::Mapping { src_location, .. } => *src_location,
        ASTNode::StructuredDocumentation { src_location, .. } => *src_location,
        ASTNode::Stub { src_location, .. } => *src_location,
        ASTNode::Other { src_location, .. } => *src_location,
    }
}

/// The name of a node's variant.
pub open spec fn type_label(node: &ASTNode) -> Seq<char> {
    match node {
        ASTNode::Assignment { .. } => "Assignment"@,
        ASTNode::BinaryOperation { .. } => "BinaryOperation"@,
        ASTNode::Conditional { .. } => "Conditional"@,
        ASTNode::ElementaryTypeNameExpression { .. } => "ElementaryTypeNameExpression"@,
        ASTNode::FunctionCall { .. } => "FunctionCall"@,
        ASTNode::Argument { .. } => "Argument"@,
        ASTNode::TypeConversion { .. } => "TypeConversion"@,
        ASTNode::StructConstructor { .. } => "StructConstructor"@,
        ASTNode::FunctionCallOptions { .. } => "FunctionCallOptions"@,
        ASTNode::Identifier { .. } => "Identifier"@,
        ASTNode::IdentifierPath { .. } => "IdentifierPath"@,
        ASTNode::IndexAccess { .. } => "IndexAccess"@,
        ASTNode::IndexRangeAccess { .. } => "IndexRangeAccess"@,
        ASTNode::Literal { .. } => "Literal"@,
        ASTNode::MemberAccess { .. } => "MemberAccess"@,
        ASTNode::NewExpression { .. } => "NewExpression"@,
        ASTNode::TupleExpression { .. } => "TupleExpression"@,
        ASTNode::UnaryOperation { .. } => "UnaryOperation"@,
        ASTNode::EnumValue { .. } => "EnumValue"@,
        ASTNode::Block { .. } => "Block"@,
        ASTNode::SemanticBlock { .. } => "SemanticBlock"@,
        ASTNode::ContractMemberGroup { .. } => "ContractMemberGroup"@,
        ASTNode::Break { .. } => "Break"@,
        ASTNode::Continue { .. } => "Continue"@,
        ASTNode::DoWhileStatement { .. } => "DoWhileStatement"@,
        ASTNode::EmitStatement { .. } => "EmitStatement"@,
        ASTNode::ExpressionStatement { .. } => "ExpressionStatement"@,
        ASTNode::ForStatement { .. } => "ForStatement"@,
        ASTNode::LoopExpression { .. } => "LoopExpression"@,
        ASTNode::IfStatement { .. } => "IfStatement"@,
        ASTNode::InlineAssembly { .. } => "InlineAssembly"@,
        ASTNode::PlaceholderStatement { .. } => "PlaceholderStatement"@,
        ASTNode::Return { .. } => "Return"@,
        ASTNode::RevertStatement { .. } => "RevertStatement"@,
        ASTNode::TryStatement { .. } => "TryStatement"@,
        ASTNode::UncheckedBlock { .. } => "UncheckedBlock"@,
        ASTNode::VariableDeclarationStatement { .. } => "VariableDeclarationStatement"@,
        ASTNode::WhileStatement { .. } => "WhileStatement"@,
        ASTNode::ContractSignature { .. } => "ContractSignature"@,
        ASTNode::FunctionSignature { .. } => "FunctionSignature"@,
        ASTNode::ModifierSignature { .. } => "ModifierSignature"@,
        ASTNode::ContractDefinition { .. } => "ContractDefinition"@,
        ASTNode::FunctionDefinition { .. } => "FunctionDefinition"@,
        ASTNode::EventDefinition { .. } => "EventDefinition"@,
        ASTNode::ErrorDefinition { .. } => "ErrorDefinition"@,
        ASTNode::ModifierDefinition { .. } => "ModifierDefinition"@,
        ASTNode::StructDefinition { .. } => "StructDefinition"@,
        ASTNode::EnumDefinition { .. } => "EnumDefinition"@,
        ASTNode::UserDefinedValueTypeDefinition { .. } => "UserDefinedValueTypeDefinition"@,
        ASTNode::VariableDeclaration { .. } => "VariableDeclaration"@,
        ASTNode::PragmaDirective { .. } => "PragmaDirective"@,
        ASTNode::ImportDirective { .. } => "ImportDirective"@,
        ASTNode::UsingForDirective { .. } => "UsingForDirective"@,
        ASTNode::SourceUnit { .. } => "SourceUnit"@,
        ASTNode::InheritanceSpecifier { .. } => "InheritanceSpecifier"@,
        ASTNode::ElementaryTypeName { .. } => "ElementaryTypeName"@,
        ASTNode::FunctionTypeName { .. } => "FunctionTypeName"@,
        ASTNode::ParameterList { .. } => "ParameterList"@,
        ASTNode::ModifierList { .. } => "ModifierList"@,
        ASTNode::TryCatchClause { .. } => "TryCatchClause"@,
        ASTNode::ModifierInvocation { .. } => "ModifierInvocation"@,
        ASTNode::UserDefinedTypeName { .. } => "UserDefinedTypeName"@,
        ASTNode::ArrayTypeName { .. } => "ArrayTypeName"@,
        ASTNode::Mapping { .. } => "Mapping"@,
        ASTNode::StructuredDocumentation { .. } => "StructuredDocumentation"@,
        ASTNode::Stub { .. } => "Stub"@,
        ASTNode::Other { .. } => "Other"@,
    }
}

impl ASTNode {
    pub fn node_id(&self) -> (r: i32)
        ensures
            r == id_of(self),
    {
        match self {
            ASTNode::Assignment { node_id, .. } => *node_id,
            ASTNode::BinaryOperation { node_id, .. } => *node_id,
            ASTNode::Conditional { node_id, .. } => *node_id,
            ASTNode::ElementaryTypeNameExpression { node_id, .. } => *node_id,
            ASTNode::FunctionCall { node_id, .. } => *node_id,
            ASTNode::Argument { node_id, .. } => *node_id,
            ASTNode::TypeConversion { node_id, .. } => *node_id,
            ASTNode::StructConstructor { node_id, .. } => *node_id,
            ASTNode::FunctionCallOptions { node_id, .. } => *node_id,
            ASTNode::Identifier { node_id, .. } => *node_id,
            ASTNode::IdentifierPath { node_id, .. } => *node_id,
            ASTNode::IndexAccess { node_id, .. } => *node_id,
            ASTNode::IndexRangeAccess { node_id, .. } => *node_id,
            ASTNode::Literal { node_id, .. } => *node_id,
            ASTNode::MemberAccess { node_id, .. } => *node_id,
            ASTNode::NewExpression { node_id, .. } => *node_id,
            ASTNode::TupleExpression { node_id, .. } => *node_id,
            ASTNode::UnaryOperation { node_id, .. } => *node_id,
            ASTNode::EnumValue { node_id, .. } => *node_id,
            ASTNode::Block { node_id, .. } => *node_id,
            ASTNode::SemanticBlock { node_id, .. } => *node_id,
            ASTNode::ContractMemberGroup { node_id, .. } => *node_id,
            ASTNode::Break { node_id, .. } => *node_id,
            ASTNode::Continue { node_id, .. } => *node_id,
            ASTNode::DoWhileStatement { node_id, .. } => *node_id,
            ASTNode::EmitStatement { node_id, .. } => *node_id,
            ASTNode::ExpressionStatement { node_id, .. } => *node_id,
            ASTNode::ForStatement { node_id, .. } => *node_id,
            ASTNode::LoopExpression { node_id, .. } => *node_id,
            ASTNode::IfStatement { node_id, .. } => *node_id,
            ASTNode::InlineAssembly { node_id, .. } => *node_id,
            ASTNode::PlaceholderStatement { node_id, .. } => *node_id,
            ASTNode::Return { node_id, .. } => *node_id,
            ASTNode::RevertStatement { node_id, .. } => *node_id,
            ASTNode::TryStatement { node_id, .. } => *node_id,
            ASTNode::UncheckedBlock { node_id, .. } => *node_id,
            ASTNode::VariableDeclarationStatement { node_id, .. } => *node_id,
            ASTNode::WhileStatement { node_id, .. } => *node_id,
            ASTNode::ContractSignature { node_id, .. } => *node_id,
            ASTNode::FunctionSignature { node_id, .. } => *node_id,
            ASTNode::ModifierSignature { node_id, .. } => *node_id,
            ASTNode::ContractDefinition { node_id, .. } => *node_id,
            ASTNode::FunctionDefinition { node_id, .. } => *node_id,
            ASTNode::EventDefinition { node_id, .. } => *node_id,
            ASTNode::ErrorDefinition { node_id, .. } => *node_id,
            ASTNode::ModifierDefinition { node_id, .. } => *node_id,
            ASTNode::StructDefinition { node_id, .. } => *node_id,
            ASTNode::EnumDefinition { node_id, .. } => *node_id,
            ASTNode::UserDefinedValueTypeDefinition { node_id, .. } => *node_id,
            ASTNode::VariableDeclaration { node_id, .. } => *node_id,
            ASTNode::PragmaDirective { node_id, .. } => *node_id,
            ASTNode::ImportDirective { node_id, .. } => *node_id,
            ASTNode::UsingForDirective { node_id, .. } => *node_id,
            ASTNode::SourceUnit { node_id, .. } => *node_id,
            ASTNode::InheritanceSpecifier { node_id, .. } => *node_id,
            ASTNode::ElementaryTypeName { node_id, .. } => *node_id,
            ASTNode::FunctionTypeName { node_id, .. } => *node_id,
            ASTNode::ParameterList { node_id, .. } => *node_id,
            ASTNode::ModifierList { node_id, .. } => *node_id,
            ASTNode::TryCatchClause { node_id, .. } => *node_id,
            ASTNode::ModifierInvocation { node_id, .. } => *node_id,
            ASTNode::UserDefinedTypeName { node_id, .. } => *node_id,
            ASTNode::ArrayTypeName { node_id, .. } => *node_id,
            ASTNode::Mapping { node_id, .. } => *node_id,
            ASTNode::StructuredDocumentation { node_id, .. } => *node_id,
            ASTNode::Stub { node_id, .. } => *node_id,
            ASTNode::Other { node_id, .. } => *node_id,
        }
    }

    pub fn src_location(&self) -> (r: &SourceLocation)
        ensures
            *r == location_of(self),
    {
        match self {
            ASTNode::Assignment { src_location, .. } => src_location,
            ASTNode::BinaryOperation { src_location, .. } => src_location,
            ASTNode::Conditional { src_location, .. } => src_location,
            ASTNode::ElementaryTypeNameExpression { src_location, .. } => src_location,
            ASTNode::FunctionCall { src_location, .. } => src_location,
            ASTNode::Argument { src_location, .. } => src_location,
            ASTNode::TypeConversion { src_location, .. } => src_location,
            ASTNode::StructConstructor { src_location, .. } => src_location,
            ASTNode::FunctionCallOptions { src_location, .. } => src_location,
            ASTNode::Identifier { src_location, .. } => src_location,
            ASTNode::IdentifierPath { src_location, .. } => src_location,
            ASTNode::IndexAccess { src_location, .. } => src_location,
            ASTNode::IndexRangeAccess { src_location, .. } => src_location,
            ASTNode::Literal { src_location, .. } => src_location,
            ASTNode::MemberAccess { src_location, .. } => src_location,
            ASTNode::NewExpression { src_location, .. } => src_location,
            ASTNode::TupleExpression { src_location, .. } => src_location,
            ASTNode::UnaryOperation { src_location, .. } => src_location,
            ASTNode::EnumValue { src_location, .. } => src_location,
            ASTNode::Block { src_location, .. } => src_location,
            ASTNode::SemanticBlock { src_location, .. } => src_location,
            ASTNode::ContractMemberGroup { src_location, .. } => src_location,
            ASTNode::Break { src_location, .. } => src_location,
            ASTNode::Continue { src_location, .. } => src_location,
            ASTNode::DoWhileStatement { src_location, .. } => src_location,
            ASTNode::EmitStatement { src_location, .. } => src_location,
            ASTNode::ExpressionStatement { src_location, .. } => src_location,
            ASTNode::ForStatement { src_location, .. } => src_location,
            ASTNode::LoopExpression { src_location, .. } => src_location,
            ASTNode::IfStatement { src_location, .. } => src_location,
            ASTNode::InlineAssembly { src_location, .. } => src_location,
            ASTNode::PlaceholderStatement { src_location, .. } => src_location,
            ASTNode::Return { src_location, .. } => src_location,
            ASTNode::RevertStatement { src_location, .. } => src_location,
            ASTNode::TryStatement { src_location, .. } => src_location,
            ASTNode::UncheckedBlock { src_location, .. } => src_location,
            ASTNode::VariableDeclarationStatement { src_location, .. } => src_location,
            ASTNode::WhileStatement { src_location, .. } => src_location,
            ASTNode::ContractSignature { src_location, .. } => src_location,
            ASTNode::FunctionSignature { src_location, .. } => src_location,
            ASTNode::ModifierSignature { src_location, .. } => src_location,
            ASTNode::ContractDefinition { src_location, .. } => src_location,
            ASTNode::FunctionDefinition { src_location, .. } => src_location,
            ASTNode::EventDefinition { src_location, .. } => src_location,
            ASTNode::ErrorDefinition { src_location, .. } => src_location,
            ASTNode::ModifierDefinition { src_location, .. } => src_location,
            ASTNode::StructDefinition { src_location, .. } => src_location,
            ASTNode::EnumDefinition { src_location, .. } => src_location,
            ASTNode::UserDefinedValueTypeDefinition { src_location, .. } => src_location,
            ASTNode::VariableDeclaration { src_location, .. } => src_location,
            ASTNode::PragmaDirective { src_location, .. } => src_location,
            ASTNode::ImportDirective { src_location, .. } => src_location,
            ASTNode::UsingForDirective { src_location, .. } => src_location,
            ASTNode::SourceUnit { src_location, .. } => src_location,
            ASTNode::InheritanceSpecifier { src_location, .. } => src_location,
            ASTNode::ElementaryTypeName { src_location, .. } => src_location,
            ASTNode::FunctionTypeName { src_location, .. } => src_location,
            ASTNode::ParameterList { src_location, .. } => src_location,
            ASTNode::ModifierList { src_location, .. } => src_location,
            ASTNode::TryCatchClause { src_location, .. } => src_location,
            ASTNode::ModifierInvocation { src_location, .. } => src_location,
            ASTNode::UserDefinedTypeName { src_location, .. } => src_location,
            ASTNode::ArrayTypeName { src_location, .. } => src_location,
            ASTNode::Mapping { src_location, .. } => src_location,
            ASTNode::StructuredDocumentation { src_location, .. } => src_location,
            ASTNode::Stub { src_location, .. } => src_location,
            ASTNode::Other { src_location, .. } => src_location,
        }
    }

    /// The direct children. A node for an index range has no listing.
    pub fn nodes(&self) -> (r: Vec<&ASTNode>)
        requires
            !(self is IndexRangeAccess),
        ensures
            pointees(r@) == children_of(self),
    {
        let mut r: Vec<&ASTNode> = Vec::new();
        match self {
            ASTNode::Assignment { right_hand_side, left_hand_side, .. } => {
                r.push(&**right_hand_side);
                r.push(&**left_hand_side);
            },
            ASTNode::BinaryOperation { left_expression, right_expression, .. } => {
                r.push(&**left_expression);
                r.push(&**right_expression);
            },
            ASTNode::Conditional { condition, true_expression, false_expression, .. } => {
                r.push(&**condition);
                r.push(&**true_expression);
                push_opt(&mut r, false_expression);
            },
            ASTNode::ElementaryTypeNameExpression { type_node, .. } => {
                r.push(&**type_node);
            },
            ASTNode::FunctionCall { expression, arguments, .. } => {
                r.push(&**expression);
                push_list(&mut r, arguments);
            },
            ASTNode::Argument { argument, parameter, .. } => {
                r.push(&**argument);
                push_opt(&mut r, parameter);
            },
            ASTNode::TypeConversion { expression, argument, .. } => {
                r.push(&**expression);
                r.push(&**argument);
            },
            ASTNode::StructConstructor { expression, arguments, .. } => {
                r.push(&**expression);
                push_list(&mut r, arguments);
            },
            ASTNode::FunctionCallOptions { expression, options, .. } => {
                r.push(&**expression);
                push_list(&mut r, options);
            },
            ASTNode::IndexAccess { base_expression, index_expression, .. } => {
                r.push(&**base_expression);
                push_opt(&mut r, index_expression);
            },
            ASTNode::MemberAccess { expression, .. } => {
                r.push(&**expression);
            },
            ASTNode::NewExpression { type_node, .. } => {
                r.push(&**type_node);
            },
            ASTNode::TupleExpression { components, .. } => {
                push_list(&mut r, components);
            },
            ASTNode::UnaryOperation { sub_expression, .. } => {
                r.push(&**sub_expression);
            },
            ASTNode::Block { statements, .. } => {
                push_list(&mut r, statements);
            },
            ASTNode::SemanticBlock { statements, .. } => {
                push_list(&mut r, statements);
            },
            ASTNode::ContractMemberGroup { members, .. } => {
                push_list(&mut r, members);
            },
            ASTNode::DoWhileStatement { condition, body, .. } => {
                r.push(&**condition);
                push_opt(&mut r, body);
            },
            ASTNode::EmitStatement { event_call, .. } => {
                r.push(&**event_call);
            },
            ASTNode::ExpressionStatement { expression, .. } => {
                r.push(&**expression);
            },
            ASTNode::ForStatement { condition, body, .. } => {
                r.push(&**condition);
                r.push(&**body);
            },
            ASTNode::LoopExpression { initialization_expression, condition, loop_expression, .. } => {
                push_opt(&mut r, initialization_expression);
                push_opt(&mut r, condition);
                push_opt(&mut r, loop_expression);
            },
            ASTNode::IfStatement { condition, true_body, false_body, .. } => {
                r.push(&**condition);
                r.push(&**true_body);
                push_opt(&mut r, false_body);
            },
            ASTNode::Return { expression, .. } => {
                push_opt(&mut r, expression);
            },
            ASTNode::RevertStatement { error_call, .. } => {
                r.push(&**error_call);
            },
            ASTNode::TryStatement { external_call, clauses, .. } => {
                r.push(&**external_call);
                push_list(&mut r, clauses);
            },
            ASTNode::UncheckedBlock { statements, .. } => {
                push_list(&mut r, statements);
            },
            ASTNode::VariableDeclarationStatement { declarations, initial_value, .. } => {
                push_list(&mut r, declarations);
                push_opt(&mut r, initial_value);
            },
            ASTNode::WhileStatement { body, condition, .. } => {
                push_opt(&mut r, body);
                r.push(&**condition);
            },
            ASTNode::ContractSignature { documentation, base_contracts, directives, .. } => {
                push_opt(&mut r, documentation);
                push_list(&mut r, base_contracts);
                push_list(&mut r, directives);
            },
            ASTNode::FunctionSignature { documentation, modifiers, parameters, return_parameters, .. } => {
                push_opt(&mut r, documentation);
                r.push(&**modifiers);
                r.push(&**parameters);
                r.push(&**return_parameters);
            },
            ASTNode::ModifierSignature { documentation, parameters, .. } => {
                push_opt(&mut r, documentation);
                r.push(&**parameters);
            },
            ASTNode::ContractDefinition { signature, nodes, .. } => {
                r.push(&**signature);
                push_list(&mut r, nodes);
            },
            ASTNode::FunctionDefinition { signature, body, .. } => {
                r.push(&**signature);
                push_opt(&mut r, body);
            },
            ASTNode::EventDefinition { parameters, .. } => {
                r.push(&**parameters);
            },
            ASTNode::ErrorDefinition { parameters, .. } => {
                r.push(&**parameters);
            },
            ASTNode::ModifierDefinition { signature, body, .. } => {
                r.push(&**signature);
                r.push(&**body);
            },
            ASTNode::StructDefinition { members, .. } => {
                push_list(&mut r, members);
            },
            ASTNode::EnumDefinition { members, .. } => {
                push_list(&mut r, members);
            },
            ASTNode::UserDefinedValueTypeDefinition { underlying_type, .. } => {
                r.push(&**underlying_type);
            },
            ASTNode::VariableDeclaration { type_node, value, .. } => {
                r.push(&**type_node);
                push_opt(&mut r, value);
            },
            ASTNode::UsingForDirective { type_node, library_name, .. } => {
                push_opt(&mut r, type_node);
                push_opt(&mut r, library_name);
            },
            ASTNode::SourceUnit { nodes, .. } => {
                push_list(&mut r, nodes);
            },
            ASTNode::InheritanceSpecifier { base_name, .. } => {
                r.push(&**base_name);
            },
            ASTNode::FunctionTypeName { parameter_types, return_parameter_types, .. } => {
                r.push(&**parameter_types);
                r.push(&**return_parameter_types);
            },
            ASTNode::ParameterList { parameters, .. } => {
                push_list(&mut r, parameters);
            },
            ASTNode::ModifierList { modifiers, .. } => {
                push_list(&mut r, modifiers);
            },
            ASTNode::TryCatchClause { block, parameters, .. } => {
                r.push(&**block);
                push_opt(&mut r, parameters);
            },
            ASTNode::ModifierInvocation { modifier_name, arguments, .. } => {
                r.push(&**modifier_name);
                push_opt_list(&mut r, arguments);
            },
            ASTNode::UserDefinedTypeName { path_node, .. } => {
                r.push(&**path_node);
            },
            ASTNode::ArrayTypeName { base_type, .. } => {
                r.push(&**base_type);
            },
            ASTNode::Mapping { key_type, value_type, .. } => {
                r.push(&**key_type);
                r.push(&**value_type);
            },
            ASTNode::Other { nodes, body, .. } => {
                push_list(&mut r, nodes);
                push_opt(&mut r, body);
            },
            _ => {},
        }
        assert(pointees(r@) =~= children_of(self));
        r
    }

    /// The direct children, for change. The rest of the node stays as it is.
    pub fn nodes_mut(&mut self) -> (r: Vec<&mut ASTNode>)
        ensures
            r@.len() == slots_of(&*old(self)).len(),
            forall|i: int|
                0 <= i < r@.len() ==> *(#[trigger] r@[i]) == slots_of(&*old(self))[i],
            same_frame(&*old(self), &*final(self)),
            slots_of(&*final(self)).len() == r@.len(),
            forall|i: int|
                0 <= i < r@.len() ==> *final(#[trigger] r@[i]) == slots_of(&*final(self))[i],
    {
        let mut r: Vec<&mut ASTNode> = Vec::new();
        match self {
            ASTNode::Assignment { right_hand_side, left_hand_side, .. } => {
                let child: &mut ASTNode = right_hand_side;
                r.push(child);
                let child: &mut ASTNode = left_hand_side;
                r.push(child);
                r
            },
            ASTNode::BinaryOperation { left_expression, right_expression, .. } => {
                let child: &mut ASTNode = left_expression;
                r.push(child);
                let child: &mut ASTNode = right_expression;
                r.push(child);
                r
            },
            ASTNode::Conditional { condition, true_expression, false_expression, .. } => {
                let child: &mut ASTNode = condition;
                r.push(child);
                let child: &mut ASTNode = true_expression;
                r.push(child);
                match false_expression {
                    Some(x) => {
                        let child: &mut ASTNode = x;
                        r.push(child);
                    },
                    None => {},
                }
                r
            },
            ASTNode::ElementaryTypeNameExpression { type_node, .. } => {
                let child: &mut ASTNode = type_node;
                r.push(child);
                r
            },
            ASTNode::FunctionCall { expression, arguments, .. } => {
                let child: &mut ASTNode = expression;
                r.push(child);
                let mut list = each_mut(arguments.as_mut_slice());
                r.append(&mut list);
                r
            },
            ASTNode::Argument { argument, parameter, .. } => {
                let child: &mut ASTNode = argument;
                r.push(child);
                match parameter {
                    Some(x) => {
                        let child: &mut ASTNode = x;
                        r.push(child);
                    },
                    None => {},
                }
                r
            },
            ASTNode::TypeConversion { expression, argument, .. } => {
                let child: &mut ASTNode = expression;
                r.push(child);
                let child: &mut ASTNode = argument;
                r.push(child);
                r
            },
            ASTNode::StructConstructor { expression, arguments, .. } => {
                let child: &mut ASTNode = expression;
                r.push(child);
                let mut list = each_mut(arguments.as_mut_slice());
                r.append(&mut list);
                r
            },
            ASTNode::FunctionCallOptions { expression, options, .. } => {
                let child: &mut ASTNode = expression;
                r.push(child);
                let mut list = each_mut(options.as_mut_slice());
                r.append(&mut list);
                r
            },
            ASTNode::IndexAccess { base_expression, index_expression, .. } => {
                let child: &mut ASTNode = base_expression;
                r.push(child);
                match index_expression {
                    Some(x) => {
                        let child: &mut ASTNode = x;
                        r.push(child);
                    },
                    None => {},
                }
                r
            },
            ASTNode::MemberAccess { expression, .. } => {
                let child: &mut ASTNode = expression;
                r.push(child);
                r
            },
            ASTNode::NewExpression { type_node, .. } => {
                let child: &mut ASTNode = type_node;
                r.push(child);
                r
            },
            ASTNode::TupleExpression { components, .. } => {
                let mut list = each_mut(components.as_mut_slice());
                r.append(&mut list);
                r
            },
            ASTNode::UnaryOperation { sub_expression, .. } => {
                let child: &mut ASTNode = sub_expression;
                r.push(child);
                r
            },
            ASTNode::Block { statements, .. } => {
                let mut list = each_mut(statements.as_mut_slice());
                r.append(&mut list);
                r
            },
            ASTNode::SemanticBlock { statements, .. } => {
                let mut list = each_mut(statements.as_mut_slice());
                r.append(&mut list);
                r
            },
            ASTNode::ContractMemberGroup { members, .. } => {
                let mut list = each_mut(members.as_mut_slice());
                r.append(&mut list);
                r
            },
            ASTNode::DoWhileStatement { condition, body, .. } => {
                let child: &mut ASTNode = condition;
                r.push(child);
                match body {
                    Some(x) => {
                        let child: &mut ASTNode = x;
                        r.push(child);
                    },
                    None => {},
                }
                r
            },
            ASTNode::EmitStatement { event_call, .. } => {
                let child: &mut ASTNode = event_call;
                r.push(child);
                r
            },
            ASTNode::ExpressionStatement { expression, .. } => {
                let child: &mut ASTNode = expression;
                r.push(child);
                r
            },
            ASTNode::ForStatement { condition, body, .. } => {
                let child: &mut ASTNode = condition;
                r.push(child);
                let child: &mut ASTNode = body;
                r.push(child);
                r
            },
            ASTNode::LoopExpression { initialization_expression, condition, loop_expression, .. } => {
                match initialization_expression {
                    Some(x) => {
                        let child: &mut ASTNode = x;
                        r.push(child);
                    },
                    None => {},
                }
                match condition {
                    Some(x) => {
                        let child: &mut ASTNode = x;
                        r.push(child);
                    },
                    None => {},
                }
                match loop_expression {
                    Some(x) => {
                        let child: &mut ASTNode = x;
                        r.push(child);
                    },
                    None => {},
                }
                r
            },
            ASTNode::IfStatement { condition, true_body, false_body, .. } => {
                let child: &mut ASTNode = condition;
                r.push(child);
                let child: &mut ASTNode = true_body;
                r.push(child);
                match false_body {
                    Some(x) => {
                        let child: &mut ASTNode = x;
                        r.push(child);
                    },
                    None => {},
                }
                r
            },
            ASTNode::Return { expression, .. } => {
                match expression {
                    Some(x) => {
                        let child: &mut ASTNode = x;
                        r.push(child);
                    },
                    None => {},
                }
                r
            },
            ASTNode::RevertStatement { error_call, .. } => {
                let child: &mut ASTNode = error_call;
                r.push(child);
                r
            },
            ASTNode::TryStatement { external_call, clauses, .. } => {
                let child: &mut ASTNode = external_call;
                r.push(child);
                let mut list = each_mut(clauses.as_mut_slice());
                r.append(&mut list);
                r
            },
            ASTNode::UncheckedBlock { statements, .. } => {
                let mut list = each_mut(statements.as_mut_slice());
                r.append(&mut list);
                r
            },
            ASTNode::VariableDeclarationStatement { declarations, initial_value, .. } => {
                let mut list = each_mut(declarations.as_mut_slice());
                r.append(&mut list);
                match initial_value {
                    Some(x) => {
                        let child: &mut ASTNode = x;
                        r.push(child);
                    },
                    None => {},
                }
                r
            },
            ASTNode::WhileStatement { condition, body, .. } => {
                let child: &mut ASTNode = condition;
                r.push(child);
                match body {
                    Some(x) => {
                        let child: &mut ASTNode = x;
                        r.push(child);
                    },
                    None => {},
                }
                r
            },
            ASTNode::ContractSignature { documentation, base_contracts, directives, .. } => {
                match documentation {
                    Some(x) => {
                        let child: &mut ASTNode = x;
                        r.push(child);
                    },
                    None => {},
                }
                let mut list = each_mut(base_contracts.as_mut_slice());
                r.append(&mut list);
                let mut list = each_mut(directives.as_mut_slice());
                r.append(&mut list);
                r
            },
            ASTNode::FunctionSignature { documentation, modifiers, parameters, return_parameters, .. } => {
                match documentation {
                    Some(x) => {
                        let child: &mut ASTNode = x;
                        r.push(child);
                    },
                    None => {},
                }
                let child: &mut ASTNode = modifiers;
                r.push(child);
                let child: &mut ASTNode = parameters;
                r.push(child);
                let child: &mut ASTNode = return_parameters;
                r.push(child);
                r
            },
            ASTNode::ModifierSignature { documentation, parameters, .. } => {
                match documentation {
                    Some(x) => {
                        let child: &mut ASTNode = x;
                        r.push(child);
                    },
                    None => {},
                }
                let child: &mut ASTNode = parameters;
                r.push(child);
                r
            },
            ASTNode::ContractDefinition { signature, nodes, .. } => {
                let child: &mut ASTNode = signature;
                r.push(child);
                let mut list = each_mut(nodes.as_mut_slice());
                r.append(&mut list);
                r
            },
            ASTNode::FunctionDefinition { signature, body, .. } => {
                let child: &mut ASTNode = signature;
                r.push(child);
                match body {
                    Some(x) => {
                        let child: &mut ASTNode = x;
                        r.push(child);
                    },
                    None => {},
                }
                r
            },
            ASTNode::EventDefinition { parameters, .. } => {
                let child: &mut ASTNode = parameters;
                r.push(child);
                r
            },
            ASTNode::ErrorDefinition { parameters, .. } => {
                let child: &mut ASTNode = parameters;
                r.push(child);
                r
            },
            ASTNode::ModifierDefinition { signature, body, .. } => {
                let child: &mut ASTNode = signature;
                r.push(child);
                let child: &mut ASTNode = body;
                r.push(child);
                r
            },
            ASTNode::StructDefinition { members, .. } => {
                let mut list = each_mut(members.as_mut_slice());
                r.append(&mut list);
                r
            },
            ASTNode::EnumDefinition { members, .. } => {
                let mut list = each_mut(members.as_mut_slice());
                r.append(&mut list);
                r
            },
            ASTNode::UserDefinedValueTypeDefinition { underlying_type, .. } => {
                let child: &mut ASTNode = underlying_type;
                r.push(child);
                r
            },
            ASTNode::VariableDeclaration { type_node, value, .. } => {
                let child: &mut ASTNode = type_node;
                r.push(child);
                match value {
                    Some(x) => {
                        let child: &mut ASTNode = x;
                        r.push(child);
                    },
                    None => {},
                }
                r
            },
            ASTNode::UsingForDirective { type_node, library_name, .. } => {
                match type_node {
                    Some(x) => {
                        let child: &mut ASTNode = x;
                        r.push(child);
                    },
                    None => {},
                }
                match library_name {
                    Some(x) => {
                        let child: &mut ASTNode = x;
                        r.push(child);
                    },
                    None => {},
                }
                r
            },
            ASTNode::SourceUnit { nodes, .. } => {
                let mut list = each_mut(nodes.as_mut_slice());
                r.append(&mut list);
                r
            },
            ASTNode::InheritanceSpecifier { base_name, .. } => {
                let child: &mut ASTNode = base_name;
                r.push(child);
                r
            },
            ASTNode::FunctionTypeName { parameter_types, return_parameter_types, .. } => {
                let child: &mut ASTNode = parameter_types;
                r.push(child);
                let child: &mut ASTNode = return_parameter_types;
                r.push(child);
                r
            },
            ASTNode::ParameterList { parameters, .. } => {
                let mut list = each_mut(parameters.as_mut_slice());
                r.append(&mut list);
                r
            },
            ASTNode::ModifierList { modifiers, .. } => {
                let mut list = each_mut(modifiers.as_mut_slice());
                r.append(&mut list);
                r
            },
            ASTNode::TryCatchClause { block, parameters, .. } => {
                let child: &mut ASTNode = block;
                r.push(child);
                match parameters {
                    Some(x) => {
                        let child: &mut ASTNode = x;
                        r.push(child);
                    },
                    None => {},
                }
                r
            },
            ASTNode::ModifierInvocation { modifier_name, arguments, .. } => {
                let child: &mut ASTNode = modifier_name;
                r.push(child);
                match arguments {
                    Some(x) => {
                        let mut list = each_mut(x.as_mut_slice());
                        r.append(&mut list);
                    },
                    None => {},
                }
                r
            },
            ASTNode::UserDefinedTypeName { path_node, .. } => {
                let child: &mut ASTNode = path_node;
                r.push(child);
                r
            },
            ASTNode::ArrayTypeName { base_type, .. } => {
                let child: &mut ASTNode = base_type;
                r.push(child);
                r
            },
            ASTNode::Mapping { key_type, value_type, .. } => {
                let child: &mut ASTNode = key_type;
                r.push(child);
                let child: &mut ASTNode = value_type;
                r.push(child);
                r
            },
            ASTNode::IndexRangeAccess { nodes, body, .. } => {
                let mut list = each_mut(nodes.as_mut_slice());
                r.append(&mut list);
                match body {
                    Some(x) => {
                        let child: &mut ASTNode = x;
                        r.push(child);
                    },
                    None => {},
                }
                r
            },
            ASTNode::Other { nodes, body, .. } => {
                let mut list = each_mut(nodes.as_mut_slice());
                r.append(&mut list);
                match body {
                    Some(x) => {
                        let child: &mut ASTNode = x;
                        r.push(child);
                    },
                    None => {},
                }
                r
            },
            _ => r,
        }
    }

    /// The node that this one stands for: a stub stands for the node that the map
    /// holds for its topic.
    pub fn resolve<'a>(&'a self, nodes_map: &'a OrderedMap<Topic, Node>) -> (r: &'a ASTNode)
        ensures
            *r == resolved(self, nodes_map.pairs()),
    {
        match self {
            ASTNode::Stub { topic, .. } => match nodes_map.get(topic) {
                Some(Node::Solidity(node)) => node,
                _ => self,
            },
            _ => self,
        }
    }

    /// The direct children, with stubs resolved.
    pub fn resolve_nodes<'a>(&'a self, nodes_map: &'a OrderedMap<Topic, Node>) -> (r: Vec<
        &'a ASTNode,
    >)
        requires
            !(self is IndexRangeAccess),
        ensures
            pointees(r@) == all_resolved(children_of(self), nodes_map.pairs()),
    {
        let nodes = self.nodes();
        let mut r: Vec<&'a ASTNode> = Vec::new();
        for i in 0..nodes.len()
            invariant
                pointees(nodes@) == children_of(self),
                r@.len() == i,
                forall|j: int|
                    0 <= j < i ==> *(#[trigger] r@[j]) == resolved(nodes@[j], nodes_map.pairs()),
        {
            r.push(nodes[i].resolve(nodes_map));
        }
        assert forall|j: int| 0 <= j < r@.len() implies #[trigger] pointees(r@)[j]
            == all_resolved(children_of(self), nodes_map.pairs())[j] by {
            assert(*r@[j] == resolved(nodes@[j], nodes_map.pairs()));
            assert(pointees(nodes@)[j] == *nodes@[j]);
        }
        assert(pointees(nodes@).len() == nodes@.len());
        assert(pointees(r@) =~= all_resolved(children_of(self), nodes_map.pairs()));
        r
    }

    /// Whether references are tracked by this node: a semantic block or the
    /// signature of a function.
    pub fn is_containing_block(&self) -> (r: bool)
        ensures
            r == (self is SemanticBlock || self is FunctionSignature),
    {
        matches!(self, ASTNode::SemanticBlock { .. } | ASTNode::FunctionSignature { .. })
    }

    /// The variant name.
    pub fn variant_name(&self) -> (r: &'static str)
        ensures
            r@ == type_label(self),
            self is Assignment ==> r@ == "Assignment"@,
            self is BinaryOperation ==> r@ == "BinaryOperation"@,
            self is Conditional ==> r@ == "Conditional"@,
            self is ElementaryTypeNameExpression ==> r@ == "ElementaryTypeNameExpression"@,
            self is FunctionCall ==> r@ == "FunctionCall"@,
            self is Argument ==> r@ == "Argument"@,
            self is TypeConversion ==> r@ == "TypeConversion"@,
            self is StructConstructor ==> r@ == "StructConstructor"@,
            self is FunctionCallOptions ==> r@ == "FunctionCallOptions"@,
            self is Identifier ==> r@ == "Identifier"@,
            self is IdentifierPath ==> r@ == "IdentifierPath"@,
            self is IndexAccess ==> r@ == "IndexAccess"@,
            self is IndexRangeAccess ==> r@ == "IndexRangeAccess"@,
            self is Literal ==> r@ == "Literal"@,
            self is MemberAccess ==> r@ == "MemberAccess"@,
            self is NewExpression ==> r@ == "NewExpression"@,
            self is TupleExpression ==> r@ == "TupleExpression"@,
            self is UnaryOperation ==> r@ == "UnaryOperation"@,
            self is EnumValue ==> r@ == "EnumValue"@,
            self is Block ==> r@ == "Block"@,
            self is SemanticBlock ==> r@ == "SemanticBlock"@,
            self is ContractMemberGroup ==> r@ == "ContractMemberGroup"@,
            self is Break ==> r@ == "Break"@,
            self is Continue ==> r@ == "Continue"@,
            self is DoWhileStatement ==> r@ == "DoWhileStatement"@,
            self is EmitStatement ==> r@ == "EmitStatement"@,
            self is ExpressionStatement ==> r@ == "ExpressionStatement"@,
            self is ForStatement ==> r@ == "ForStatement"@,
            self is LoopExpression ==> r@ == "LoopExpression"@,
            self is IfStatement ==> r@ == "IfStatement"@,
            self is InlineAssembly ==> r@ == "InlineAssembly"@,
            self is PlaceholderStatement ==> r@ == "PlaceholderStatement"@,
            self is Return ==> r@ == "Return"@,
            self is RevertStatement ==> r@ == "RevertStatement"@,
            self is TryStatement ==> r@ == "TryStatement"@,
            self is UncheckedBlock ==> r@ == "UncheckedBlock"@,
            self is VariableDeclarationStatement ==> r@ == "VariableDeclarationStatement"@,
            self is WhileStatement ==> r@ == "WhileStatement"@,
            self is ContractSignature ==> r@ == "ContractSignature"@,
            self is FunctionSignature ==> r@ == "FunctionSignature"@,
            self is ModifierSignature ==> r@ == "ModifierSignature"@,
            self is ContractDefinition ==> r@ == "ContractDefinition"@,
            self is FunctionDefinition ==> r@ == "FunctionDefinition"@,
            self is EventDefinition ==> r@ == "EventDefinition"@,
            self is ErrorDefinition ==> r@ == "ErrorDefinition"@,
            self is ModifierDefinition ==> r@ == "ModifierDefinition"@,
            self is StructDefinition ==> r@ == "StructDefinition"@,
            self is EnumDefinition ==> r@ == "EnumDefinition"@,
            self is UserDefinedValueTypeDefinition ==> r@ == "UserDefinedValueTypeDefinition"@,
            self is VariableDeclaration ==> r@ == "VariableDeclaration"@,
            self is PragmaDirective ==> r@ == "PragmaDirective"@,
            self is ImportDirective ==> r@ == "ImportDirective"@,
            self is UsingForDirective ==> r@ == "UsingForDirective"@,
            self is SourceUnit ==> r@ == "SourceUnit"@,
            self is InheritanceSpecifier ==> r@ == "InheritanceSpecifier"@,
            self is ElementaryTypeName ==> r@ == "ElementaryTypeName"@,
            self is FunctionTypeName ==> r@ == "FunctionTypeName"@,
            self is ParameterList ==> r@ == "ParameterList"@,
            self is ModifierList ==> r@ == "ModifierList"@,
            self is TryCatchClause ==> r@ == "TryCatchClause"@,
            self is ModifierInvocation ==> r@ == "ModifierInvocation"@,
            self is UserDefinedTypeName ==> r@ == "UserDefinedTypeName"@,
            self is ArrayTypeName ==> r@ == "ArrayTypeName"@,
            self is Mapping ==> r@ == "Mapping"@,
            self is StructuredDocumentation ==> r@ == "StructuredDocumentation"@,
            self is Stub ==> r@ == "Stub"@,
            self is Other ==> r@ == "Other"@,
    {
        match self {
            ASTNode::Assignment { .. } => "Assignment",
            ASTNode::BinaryOperation { .. } => "BinaryOperation",
            ASTNode::Conditional { .. } => "Conditional",
            ASTNode::ElementaryTypeNameExpression { .. } => "ElementaryTypeNameExpression",
            ASTNode::FunctionCall { .. } => "FunctionCall",
            ASTNode::Argument { .. } => "Argument",
            ASTNode::TypeConversion { .. } => "TypeConversion",
            ASTNode::StructConstructor { .. } => "StructConstructor",
            ASTNode::FunctionCallOptions { .. } => "FunctionCallOptions",
            ASTNode::Identifier { .. } => "Identifier",
            ASTNode::IdentifierPath { .. } => "IdentifierPath",
            ASTNode::IndexAccess { .. } => "IndexAccess",
            ASTNode::IndexRangeAccess { .. } => "IndexRangeAccess",
            ASTNode::Literal { .. } => "Literal",
            ASTNode::MemberAccess { .. } => "MemberAccess",
            ASTNode::NewExpression { .. } => "NewExpression",
            ASTNode::TupleExpression { .. } => "TupleExpression",
            ASTNode::UnaryOperation { .. } => "UnaryOperation",
            ASTNode::EnumValue { .. } => "EnumValue",
            ASTNode::Block { .. } => "Block",
            ASTNode::SemanticBlock { .. } => "SemanticBlock",
            ASTNode::ContractMemberGroup { .. } => "ContractMemberGroup",
            ASTNode::Break { .. } => "Break",
            ASTNode::Continue { .. } => "Continue",
            ASTNode::DoWhileStatement { .. } => "DoWhileStatement",
            ASTNode::EmitStatement { .. } => "EmitStatement",
            ASTNode::ExpressionStatement { .. } => "ExpressionStatement",
            ASTNode::ForStatement { .. } => "ForStatement",
            ASTNode::LoopExpression { .. } => "LoopExpression",
            ASTNode::IfStatement { .. } => "IfStatement",
            ASTNode::InlineAssembly { .. } => "InlineAssembly",
            ASTNode::PlaceholderStatement { .. } => "PlaceholderStatement",
            ASTNode::Return { .. } => "Return",
            ASTNode::RevertStatement { .. } => "RevertStatement",
            ASTNode::TryStatement { .. } => "TryStatement",
            ASTNode::UncheckedBlock { .. } => "UncheckedBlock",
            ASTNode::VariableDeclarationStatement { .. } => "VariableDeclarationStatement",
            ASTNode::WhileStatement { .. } => "WhileStatement",
            ASTNode::ContractSignature { .. } => "ContractSignature",
            ASTNode::FunctionSignature { .. } => "FunctionSignature",
            ASTNode::ModifierSignature { .. } => "ModifierSignature",
            ASTNode::ContractDefinition { .. } => "ContractDefinition",
            ASTNode::FunctionDefinition { .. } => "FunctionDefinition",
            ASTNode::EventDefinition { .. } => "EventDefinition",
            ASTNode::ErrorDefinition { .. } => "ErrorDefinition",
            ASTNode::ModifierDefinition { .. } => "ModifierDefinition",
            ASTNode::StructDefinition { .. } => "StructDefinition",
            ASTNode::EnumDefinition { .. } => "EnumDefinition",
            ASTNode::UserDefinedValueTypeDefinition { .. } => "UserDefinedValueTypeDefinition",
            ASTNode::VariableDeclaration { .. } => "VariableDeclaration",
            ASTNode::PragmaDirective { .. } => "PragmaDirective",
            ASTNode::ImportDirective { .. } => "ImportDirective",
            ASTNode::UsingForDirective { .. } => "UsingForDirective",
            ASTNode::SourceUnit { .. } => "SourceUnit",
            ASTNode::InheritanceSpecifier { .. } => "InheritanceSpecifier",
            ASTNode::ElementaryTypeName { .. } => "ElementaryTypeName",
            ASTNode::FunctionTypeName { .. } => "FunctionTypeName",
            ASTNode::ParameterList { .. } => "ParameterList",
            ASTNode::ModifierList { .. } => "ModifierList",
            ASTNode::TryCatchClause { .. } => "TryCatchClause",
            ASTNode::ModifierInvocation { .. } => "ModifierInvocation",
            ASTNode::UserDefinedTypeName { .. } => "UserDefinedTypeName",
            ASTNode::ArrayTypeName { .. } => "ArrayTypeName",
            ASTNode::Mapping { .. } => "Mapping",
            ASTNode::StructuredDocumentation { .. } => "StructuredDocumentation",
            ASTNode::Stub { .. } => "Stub",
            ASTNode::Other { .. } => "Other",
        }
    }
}

/// The declaration that a call expression refers to.
pub open spec fn referenced_function(expression: &ASTNode) -> Option<i32>
    decreases expression,
{
    match expression {
        ASTNode::Identifier { referenced_declaration, .. } => Some(*referenced_declaration),
        ASTNode::MemberAccess { referenced_declaration, .. } => *referenced_declaration,
        ASTNode::FunctionCallOptions { expression, .. } => referenced_function(&**expression),
        _ => None,
    }
}

/// The declaration that a call expression refers to, through call options. A
/// dynamic call refers to none.
pub fn get_referenced_function_id(expression: &ASTNode) -> (r: Option<i32>)
    ensures
        r == referenced_function(expression),
    decreases expression,
{
    match expression {
        ASTNode::Identifier { referenced_declaration, .. } => Some(*referenced_declaration),
        ASTNode::MemberAccess { referenced_declaration, .. } => *referenced_declaration,
        ASTNode::FunctionCallOptions { expression, .. } => get_referenced_function_id(
            &**expression,
        ),
        _ => None,
    }
}

/// The members of a body, with groups opened.
pub open spec fn ungrouped(nodes: Seq<ASTNode>) -> Seq<ASTNode>
    decreases nodes.len(),
{
    if nodes.len() == 0 {
        seq![]
    } else {
        ungrouped(nodes.drop_last()) + match nodes.last() {
            ASTNode::ContractMemberGroup { members, .. } => members@,
            other => seq![other],
        }
    }
}

/// The members of a contract, with groups opened. Another node has none.
pub fn contract_members(contract: &ASTNode) -> (r: Vec<&ASTNode>)
    ensures
        pointees(r@) == match contract {
            ASTNode::ContractDefinition { nodes, .. } => ungrouped(nodes@),
            _ => seq![],
        },
{
    let mut r: Vec<&ASTNode> = Vec::new();
    assert(pointees(r@) =~= seq![]);
    match contract {
        ASTNode::ContractDefinition { nodes, .. } => {
            for i in 0..nodes.len()
                invariant
                    pointees(r@) == ungrouped(nodes@.take(i as int)),
            {
                assert(nodes@.take(i + 1).drop_last() =~= nodes@.take(i as int));
                let node = &nodes[i];
                match node {
                    ASTNode::ContractMemberGroup { members, .. } => {
                        push_list(&mut r, members);
                    },
                    _ => {
                        let ghost was = r@;
                        r.push(node);
                        assert(pointees(r@) =~= pointees(was) + seq![*node]);
                    },
                }
            }
            assert(nodes@.take(nodes@.len() as int) =~= nodes@);
        },
        _ => {},
    }
    r
}

/// The parameters in a parameter list.
pub open spec fn listed(node: &ASTNode) -> Option<Seq<ASTNode>> {
    match node {
        ASTNode::ParameterList { parameters, .. } => Some(parameters@),
        _ => None,
    }
}

pub open spec fn function_parameters(node: &ASTNode) -> Option<Seq<ASTNode>> {
    match node {
        ASTNode::FunctionDefinition { signature, .. } => match &**signature {
            ASTNode::FunctionSignature { parameters, .. } => listed(&**parameters),
            _ => None,
        },
        _ => None,
    }
}

pub open spec fn function_returns(node: &ASTNode) -> Option<Seq<ASTNode>> {
    match node {
        ASTNode::FunctionDefinition { signature, .. } => match &**signature {
            ASTNode::FunctionSignature { return_parameters, .. } => listed(&**return_parameters),
            _ => None,
        },
        _ => None,
    }
}

pub open spec fn struct_members(node: &ASTNode) -> Option<Seq<ASTNode>> {
    match node {
        ASTNode::StructDefinition { members, .. } => Some(members@),
        _ => None,
    }
}

/// The parameters of a function, event or error, or the members of a struct.
pub open spec fn definition_parameters(node: &ASTNode) -> Option<Seq<ASTNode>> {
    match node {
        ASTNode::FunctionDefinition { .. } => function_parameters(node),
        ASTNode::StructDefinition { members, .. } => Some(members@),
        ASTNode::EventDefinition { parameters, .. } => listed(&**parameters),
        ASTNode::ErrorDefinition { parameters, .. } => listed(&**parameters),
        _ => None,
    }
}

pub open spec fn list_of(r: Option<&Vec<ASTNode>>) -> Option<Seq<ASTNode>> {
    match r {
        Some(v) => Some(v@),
        None => None,
    }
}

fn listed_parameters(node: &ASTNode) -> (r: Option<&Vec<ASTNode>>)
    ensures
        list_of(r) == listed(node),
{
    match node {
        ASTNode::ParameterList { parameters, .. } => Some(parameters),
        _ => None,
    }
}

/// The parameters of a function definition.
pub fn get_function_parameters(func_def: &ASTNode) -> (r: Option<&Vec<ASTNode>>)
    ensures
        list_of(r) == function_parameters(func_def),
{
    match func_def {
        ASTNode::FunctionDefinition { signature, .. } => match &**signature {
            ASTNode::FunctionSignature { parameters, .. } => listed_parameters(&**parameters),
            _ => None,
        },
        _ => None,
    }
}

/// The return parameters of a function definition.
pub fn get_function_return_parameters(func_def: &ASTNode) -> (r: Option<&Vec<ASTNode>>)
    ensures
        list_of(r) == function_returns(func_def),
{
    match func_def {
        ASTNode::FunctionDefinition { signature, .. } => match &**signature {
            ASTNode::FunctionSignature { return_parameters, .. } => listed_parameters(
                &**return_parameters,
            ),
            _ => None,
        },
        _ => None,
    }
}

/// The members of a struct definition.
pub fn get_struct_members(struct_def: &ASTNode) -> (r: Option<&Vec<ASTNode>>)
    ensures
        list_of(r) == struct_members(struct_def),
{
    match struct_def {
        ASTNode::StructDefinition { members, .. } => Some(members),
        _ => None,
    }
}

fn get_event_parameters(event_def: &ASTNode) -> (r: Option<&Vec<ASTNode>>)
    ensures
        list_of(r) == match event_def {
            ASTNode::EventDefinition { parameters, .. } => listed(&**parameters),
            _ => None,
        },
{
    match event_def {
        ASTNode::EventDefinition { parameters, .. } => listed_parameters(&**parameters),
        _ => None,
    }
}

fn get_error_parameters(error_def: &ASTNode) -> (r: Option<&Vec<ASTNode>>)
    ensures
        list_of(r) == match error_def {
            ASTNode::ErrorDefinition { parameters, .. } => listed(&**parameters),
            _ => None,
        },
{
    match error_def {
        ASTNode::ErrorDefinition { parameters, .. } => listed_parameters(&**parameters),
        _ => None,
    }
}

/// The parameters or members of a definition.
pub fn get_definition_parameters(def: &ASTNode) -> (r: Option<&Vec<ASTNode>>)
    ensures
        list_of(r) == definition_parameters(def),
{
    let mut r = get_function_parameters(def);
    if r.is_none() {
        r = get_struct_members(def);
    }
    if r.is_none() {
        r = get_event_parameters(def);
    }
    if r.is_none() {
        r = get_error_parameters(def);
    }
    r
}

/// A tag of a documentation comment in source code.
#[derive(Debug)]
pub enum NatSpecTag {
    Notice,
    Dev,
    /// Targets the parameter with this name.
    Param(String),
    Return,
    Untagged,
    Ignored,
}

/// The text under one tag.
pub struct NatSpecSection {
    pub tag: NatSpecTag,
    pub text: String,
}

/// The kind of stub that stands for a node.
pub open spec fn stub_kind(node: &ASTNode) -> StubKind
    decreases node,
{
    match node {
        ASTNode::Identifier { referenced_declaration, .. } => StubKind::Identifier {
            referenced_topic: Topic::Node(*referenced_declaration),
        },
        ASTNode::IdentifierPath { referenced_declaration, .. } => StubKind::Identifier {
            referenced_topic: Topic::Node(*referenced_declaration),
        },
        ASTNode::MemberAccess { expression, .. } => StubKind::MemberAccess {
            base_kind: Box::new(stub_kind(&**expression)),
        },
        ASTNode::TypeConversion { argument, .. } => StubKind::TypeConversion {
            argument_kind: Box::new(stub_kind(&**argument)),
            argument_topic: match stub_kind(&**argument).placeholder() {
                Some(t) => t,
                None => Topic::Node(id_of(&**argument)),
            },
        },
        ASTNode::FunctionCall { expression, .. } => StubKind::CompoundExpression {
            expression_kind: Box::new(stub_kind(&**expression)),
        },
        ASTNode::StructConstructor { expression, .. } => StubKind::CompoundExpression {
            expression_kind: Box::new(stub_kind(&**expression)),
        },
        ASTNode::FunctionCallOptions { expression, .. } => StubKind::CompoundExpression {
            expression_kind: Box::new(stub_kind(&**expression)),
        },
        ASTNode::Literal { .. } => StubKind::Literal,
        ASTNode::VariableDeclarationStatement { .. } => StubKind::Declaration,
        ASTNode::VariableDeclaration { .. } => StubKind::Declaration,
        ASTNode::ContractDefinition { .. } => StubKind::Declaration,
        ASTNode::FunctionDefinition { .. } => StubKind::Declaration,
        ASTNode::ModifierDefinition { .. } => StubKind::Declaration,
        ASTNode::StructDefinition { .. } => StubKind::Declaration,
        ASTNode::EnumDefinition { .. } => StubKind::Declaration,
        ASTNode::EventDefinition { .. } => StubKind::Declaration,
        ASTNode::ErrorDefinition { .. } => StubKind::Declaration,
        ASTNode::UserDefinedValueTypeDefinition { .. } => StubKind::Declaration,
        _ => StubKind::Other,
    }
}

/// The kind that a stub for the node has.
pub fn classify_node_stub_kind(node: &ASTNode) -> (r: StubKind)
    ensures
        r == stub_kind(node),
    decreases node,
{
    match node {
        ASTNode::Identifier { referenced_declaration, .. } => StubKind::Identifier {
            referenced_topic: new_node_topic(referenced_declaration),
        },
        ASTNode::IdentifierPath { referenced_declaration, .. } => StubKind::Identifier {
            referenced_topic: new_node_topic(referenced_declaration),
        },
        ASTNode::MemberAccess { expression, .. } => StubKind::MemberAccess {
            base_kind: Box::new(classify_node_stub_kind(&**expression)),
        },
        ASTNode::TypeConversion { argument, .. } => {
            let argument_kind = Box::new(classify_node_stub_kind(&**argument));
            let argument_topic = match argument_kind.placeholder_topic() {
                Some(t) => *t,
                None => new_node_topic(&argument.node_id()),
            };
            StubKind::TypeConversion { argument_kind, argument_topic }
        },
        ASTNode::FunctionCall { expression, .. } => StubKind::CompoundExpression {
            expression_kind: Box::new(classify_node_stub_kind(&**expression)),
        },
        ASTNode::StructConstructor { expression, .. } => StubKind::CompoundExpression {
            expression_kind: Box::new(classify_node_stub_kind(&**expression)),
        },
        ASTNode::FunctionCallOptions { expression, .. } => StubKind::CompoundExpression {
            expression_kind: Box::new(classify_node_stub_kind(&**expression)),
        },
        ASTNode::Literal { .. } => StubKind::Literal,
        ASTNode::VariableDeclarationStatement { .. } => StubKind::Declaration,
        ASTNode::VariableDeclaration { .. } => StubKind::Declaration,
        ASTNode::ContractDefinition { .. } => StubKind::Declaration,
        ASTNode::FunctionDefinition { .. } => StubKind::Declaration,
        ASTNode::ModifierDefinition { .. } => StubKind::Declaration,
        ASTNode::StructDefinition { .. } => StubKind::Declaration,
        ASTNode::EnumDefinition { .. } => StubKind::Declaration,
        ASTNode::EventDefinition { .. } => StubKind::Declaration,
        ASTNode::ErrorDefinition { .. } => StubKind::Declaration,
        ASTNode::UserDefinedValueTypeDefinition { .. } => StubKind::Declaration,
        _ => StubKind::Other,
    }
}

} // verus!
