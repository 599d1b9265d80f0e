use o11a_core::domain::topic::{new_node_topic, Topic};
use o11a_core::domain::{ContractKind, ElementaryType, FunctionKind, Node, ProjectPath};
use o11a_core::ordered::OrderedMap;
use o11a_core::solidity::ast::{classify_node_stub_kind, contract_members};
use o11a_core::solidity::ast::{get_definition_parameters, get_function_parameters};
use o11a_core::solidity::ast::{get_function_return_parameters, get_referenced_function_id};
use o11a_core::solidity::ast::{get_struct_members, ASTNode, SolidityAST, SourceLocation, StubKind};
use o11a_core::solidity::ast::TypeDescriptions;
use o11a_core::solidity::delimiter::{delimiter_info_for_node, DelimiterInfo, DelimiterKind};
use o11a_core::solidity::vocabulary::{AssignmentOperator, BinaryOperator};
use o11a_core::solidity::vocabulary::{FunctionStateMutability, FunctionVisibility, LiteralKind};
use o11a_core::solidity::vocabulary::VariableVisibility;

fn n(id: i32) -> Topic {
    new_node_topic(&id)
}

fn loc() -> SourceLocation {
    SourceLocation { start: Some(7), length: Some(2), index: None }
}

fn types() -> TypeDescriptions {
    TypeDescriptions { type_identifier: "t".to_string(), type_string: "uint256".to_string() }
}

fn identifier(node_id: i32, referenced_declaration: i32) -> ASTNode {
    ASTNode::Identifier {
        node_id,
        src_location: loc(),
        name: "x".to_string(),
        overloaded_declarations: vec![],
        referenced_declaration,
    }
}

fn literal(node_id: i32) -> ASTNode {
    ASTNode::Literal {
        node_id,
        src_location: loc(),
        hex_value: String::new(),
        kind: LiteralKind::Number,
        type_descriptions: types(),
        value: Some("1".to_string()),
    }
}

fn member(node_id: i32, expression: ASTNode, referenced_declaration: Option<i32>) -> ASTNode {
    ASTNode::MemberAccess {
        node_id,
        src_location: loc(),
        expression: Box::new(expression),
        member_location: loc(),
        member_name: "m".to_string(),
        referenced_declaration,
        type_descriptions: types(),
    }
}

fn parameter_list(node_id: i32, parameters: Vec<ASTNode>, is_return_parameters: bool) -> ASTNode {
    ASTNode::ParameterList { node_id, src_location: loc(), parameters, is_return_parameters }
}

fn function(node_id: i32) -> ASTNode {
    let modifiers = ASTNode::ModifierList { node_id: 91, src_location: loc(), modifiers: vec![] };
    let signature = ASTNode::FunctionSignature {
        node_id: 90,
        src_location: loc(),
        documentation: None,
        kind: FunctionKind::Function,
        modifiers: Box::new(modifiers),
        name: "f".to_string(),
        name_location: loc(),
        declaration_id: node_id,
        parameters: Box::new(parameter_list(92, vec![identifier(1, 1), identifier(2, 2)], false)),
        return_parameters: Box::new(parameter_list(93, vec![identifier(3, 3)], true)),
        scope: 0,
        state_mutability: FunctionStateMutability::View,
        virtual_: false,
        visibility: FunctionVisibility::Public,
        implementation_declaration: None,
    };
    ASTNode::FunctionDefinition {
        node_id,
        src_location: loc(),
        signature: Box::new(signature),
        implemented: false,
        body: None,
    }
}

fn ids(nodes: &[ASTNode]) -> Vec<i32> {
    nodes.iter().map(|x| x.node_id()).collect()
}

fn assignment() -> ASTNode {
    ASTNode::Assignment {
        node_id: 10,
        src_location: loc(),
        operator: AssignmentOperator::Assign,
        right_hand_side: Box::new(literal(11)),
        left_hand_side: Box::new(identifier(12, 5)),
    }
}

#[test]
fn children_come_in_their_order() {
    let mut a = assignment();
    let children: Vec<i32> = a.nodes().iter().map(|x| x.node_id()).collect();
    assert_eq!(children, vec![11, 12]);
    assert_eq!(a.variant_name(), "Assignment");
    assert_eq!(a.src_location().start, Some(7));
    *a.nodes_mut().pop().unwrap() = literal(13);
    let children: Vec<i32> = a.nodes().iter().map(|x| x.node_id()).collect();
    assert_eq!(children, vec![11, 13]);
    let f = function(20);
    let children: Vec<i32> = f.nodes().iter().map(|x| x.node_id()).collect();
    assert_eq!(children, vec![90]);
}

#[test]
fn range_accesses_hand_out_their_children() {
    let mut a = ASTNode::IndexRangeAccess {
        node_id: 1,
        src_location: loc(),
        nodes: vec![ASTNode::Break { node_id: 2, src_location: loc() }],
        body: Some(Box::new(ASTNode::Continue { node_id: 3, src_location: loc() })),
    };
    let children: Vec<i32> = a.nodes_mut().iter().map(|x| x.node_id()).collect();
    assert_eq!(children, vec![2, 3]);
    *a.nodes_mut().pop().unwrap() = literal(4);
    let children: Vec<i32> = a.nodes_mut().iter().map(|x| x.node_id()).collect();
    assert_eq!(children, vec![2, 4]);
}

#[test]
fn stubs_resolve_to_their_nodes() {
    let stub = |id: i32| ASTNode::Stub {
        node_id: id,
        src_location: loc(),
        topic: n(id),
        kind: StubKind::Other,
    };
    let mut map = OrderedMap::new();
    map.insert(n(1), Node::Solidity(assignment()));
    assert_eq!(stub(1).resolve(&map).node_id(), 10);
    assert_eq!(stub(2).resolve(&map).node_id(), 2);
    let block = ASTNode::SemanticBlock {
        node_id: 3,
        src_location: loc(),
        documentation: None,
        statements: vec![stub(1), stub(2)],
    };
    assert!(block.is_containing_block());
    assert!(!assignment().is_containing_block());
    let inside: Vec<i32> = block.resolve_nodes(&map).iter().map(|x| x.node_id()).collect();
    assert_eq!(inside, vec![10, 2]);
    let ast = SolidityAST {
        node_id: 0,
        nodes: vec![stub(2), stub(1)],
        project_path: ProjectPath { file_path: "a.sol".to_string() },
    };
    let top: Vec<i32> = ast.resolve_nodes(&map).iter().map(|x| x.node_id()).collect();
    assert_eq!(top, vec![2, 10]);
    assert_eq!(Node::Solidity(assignment()).source_location_start(), Some(7));
}

#[test]
fn called_functions_are_found_behind_options() {
    assert_eq!(get_referenced_function_id(&identifier(1, 5)), Some(5));
    assert_eq!(get_referenced_function_id(&member(2, identifier(1, 5), Some(6))), Some(6));
    assert_eq!(get_referenced_function_id(&member(2, identifier(1, 5), None)), None);
    let options = ASTNode::FunctionCallOptions {
        node_id: 3,
        src_location: loc(),
        expression: Box::new(member(2, identifier(1, 5), Some(6))),
        options: vec![],
    };
    assert_eq!(get_referenced_function_id(&options), Some(6));
    assert_eq!(get_referenced_function_id(&literal(4)), None);
}

#[test]
fn groups_of_members_are_opened() {
    let signature = ASTNode::ContractSignature {
        node_id: 1,
        src_location: loc(),
        documentation: None,
        name: "C".to_string(),
        name_location: loc(),
        declaration_id: 2,
        contract_kind: ContractKind::Contract,
        abstract_: false,
        base_contracts: vec![],
        directives: vec![],
    };
    let group = ASTNode::ContractMemberGroup {
        node_id: 3,
        src_location: loc(),
        documentation: None,
        members: vec![function(4), function(5)],
    };
    let contract = ASTNode::ContractDefinition {
        node_id: 2,
        src_location: loc(),
        signature: Box::new(signature),
        nodes: vec![function(6), group, function(7)],
    };
    let members: Vec<i32> = contract_members(&contract).iter().map(|x| x.node_id()).collect();
    assert_eq!(members, vec![6, 4, 5, 7]);
    assert!(contract_members(&literal(1)).is_empty());
}

#[test]
fn definitions_list_their_parameters() {
    let f = function(20);
    assert_eq!(ids(get_function_parameters(&f).unwrap()), vec![1, 2]);
    assert_eq!(ids(get_function_return_parameters(&f).unwrap()), vec![3]);
    assert_eq!(ids(get_definition_parameters(&f).unwrap()), vec![1, 2]);
    let s = ASTNode::StructDefinition {
        node_id: 1,
        src_location: loc(),
        members: vec![identifier(8, 8)],
        canonical_name: "S".to_string(),
        name: "S".to_string(),
        name_location: loc(),
        visibility: VariableVisibility::Public,
    };
    assert_eq!(ids(get_struct_members(&s).unwrap()), vec![8]);
    assert_eq!(ids(get_definition_parameters(&s).unwrap()), vec![8]);
    let e = ASTNode::EventDefinition {
        node_id: 1,
        src_location: loc(),
        name: "E".to_string(),
        name_location: loc(),
        parameters: Box::new(parameter_list(2, vec![identifier(9, 9)], false)),
    };
    assert_eq!(ids(get_definition_parameters(&e).unwrap()), vec![9]);
    assert!(get_function_parameters(&e).is_none());
    let e = ASTNode::ErrorDefinition {
        node_id: 1,
        src_location: loc(),
        name: "E".to_string(),
        name_location: loc(),
        parameters: Box::new(parameter_list(2, vec![], false)),
    };
    assert!(get_definition_parameters(&e).unwrap().is_empty());
    assert!(get_definition_parameters(&literal(1)).is_none());
}

#[test]
fn stub_kinds_look_through_accesses() {
    let kind = classify_node_stub_kind(&member(2, identifier(1, 5), None));
    assert!(kind.is_identifier_like());
    assert_eq!(kind.placeholder_topic(), Some(&n(5)));
    let conversion = |argument: ASTNode| ASTNode::TypeConversion {
        node_id: 3,
        src_location: loc(),
        argument: Box::new(argument),
        expression: Box::new(identifier(4, 4)),
        name_locations: vec![],
        names: vec![],
        try_call: false,
        type_descriptions: types(),
    };
    let kind = classify_node_stub_kind(&conversion(literal(6)));
    assert!(kind.is_identifier_like());
    assert_eq!(kind.placeholder_topic(), Some(&n(6)));
    let kind = classify_node_stub_kind(&conversion(identifier(6, 9)));
    assert_eq!(kind.placeholder_topic(), Some(&n(9)));
    let kind = classify_node_stub_kind(&assignment());
    assert!(matches!(kind, StubKind::Other));
    assert!(!kind.is_identifier_like());
    assert!(kind.placeholder_topic().is_none());
    assert!(matches!(classify_node_stub_kind(&function(1)), StubKind::Declaration));
}

#[test]
fn control_flow_has_delimiters() {
    let node = ASTNode::WhileStatement {
        node_id: 4,
        src_location: loc(),
        condition: Box::new(identifier(5, 1)),
        body: None,
    };
    let info = DelimiterInfo {
        kind: DelimiterKind::While,
        node_topic: n(4),
        condition_topic: n(5),
    };
    assert_eq!(delimiter_info_for_node(&node), Some(info));
    assert_eq!(delimiter_info_for_node(&assignment()), None);
}

#[test]
fn connectives_do_not_relate() {
    assert!(BinaryOperator::Add.is_relative_operator());
    assert!(!BinaryOperator::And.is_relative_operator());
    assert!(!BinaryOperator::Or.is_relative_operator());
}

#[test]
fn elementary_types_by_family() {
    assert!(ElementaryType::Uint { bits: 8 }.is_numeric());
    assert!(!ElementaryType::Bool.is_numeric());
    assert!(ElementaryType::AddressPayable.is_address());
    assert!(!ElementaryType::Bytes.is_address());
}
