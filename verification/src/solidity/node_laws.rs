//! What nodes hold, field by field.
use crate::domain::node::Node;
use crate::domain::topic::Topic;
use crate::ordered::mapping;
use crate::solidity::ast::{all_resolved, children_of, definition_parameters, function_parameters};
use crate::solidity::ast::{function_returns, id_of, location_of, opt_node, opt_nodes};
use crate::solidity::ast::{referenced_function, resolved, same_frame, slots_of, struct_members};
use crate::solidity::ast::{stub_kind, type_label, ungrouped, ASTNode, StubKind};
use crate::solidity::delimiter::{delimiter_info, DelimiterKind};
use vstd::prelude::*;

verus! {

/// `x` is held in the slot, if anything is.
pub open spec fn in_slot(slot: Option<Box<ASTNode>>, x: ASTNode) -> bool {
    match slot {
        Some(n) => *n == x,
        None => false,
    }
}

/// `x` is held in the list, if there is one.
pub open spec fn in_list(list: Option<Vec<ASTNode>>, x: ASTNode) -> bool {
    match list {
        Some(l) => l@.contains(x),
        None => false,
    }
}

/// One of the fields of `node` holds `x`.
pub open spec fn holds(node: &ASTNode, x: ASTNode) -> bool {
    match *node {
        ASTNode::Assignment { right_hand_side, left_hand_side, .. } => {
            ||| *right_hand_side == x
            ||| *left_hand_side == x
        },
        ASTNode::BinaryOperation { left_expression, right_expression, .. } => {
            ||| *left_expression == x
            ||| *right_expression == x
        },
        ASTNode::Conditional { condition, true_expression, false_expression, .. } => {
            ||| *condition == x
            ||| *true_expression == x
            ||| in_slot(false_expression, x)
        },
        ASTNode::ElementaryTypeNameExpression { type_node, .. } => {
            ||| *type_node == x
        },
        ASTNode::FunctionCall { arguments, expression, .. } => {
            ||| arguments@.contains(x)
            ||| *expression == x
        },
        ASTNode::Argument { parameter, argument, .. } => {
            ||| in_slot(parameter, x)
            ||| *argument == x
        },
        ASTNode::TypeConversion { argument, expression, .. } => {
            ||| *argument == x
            ||| *expression == x
        },
        ASTNode::StructConstructor { arguments, expression, .. } => {
            ||| arguments@.contains(x)
            ||| *expression == x
        },
        ASTNode::FunctionCallOptions { expression, options, .. } => {
            ||| *expression == x
            ||| options@.contains(x)
        },
        ASTNode::IndexAccess { base_expression, index_expression, .. } => {
            ||| *base_expression == x
            ||| in_slot(index_expression, x)
        },
        ASTNode::IndexRangeAccess { nodes, body, .. } => {
            ||| nodes@.contains(x)
            ||| in_slot(body, x)
        },
        ASTNode::MemberAccess { expression, .. } => {
            ||| *expression == x
        },
        ASTNode::NewExpression { type_node, .. } => {
            ||| *type_node == x
        },
        ASTNode::TupleExpression { components, .. } => {
            ||| components@.contains(x)
        },
        ASTNode::UnaryOperation { sub_expression, .. } => {
            ||| *sub_expression == x
        },
        ASTNode::Block { statements, .. } => {
            ||| statements@.contains(x)
        },
        ASTNode::SemanticBlock { statements, .. } => {
            ||| statements@.contains(x)
        },
        ASTNode::ContractMemberGroup { members, .. } => {
            ||| members@.contains(x)
        },
        ASTNode::DoWhileStatement { condition, body, .. } => {
            ||| *condition == x
            ||| in_slot(body, x)
        },
        ASTNode::EmitStatement { event_call, .. } => {
            ||| *event_call == x
        },
        ASTNode::ExpressionStatement { expression, .. } => {
            ||| *expression == x
        },
        ASTNode::ForStatement { condition, body, .. } => {
            ||| *condition == x
            ||| *body == x
        },
        ASTNode::LoopExpression { initialization_expression, condition, loop_expression, .. } => {
            ||| in_slot(initialization_expression, x)
            ||| in_slot(condition, x)
            ||| in_slot(loop_expression, x)
        },
        ASTNode::IfStatement { condition, true_body, false_body, .. } => {
            ||| *condition == x
            ||| *true_body == x
            ||| in_slot(false_body, x)
        },
        ASTNode::Return { expression, .. } => {
            ||| in_slot(expression, x)
        },
        ASTNode::RevertStatement { error_call, .. } => {
            ||| *error_call == x
        },
        ASTNode::TryStatement { clauses, external_call, .. } => {
            ||| clauses@.contains(x)
            ||| *external_call == x
        },
        ASTNode::UncheckedBlock { statements, .. } => {
            ||| statements@.contains(x)
        },
        ASTNode::VariableDeclarationStatement { declarations, initial_value, .. } => {
            ||| declarations@.contains(x)
            ||| in_slot(initial_value, x)
        },
        ASTNode::WhileStatement { condition, body, .. } => {
            ||| *condition == x
            ||| in_slot(body, x)
        },
        ASTNode::ContractSignature { documentation, base_contracts, directives, .. } => {
            ||| in_slot(documentation, x)
            ||| base_contracts@.contains(x)
            ||| directives@.contains(x)
        },
        ASTNode::FunctionSignature { documentation, modifiers, parameters, return_parameters, .. } => {
            ||| in_slot(documentation, x)
            ||| *modifiers == x
            ||| *parameters == x
            ||| *return_parameters == x
        },
        ASTNode::ModifierSignature { documentation, parameters, .. } => {
            ||| in_slot(documentation, x)
            ||| *parameters == x
        },
        ASTNode::ContractDefinition { signature, nodes, .. } => {
            ||| *signature == x
            ||| nodes@.contains(x)
        },
        ASTNode::FunctionDefinition { signature, body, .. } => {
            ||| *signature == x
            ||| in_slot(body, x)
        },
        ASTNode::EventDefinition { parameters, .. } => {
            ||| *parameters == x
        },
        ASTNode::ErrorDefinition { parameters, .. } => {
            ||| *parameters == x
        },
        ASTNode::ModifierDefinition { signature, body, .. } => {
            ||| *signature == x
            ||| *body == x
        },
        ASTNode::StructDefinition { members, .. } => {
            ||| members@.contains(x)
        },
        ASTNode::EnumDefinition { members, .. } => {
            ||| members@.contains(x)
        },
        ASTNode::UserDefinedValueTypeDefinition { underlying_type, .. } => {
            ||| *underlying_type == x
        },
        ASTNode::VariableDeclaration { type_node, value, .. } => {
            ||| *type_node == x
            ||| in_slot(value, x)
        },
        ASTNode::UsingForDirective { library_name, type_node, .. } => {
            ||| in_slot(library_name, x)
            ||| in_slot(type_node, x)
        },
        ASTNode::SourceUnit { nodes, .. } => {
            ||| nodes@.contains(x)
        },
        ASTNode::InheritanceSpecifier { base_name, .. } => {
            ||| *base_name == x
        },
        ASTNode::FunctionTypeName { parameter_types, return_parameter_types, .. } => {
            ||| *parameter_types == x
            ||| *return_parameter_types == x
        },
        ASTNode::ParameterList { parameters, .. } => {
            ||| parameters@.contains(x)
        },
        ASTNode::ModifierList { modifiers, .. } => {
            ||| modifiers@.contains(x)
        },
        ASTNode::TryCatchClause { block, parameters, .. } => {
            ||| *block == x
            ||| in_slot(parameters, x)
        },
        ASTNode::ModifierInvocation { modifier_name, arguments, .. } => {
            ||| *modifier_name == x
            ||| in_list(arguments, x)
        },
        ASTNode::UserDefinedTypeName { path_node, .. } => {
            ||| *path_node == x
        },
        ASTNode::ArrayTypeName { base_type, .. } => {
            ||| *base_type == x
        },
        ASTNode::Mapping { key_type, value_type, .. } => {
            ||| *key_type == x
            ||| *value_type == x
        },
        ASTNode::Other { nodes, body, .. } => {
            ||| nodes@.contains(x)
            ||| in_slot(body, x)
        },
        _ => false,
    }
}

proof fn lemma_one(x: ASTNode, y: ASTNode)
    ensures
        seq![x].contains(y) == (x == y),
{
    assert(seq![x][0] == x);
}

proof fn lemma_slot(slot: Option<Box<ASTNode>>, x: ASTNode)
    ensures
        opt_node(slot).contains(x) == in_slot(slot, x),
{
    if let Some(n) = slot {
        lemma_one(*n, x);
    }
}

proof fn lemma_both(a: Seq<ASTNode>, b: Seq<ASTNode>, x: ASTNode)
    ensures
        (a + b).contains(x) == (a.contains(x) || b.contains(x)),
{
    crate::resolution_graph::links::lemma_joined_holds(a, b, x);
}

/// The children of a node are exactly the nodes that its fields hold.
pub proof fn children_are_what_a_node_holds(node: &ASTNode, x: ASTNode)
    ensures
        children_of(node).contains(x) <==> holds(node, x),
{
    match node {
        ASTNode::Assignment { right_hand_side, left_hand_side, .. } => {
            lemma_one(**right_hand_side, x);
            lemma_one(**left_hand_side, x);
            lemma_both(seq![**right_hand_side], seq![**left_hand_side], x);
        },
        ASTNode::BinaryOperation { left_expression, right_expression, .. } => {
            lemma_one(**left_expression, x);
            lemma_one(**right_expression, x);
            lemma_both(seq![**left_expression], seq![**right_expression], x);
        },
        ASTNode::Conditional { condition, true_expression, false_expression, .. } => {
            lemma_one(**condition, x);
            lemma_one(**true_expression, x);
            lemma_both(seq![**condition], seq![**true_expression], x);
            lemma_slot(*false_expression, x);
            lemma_both(seq![**condition] + seq![**true_expression], opt_node(*false_expression), x);
        },
        ASTNode::ElementaryTypeNameExpression { type_node, .. } => {
            lemma_one(**type_node, x);
        },
        ASTNode::FunctionCall { arguments, expression, .. } => {
            lemma_one(**expression, x);
            lemma_both(seq![**expression], arguments@, x);
        },
        ASTNode::Argument { parameter, argument, .. } => {
            lemma_one(**argument, x);
            lemma_slot(*parameter, x);
            lemma_both(seq![**argument], opt_node(*parameter), x);
        },
        ASTNode::TypeConversion { argument, expression, .. } => {
            lemma_one(**expression, x);
            lemma_one(**argument, x);
            lemma_both(seq![**expression], seq![**argument], x);
        },
        ASTNode::StructConstructor { arguments, expression, .. } => {
            lemma_one(**expression, x);
            lemma_both(seq![**expression], arguments@, x);
        },
        ASTNode::FunctionCallOptions { expression, options, .. } => {
            lemma_one(**expression, x);
            lemma_both(seq![**expression], options@, x);
        },
        ASTNode::IndexAccess { base_expression, index_expression, .. } => {
            lemma_one(**base_expression, x);
            lemma_slot(*index_expression, x);
            lemma_both(seq![**base_expression], opt_node(*index_expression), x);
        },
        ASTNode::MemberAccess { expression, .. } => {
            lemma_one(**expression, x);
        },
        ASTNode::NewExpression { type_node, .. } => {
            lemma_one(**type_node, x);
        },
        ASTNode::UnaryOperation { sub_expression, .. } => {
            lemma_one(**sub_expression, x);
        },
        ASTNode::DoWhileStatement { condition, body, .. } => {
            lemma_one(**condition, x);
            lemma_slot(*body, x);
            lemma_both(seq![**condition], opt_node(*body), x);
        },
        ASTNode::EmitStatement { event_call, .. } => {
            lemma_one(**event_call, x);
        },
        ASTNode::ExpressionStatement { expression, .. } => {
            lemma_one(**expression, x);
        },
        ASTNode::ForStatement { condition, body, .. } => {
            lemma_one(**condition, x);
            lemma_one(**body, x);
            lemma_both(seq![**condition], seq![**body], x);
        },
        ASTNode::LoopExpression { initialization_expression, condition, loop_expression, .. } => {
            lemma_slot(*initialization_expression, x);
            lemma_slot(*condition, x);
            lemma_both(opt_node(*initialization_expression), opt_node(*condition), x);
            lemma_slot(*loop_expression, x);
            lemma_both(opt_node(*initialization_expression) + opt_node(*condition), opt_node(*loop_expression), x);
        },
        ASTNode::IfStatement { condition, true_body, false_body, .. } => {
            lemma_one(**condition, x);
            lemma_one(**true_body, x);
            lemma_both(seq![**condition], seq![**true_body], x);
            lemma_slot(*false_body, x);
            lemma_both(seq![**condition] + seq![**true_body], opt_node(*false_body), x);
        },
        ASTNode::Return { expression, .. } => {
            lemma_slot(*expression, x);
        },
        ASTNode::RevertStatement { error_call, .. } => {
            lemma_one(**error_call, x);
        },
        ASTNode::TryStatement { clauses, external_call, .. } => {
            lemma_one(**external_call, x);
            lemma_both(seq![**external_call], clauses@, x);
        },
        ASTNode::VariableDeclarationStatement { declarations, initial_value, .. } => {
            lemma_slot(*initial_value, x);
            lemma_both(declarations@, opt_node(*initial_value), x);
        },
        ASTNode::WhileStatement { condition, body, .. } => {
            lemma_slot(*body, x);
            lemma_one(**condition, x);
            lemma_both(opt_node(*body), seq![**condition], x);
        },
        ASTNode::ContractSignature { documentation, base_contracts, directives, .. } => {
            lemma_slot(*documentation, x);
            lemma_both(opt_node(*documentation), base_contracts@, x);
            lemma_both(opt_node(*documentation) + base_contracts@, directives@, x);
        },
        ASTNode::FunctionSignature { documentation, modifiers, parameters, return_parameters, .. } => {
            lemma_slot(*documentation, x);
            lemma_one(**modifiers, x);
            lemma_both(opt_node(*documentation), seq![**modifiers], x);
            lemma_one(**parameters, x);
            lemma_both(opt_node(*documentation) + seq![**modifiers], seq![**parameters], x);
            lemma_one(**return_parameters, x);
            lemma_both(opt_node(*documentation) + seq![**modifiers] + seq![**parameters], seq![**return_parameters], x);
        },
        ASTNode::ModifierSignature { documentation, parameters, .. } => {
            lemma_slot(*documentation, x);
            lemma_one(**parameters, x);
            lemma_both(opt_node(*documentation), seq![**parameters], x);
        },
        ASTNode::ContractDefinition { signature, nodes, .. } => {
            lemma_one(**signature, x);
            lemma_both(seq![**signature], nodes@, x);
        },
        ASTNode::FunctionDefinition { signature, body, .. } => {
            lemma_one(**signature, x);
            lemma_slot(*body, x);
            lemma_both(seq![**signature], opt_node(*body), x);
        },
        ASTNode::EventDefinition { parameters, .. } => {
            lemma_one(**parameters, x);
        },
        ASTNode::ErrorDefinition { parameters, .. } => {
            lemma_one(**parameters, x);
        },
        ASTNode::ModifierDefinition { signature, body, .. } => {
            lemma_one(**signature, x);
            lemma_one(**body, x);
            lemma_both(seq![**signature], seq![**body], x);
        },
        ASTNode::UserDefinedValueTypeDefinition { underlying_type, .. } => {
            lemma_one(**underlying_type, x);
        },
        ASTNode::VariableDeclaration { type_node, value, .. } => {
            lemma_one(**type_node, x);
            lemma_slot(*value, x);
            lemma_both(seq![**type_node], opt_node(*value), x);
        },
        ASTNode::UsingForDirective { library_name, type_node, .. } => {
            lemma_slot(*type_node, x);
            lemma_slot(*library_name, x);
            lemma_both(opt_node(*type_node), opt_node(*library_name), x);
        },
        ASTNode::InheritanceSpecifier { base_name, .. } => {
            lemma_one(**base_name, x);
        },
        ASTNode::FunctionTypeName { parameter_types, return_parameter_types, .. } => {
            lemma_one(**parameter_types, x);
            lemma_one(**return_parameter_types, x);
            lemma_both(seq![**parameter_types], seq![**return_parameter_types], x);
        },
        ASTNode::TryCatchClause { block, parameters, .. } => {
            lemma_one(**block, x);
            lemma_slot(*parameters, x);
            lemma_both(seq![**block], opt_node(*parameters), x);
        },
        ASTNode::ModifierInvocation { modifier_name, arguments, .. } => {
            lemma_one(**modifier_name, x);
            lemma_both(seq![**modifier_name], opt_nodes(*arguments), x);
        },
        ASTNode::UserDefinedTypeName { path_node, .. } => {
            lemma_one(**path_node, x);
        },
        ASTNode::ArrayTypeName { base_type, .. } => {
            lemma_one(**base_type, x);
        },
        ASTNode::Mapping { key_type, value_type, .. } => {
            lemma_one(**key_type, x);
            lemma_one(**value_type, x);
            lemma_both(seq![**key_type], seq![**value_type], x);
        },
        ASTNode::IndexRangeAccess { nodes, body, .. } => {
            lemma_slot(*body, x);
            lemma_both(nodes@, opt_node(*body), x);
        },
        ASTNode::Other { nodes, body, .. } => {
            lemma_slot(*body, x);
            lemma_both(nodes@, opt_node(*body), x);
        },
        _ => {},
    }
}

/// What a node hands out for change is exactly what its fields hold.
pub proof fn slots_are_what_a_node_holds(node: &ASTNode, x: ASTNode)
    ensures
        slots_of(node).contains(x) <==> holds(node, x),
{
    match node {
        ASTNode::Assignment { right_hand_side, left_hand_side, .. } => {
            lemma_one(**right_hand_side, x);
            lemma_one(**left_hand_side, x);
            lemma_both(seq![**right_hand_side], seq![**left_hand_side], x);
        },
        ASTNode::BinaryOperation { left_expression, right_expression, .. } => {
            lemma_one(**left_expression, x);
            lemma_one(**right_expression, x);
            lemma_both(seq![**left_expression], seq![**right_expression], x);
        },
        ASTNode::Conditional { condition, true_expression, false_expression, .. } => {
            lemma_one(**condition, x);
            lemma_one(**true_expression, x);
            lemma_both(seq![**condition], seq![**true_expression], x);
            lemma_slot(*false_expression, x);
            lemma_both(seq![**condition] + seq![**true_expression], opt_node(*false_expression), x);
        },
        ASTNode::ElementaryTypeNameExpression { type_node, .. } => {
            lemma_one(**type_node, x);
        },
        ASTNode::FunctionCall { arguments, expression, .. } => {
            lemma_one(**expression, x);
            lemma_both(seq![**expression], arguments@, x);
        },
        ASTNode::Argument { parameter, argument, .. } => {
            lemma_one(**argument, x);
            lemma_slot(*parameter, x);
            lemma_both(seq![**argument], opt_node(*parameter), x);
        },
        ASTNode::TypeConversion { argument, expression, .. } => {
            lemma_one(**expression, x);
            lemma_one(**argument, x);
            lemma_both(seq![**expression], seq![**argument], x);
        },
        ASTNode::StructConstructor { arguments, expression, .. } => {
            lemma_one(**expression, x);
            lemma_both(seq![**expression], arguments@, x);
        },
        ASTNode::FunctionCallOptions { expression, options, .. } => {
            lemma_one(**expression, x);
            lemma_both(seq![**expression], options@, x);
        },
        ASTNode::IndexAccess { base_expression, index_expression, .. } => {
            lemma_one(**base_expression, x);
            lemma_slot(*index_expression, x);
            lemma_both(seq![**base_expression], opt_node(*index_expression), x);
        },
        ASTNode::MemberAccess { expression, .. } => {
            lemma_one(**expression, x);
        },
        ASTNode::NewExpression { type_node, .. } => {
            lemma_one(**type_node, x);
        },
        ASTNode::UnaryOperation { sub_expression, .. } => {
            lemma_one(**sub_expression, x);
        },
        ASTNode::DoWhileStatement { condition, body, .. } => {
            lemma_one(**condition, x);
            lemma_slot(*body, x);
            lemma_both(seq![**condition], opt_node(*body), x);
        },
        ASTNode::EmitStatement { event_call, .. } => {
            lemma_one(**event_call, x);
        },
        ASTNode::ExpressionStatement { expression, .. } => {
            lemma_one(**expression, x);
        },
        ASTNode::ForStatement { condition, body, .. } => {
            lemma_one(**condition, x);
            lemma_one(**body, x);
            lemma_both(seq![**condition], seq![**body], x);
        },
        ASTNode::LoopExpression { initialization_expression, condition, loop_expression, .. } => {
            lemma_slot(*initialization_expression, x);
            lemma_slot(*condition, x);
            lemma_both(opt_node(*initialization_expression), opt_node(*condition), x);
            lemma_slot(*loop_expression, x);
            lemma_both(opt_node(*initialization_expression) + opt_node(*condition), opt_node(*loop_expression), x);
        },
        ASTNode::IfStatement { condition, true_body, false_body, .. } => {
            lemma_one(**condition, x);
            lemma_one(**true_body, x);
            lemma_both(seq![**condition], seq![**true_body], x);
            lemma_slot(*false_body, x);
            lemma_both(seq![**condition] + seq![**true_body], opt_node(*false_body), x);
        },
        ASTNode::Return { expression, .. } => {
            lemma_slot(*expression, x);
        },
        ASTNode::RevertStatement { error_call, .. } => {
            lemma_one(**error_call, x);
        },
        ASTNode::TryStatement { clauses, external_call, .. } => {
            lemma_one(**external_call, x);
            lemma_both(seq![**external_call], clauses@, x);
        },
        ASTNode::VariableDeclarationStatement { declarations, initial_value, .. } => {
            lemma_slot(*initial_value, x);
            lemma_both(declarations@, opt_node(*initial_value), x);
        },
        ASTNode::WhileStatement { condition, body, .. } => {
            lemma_one(**condition, x);
            lemma_slot(*body, x);
            lemma_both(seq![**condition], opt_node(*body), x);
        },
        ASTNode::ContractSignature { documentation, base_contracts, directives, .. } => {
            lemma_slot(*documentation, x);
            lemma_both(opt_node(*documentation), base_contracts@, x);
            lemma_both(opt_node(*documentation) + base_contracts@, directives@, x);
        },
        ASTNode::FunctionSignature { documentation, modifiers, parameters, return_parameters, .. } => {
            lemma_slot(*documentation, x);
            lemma_one(**modifiers, x);
            lemma_both(opt_node(*documentation), seq![**modifiers], x);
            lemma_one(**parameters, x);
            lemma_both(opt_node(*documentation) + seq![**modifiers], seq![**parameters], x);
            lemma_one(**return_parameters, x);
            lemma_both(opt_node(*documentation) + seq![**modifiers] + seq![**parameters], seq![**return_parameters], x);
        },
        ASTNode::ModifierSignature { documentation, parameters, .. } => {
            lemma_slot(*documentation, x);
            lemma_one(**parameters, x);
            lemma_both(opt_node(*documentation), seq![**parameters], x);
        },
        ASTNode::ContractDefinition { signature, nodes, .. } => {
            lemma_one(**signature, x);
            lemma_both(seq![**signature], nodes@, x);
        },
        ASTNode::FunctionDefinition { signature, body, .. } => {
            lemma_one(**signature, x);
            lemma_slot(*body, x);
            lemma_both(seq![**signature], opt_node(*body), x);
        },
        ASTNode::EventDefinition { parameters, .. } => {
            lemma_one(**parameters, x);
        },
        ASTNode::ErrorDefinition { parameters, .. } => {
            lemma_one(**parameters, x);
        },
        ASTNode::ModifierDefinition { signature, body, .. } => {
            lemma_one(**signature, x);
            lemma_one(**body, x);
            lemma_both(seq![**signature], seq![**body], x);
        },
        ASTNode::UserDefinedValueTypeDefinition { underlying_type, .. } => {
            lemma_one(**underlying_type, x);
        },
        ASTNode::VariableDeclaration { type_node, value, .. } => {
            lemma_one(**type_node, x);
            lemma_slot(*value, x);
            lemma_both(seq![**type_node], opt_node(*value), x);
        },
        ASTNode::UsingForDirective { library_name, type_node, .. } => {
            lemma_slot(*type_node, x);
            lemma_slot(*library_name, x);
            lemma_both(opt_node(*type_node), opt_node(*library_name), x);
        },
        ASTNode::InheritanceSpecifier { base_name, .. } => {
            lemma_one(**base_name, x);
        },
        ASTNode::FunctionTypeName { parameter_types, return_parameter_types, .. } => {
            lemma_one(**parameter_types, x);
            lemma_one(**return_parameter_types, x);
            lemma_both(seq![**parameter_types], seq![**return_parameter_types], x);
        },
        ASTNode::TryCatchClause { block, parameters, .. } => {
            lemma_one(**block, x);
            lemma_slot(*parameters, x);
            lemma_both(seq![**block], opt_node(*parameters), x);
        },
        ASTNode::ModifierInvocation { modifier_name, arguments, .. } => {
            lemma_one(**modifier_name, x);
            lemma_both(seq![**modifier_name], opt_nodes(*arguments), x);
        },
        ASTNode::UserDefinedTypeName { path_node, .. } => {
            lemma_one(**path_node, x);
        },
        ASTNode::ArrayTypeName { base_type, .. } => {
            lemma_one(**base_type, x);
        },
        ASTNode::Mapping { key_type, value_type, .. } => {
            lemma_one(**key_type, x);
            lemma_one(**value_type, x);
            lemma_both(seq![**key_type], seq![**value_type], x);
        },
        ASTNode::IndexRangeAccess { nodes, body, .. } => {
            lemma_slot(*body, x);
            lemma_both(nodes@, opt_node(*body), x);
        },
        ASTNode::Other { nodes, body, .. } => {
            lemma_slot(*body, x);
            lemma_both(nodes@, opt_node(*body), x);
        },
        _ => {},
    }
}

/// Whatever it is, a node has the number that it was given.
pub proof fn nodes_have_their_number(node: &ASTNode)
    ensures
        node is Assignment ==> id_of(node) == node->Assignment_node_id,
        node is BinaryOperation ==> id_of(node) == node->BinaryOperation_node_id,
        node is Conditional ==> id_of(node) == node->Conditional_node_id,
        node is ElementaryTypeNameExpression ==> id_of(node) == node->ElementaryTypeNameExpression_node_id,
        node is FunctionCall ==> id_of(node) == node->FunctionCall_node_id,
        node is Argument ==> id_of(node) == node->Argument_node_id,
        node is TypeConversion ==> id_of(node) == node->TypeConversion_node_id,
        node is StructConstructor ==> id_of(node) == node->StructConstructor_node_id,
        node is FunctionCallOptions ==> id_of(node) == node->FunctionCallOptions_node_id,
        node is Identifier ==> id_of(node) == node->Identifier_node_id,
        node is IdentifierPath ==> id_of(node) == node->IdentifierPath_node_id,
        node is IndexAccess ==> id_of(node) == node->IndexAccess_node_id,
        node is IndexRangeAccess ==> id_of(node) == node->IndexRangeAccess_node_id,
        node is Literal ==> id_of(node) == node->Literal_node_id,
        node is MemberAccess ==> id_of(node) == node->MemberAccess_node_id,
        node is NewExpression ==> id_of(node) == node->NewExpression_node_id,
        node is TupleExpression ==> id_of(node) == node->TupleExpression_node_id,
        node is UnaryOperation ==> id_of(node) == node->UnaryOperation_node_id,
        node is EnumValue ==> id_of(node) == node->EnumValue_node_id,
        node is Block ==> id_of(node) == node->Block_node_id,
        node is SemanticBlock ==> id_of(node) == node->SemanticBlock_node_id,
        node is ContractMemberGroup ==> id_of(node) == node->ContractMemberGroup_node_id,
        node is Break ==> id_of(node) == node->Break_node_id,
        node is Continue ==> id_of(node) == node->Continue_node_id,
        node is DoWhileStatement ==> id_of(node) == node->DoWhileStatement_node_id,
        node is EmitStatement ==> id_of(node) == node->EmitStatement_node_id,
        node is ExpressionStatement ==> id_of(node) == node->ExpressionStatement_node_id,
        node is ForStatement ==> id_of(node) == node->ForStatement_node_id,
        node is LoopExpression ==> id_of(node) == node->LoopExpression_node_id,
        node is IfStatement ==> id_of(node) == node->IfStatement_node_id,
        node is InlineAssembly ==> id_of(node) == node->InlineAssembly_node_id,
        node is PlaceholderStatement ==> id_of(node) == node->PlaceholderStatement_node_id,
        node is Return ==> id_of(node) == node->Return_node_id,
        node is RevertStatement ==> id_of(node) == node->RevertStatement_node_id,
        node is TryStatement ==> id_of(node) == node->TryStatement_node_id,
        node is UncheckedBlock ==> id_of(node) == node->UncheckedBlock_node_id,
        node is VariableDeclarationStatement ==> id_of(node) == node->VariableDeclarationStatement_node_id,
        node is WhileStatement ==> id_of(node) == node->WhileStatement_node_id,
        node is ContractSignature ==> id_of(node) == node->ContractSignature_node_id,
        node is FunctionSignature ==> id_of(node) == node->FunctionSignature_node_id,
        node is ModifierSignature ==> id_of(node) == node->ModifierSignature_node_id,
        node is ContractDefinition ==> id_of(node) == node->ContractDefinition_node_id,
        node is FunctionDefinition ==> id_of(node) == node->FunctionDefinition_node_id,
        node is EventDefinition ==> id_of(node) == node->EventDefinition_node_id,
        node is ErrorDefinition ==> id_of(node) == node->ErrorDefinition_node_id,
        node is ModifierDefinition ==> id_of(node) == node->ModifierDefinition_node_id,
        node is StructDefinition ==> id_of(node) == node->StructDefinition_node_id,
        node is EnumDefinition ==> id_of(node) == node->EnumDefinition_node_id,
        node is UserDefinedValueTypeDefinition ==> id_of(node) == node->UserDefinedValueTypeDefinition_node_id,
        node is VariableDeclaration ==> id_of(node) == node->VariableDeclaration_node_id,
        node is PragmaDirective ==> id_of(node) == node->PragmaDirective_node_id,
        node is ImportDirective ==> id_of(node) == node->ImportDirective_node_id,
        node is UsingForDirective ==> id_of(node) == node->UsingForDirective_node_id,
        node is SourceUnit ==> id_of(node) == node->SourceUnit_node_id,
        node is InheritanceSpecifier ==> id_of(node) == node->InheritanceSpecifier_node_id,
        node is ElementaryTypeName ==> id_of(node) == node->ElementaryTypeName_node_id,
        node is FunctionTypeName ==> id_of(node) == node->FunctionTypeName_node_id,
        node is ParameterList ==> id_of(node) == node->ParameterList_node_id,
        node is ModifierList ==> id_of(node) == node->ModifierList_node_id,
        node is TryCatchClause ==> id_of(node) == node->TryCatchClause_node_id,
        node is ModifierInvocation ==> id_of(node) == node->ModifierInvocation_node_id,
        node is UserDefinedTypeName ==> id_of(node) == node->UserDefinedTypeName_node_id,
        node is ArrayTypeName ==> id_of(node) == node->ArrayTypeName_node_id,
        node is Mapping ==> id_of(node) == node->Mapping_node_id,
        node is StructuredDocumentation ==> id_of(node) == node->StructuredDocumentation_node_id,
        node is Stub ==> id_of(node) == node->Stub_node_id,
        node is Other ==> id_of(node) == node->Other_node_id,
{
}

/// Whatever it is, a node stands where the source says.
pub proof fn nodes_have_their_place(node: &ASTNode)
    ensures
        node is Assignment ==> location_of(node) == node->Assignment_src_location,
        node is BinaryOperation ==> location_of(node) == node->BinaryOperation_src_location,
        node is Conditional ==> location_of(node) == node->Conditional_src_location,
        node is ElementaryTypeNameExpression ==> location_of(node) == node->ElementaryTypeNameExpression_src_location,
        node is FunctionCall ==> location_of(node) == node->FunctionCall_src_location,
        node is Argument ==> location_of(node) == node->Argument_src_location,
        node is TypeConversion ==> location_of(node) == node->TypeConversion_src_location,
        node is StructConstructor ==> location_of(node) == node->StructConstructor_src_location,
        node is FunctionCallOptions ==> location_of(node) == node->FunctionCallOptions_src_location,
        node is Identifier ==> location_of(node) == node->Identifier_src_location,
        node is IdentifierPath ==> location_of(node) == node->IdentifierPath_src_location,
        node is IndexAccess ==> location_of(node) == node->IndexAccess_src_location,
        node is IndexRangeAccess ==> location_of(node) == node->IndexRangeAccess_src_location,
        node is Literal ==> location_of(node) == node->Literal_src_location,
        node is MemberAccess ==> location_of(node) == node->MemberAccess_src_location,
        node is NewExpression ==> location_of(node) == node->NewExpression_src_location,
        node is TupleExpression ==> location_of(node) == node->TupleExpression_src_location,
        node is UnaryOperation ==> location_of(node) == node->UnaryOperation_src_location,
        node is EnumValue ==> location_of(node) == node->EnumValue_src_location,
        node is Block ==> location_of(node) == node->Block_src_location,
        node is SemanticBlock ==> location_of(node) == node->SemanticBlock_src_location,
        node is ContractMemberGroup ==> location_of(node) == node->ContractMemberGroup_src_location,
        node is Break ==> location_of(node) == node->Break_src_location,
        node is Continue ==> location_of(node) == node->Continue_src_location,
        node is DoWhileStatement ==> location_of(node) == node->DoWhileStatement_src_location,
        node is EmitStatement ==> location_of(node) == node->EmitStatement_src_location,
        node is ExpressionStatement ==> location_of(node) == node->ExpressionStatement_src_location,
        node is ForStatement ==> location_of(node) == node->ForStatement_src_location,
        node is LoopExpression ==> location_of(node) == node->LoopExpression_src_location,
        node is IfStatement ==> location_of(node) == node->IfStatement_src_location,
        node is InlineAssembly ==> location_of(node) == node->InlineAssembly_src_location,
        node is PlaceholderStatement ==> location_of(node) == node->PlaceholderStatement_src_location,
        node is Return ==> location_of(node) == node->Return_src_location,
        node is RevertStatement ==> location_of(node) == node->RevertStatement_src_location,
        node is TryStatement ==> location_of(node) == node->TryStatement_src_location,
        node is UncheckedBlock ==> location_of(node) == node->UncheckedBlock_src_location,
        node is VariableDeclarationStatement ==> location_of(node) == node->VariableDeclarationStatement_src_location,
        node is WhileStatement ==> location_of(node) == node->WhileStatement_src_location,
        node is ContractSignature ==> location_of(node) == node->ContractSignature_src_location,
        node is FunctionSignature ==> location_of(node) == node->FunctionSignature_src_location,
        node is ModifierSignature ==> location_of(node) == node->ModifierSignature_src_location,
        node is ContractDefinition ==> location_of(node) == node->ContractDefinition_src_location,
        node is FunctionDefinition ==> location_of(node) == node->FunctionDefinition_src_location,
        node is EventDefinition ==> location_of(node) == node->EventDefinition_src_location,
        node is ErrorDefinition ==> location_of(node) == node->ErrorDefinition_src_location,
        node is ModifierDefinition ==> location_of(node) == node->ModifierDefinition_src_location,
        node is StructDefinition ==> location_of(node) == node->StructDefinition_src_location,
        node is EnumDefinition ==> location_of(node) == node->EnumDefinition_src_location,
        node is UserDefinedValueTypeDefinition ==> location_of(node) == node->UserDefinedValueTypeDefinition_src_location,
        node is VariableDeclaration ==> location_of(node) == node->VariableDeclaration_src_location,
        node is PragmaDirective ==> location_of(node) == node->PragmaDirective_src_location,
        node is ImportDirective ==> location_of(node) == node->ImportDirective_src_location,
        node is UsingForDirective ==> location_of(node) == node->UsingForDirective_src_location,
        node is SourceUnit ==> location_of(node) == node->SourceUnit_src_location,
        node is InheritanceSpecifier ==> location_of(node) == node->InheritanceSpecifier_src_location,
        node is ElementaryTypeName ==> location_of(node) == node->ElementaryTypeName_src_location,
        node is FunctionTypeName ==> location_of(node) == node->FunctionTypeName_src_location,
        node is ParameterList ==> location_of(node) == node->ParameterList_src_location,
        node is ModifierList ==> location_of(node) == node->ModifierList_src_location,
        node is TryCatchClause ==> location_of(node) == node->TryCatchClause_src_location,
        node is ModifierInvocation ==> location_of(node) == node->ModifierInvocation_src_location,
        node is UserDefinedTypeName ==> location_of(node) == node->UserDefinedTypeName_src_location,
        node is ArrayTypeName ==> location_of(node) == node->ArrayTypeName_src_location,
        node is Mapping ==> location_of(node) == node->Mapping_src_location,
        node is StructuredDocumentation ==> location_of(node) == node->StructuredDocumentation_src_location,
        node is Stub ==> location_of(node) == node->Stub_src_location,
        node is Other ==> location_of(node) == node->Other_src_location,
{
}

/// A stub stands for the node that is kept for its topic. Where none is kept there, and
/// for any other node, a node stands for itself.
pub proof fn stubs_stand_for_what_is_kept(node: &ASTNode, nodes: Seq<(Topic, Node)>)
    ensures
        !(node is Stub) ==> resolved(node, nodes) == *node,
        node matches ASTNode::Stub { topic, .. } ==> match mapping(nodes)[*topic] {
            Node::Solidity(n) => mapping(nodes).dom().contains(*topic) ==> resolved(node, nodes)
                == n,
            _ => resolved(node, nodes) == *node,
        },
        node matches ASTNode::Stub { topic, .. } ==> !mapping(nodes).dom().contains(*topic)
            ==> resolved(node, nodes) == *node,
{
}

/// A call refers to what its name refers to, whatever its options. What is neither a
/// name nor an access refers to nothing.
pub proof fn calls_refer_to_their_name(e: &ASTNode)
    ensures
        e matches ASTNode::FunctionCallOptions { expression, .. } ==> referenced_function(e)
            == referenced_function(&**expression),
        e matches ASTNode::Identifier { referenced_declaration, .. } ==> referenced_function(e)
            == Some(*referenced_declaration),
        e matches ASTNode::MemberAccess { referenced_declaration, .. } ==> referenced_function(e)
            == *referenced_declaration,
        referenced_function(e) is Some ==> e is FunctionCallOptions || e is Identifier
            || e is MemberAccess,
{
}

/// The members of a body are what it holds, except that groups are opened.
pub proof fn groups_are_opened(nodes: Seq<ASTNode>, x: ASTNode)
    ensures
        ungrouped(nodes).contains(x) <==> exists|i: int|
            0 <= i < nodes.len() && is_or_groups(#[trigger] nodes[i], x),
    decreases nodes.len(),
{
    if nodes.len() > 0 {
        let rest = nodes.drop_last();
        let n = nodes.len() - 1;
        groups_are_opened(rest, x);
        let last = match nodes.last() {
            ASTNode::ContractMemberGroup { members, .. } => members@,
            other => seq![other],
        };
        lemma_both(ungrouped(rest), last, x);
        lemma_one(nodes.last(), x);
        assert(last.contains(x) == is_or_groups(nodes[n], x));
        if exists|i: int| 0 <= i < rest.len() && is_or_groups(#[trigger] rest[i], x) {
            let i = choose|i: int| 0 <= i < rest.len() && is_or_groups(#[trigger] rest[i], x);
            assert(is_or_groups(nodes[i], x));
        }
        if exists|i: int| 0 <= i < nodes.len() && is_or_groups(#[trigger] nodes[i], x) {
            let i = choose|i: int| 0 <= i < nodes.len() && is_or_groups(#[trigger] nodes[i], x);
            if i < n {
                assert(is_or_groups(rest[i], x));
            }
        }
    }
}

/// `node` is `x`, or a group with `x` in it.
pub open spec fn is_or_groups(node: ASTNode, x: ASTNode) -> bool {
    match node {
        ASTNode::ContractMemberGroup { members, .. } => members@.contains(x),
        _ => node == x,
    }
}

/// The parameters of a definition are those that it declares: those of the signature of
/// a function, those of an event or an error, and the members of a struct. Nothing else
/// has any.
pub proof fn definitions_have_their_parameters(node: &ASTNode)
    ensures
        node matches ASTNode::FunctionDefinition { signature, .. } ==> (**signature
            matches ASTNode::FunctionSignature { parameters, return_parameters, .. } ==> (
        *parameters matches ASTNode::ParameterList { parameters: list, .. } ==> definition_parameters(
            node,
        ) == Some(list@) && function_parameters(node) == Some(list@)) && (*return_parameters
            matches ASTNode::ParameterList { parameters: list, .. } ==> function_returns(node)
            == Some(list@))),
        node matches ASTNode::EventDefinition { parameters, .. } ==> (**parameters
            matches ASTNode::ParameterList { parameters: list, .. } ==> definition_parameters(node)
            == Some(list@)),
        node matches ASTNode::ErrorDefinition { parameters, .. } ==> (**parameters
            matches ASTNode::ParameterList { parameters: list, .. } ==> definition_parameters(node)
            == Some(list@)),
        node matches ASTNode::StructDefinition { members, .. } ==> definition_parameters(node)
            == Some(members@) && struct_members(node) == Some(members@),
        definition_parameters(node) is Some ==> node is FunctionDefinition || node is EventDefinition
            || node is ErrorDefinition || node is StructDefinition,
        function_parameters(node) is Some ==> node is FunctionDefinition,
        function_returns(node) is Some ==> node is FunctionDefinition,
{
}

/// A name leads to its declaration, through accesses, calls and conversions of it, and
/// a stub for it counts as an identifier.
pub proof fn stubs_lead_to_declarations(node: &ASTNode)
    ensures
        node matches ASTNode::Identifier { referenced_declaration, .. } ==> stub_kind(
            node,
        ).placeholder() == Some(Topic::Node(*referenced_declaration)) && stub_kind(
            node,
        ).identifier_like(),
        node matches ASTNode::IdentifierPath { referenced_declaration, .. } ==> stub_kind(
            node,
        ).placeholder() == Some(Topic::Node(*referenced_declaration)) && stub_kind(
            node,
        ).identifier_like(),
        node is Literal ==> stub_kind(node).placeholder() is None && stub_kind(
            node,
        ).identifier_like(),
{
    reveal_with_fuel(StubKind::placeholder, 2);
    reveal_with_fuel(StubKind::identifier_like, 2);
}

/// Accesses, calls, constructions and call options lead where their expression leads, and
/// count as an identifier exactly where it does.
pub proof fn wrapped_expressions_lead_on(node: &ASTNode, inner: &ASTNode)
    requires
        match node {
            ASTNode::MemberAccess { expression, .. } => **expression == *inner,
            ASTNode::FunctionCall { expression, .. } => **expression == *inner,
            ASTNode::StructConstructor { expression, .. } => **expression == *inner,
            ASTNode::FunctionCallOptions { expression, .. } => **expression == *inner,
            _ => false,
        },
    ensures
        stub_kind(node).placeholder() == stub_kind(inner).placeholder(),
        stub_kind(node).identifier_like() == stub_kind(inner).identifier_like(),
{
}

/// A conversion leads where its argument leads, or else to the argument itself, and
/// counts as an identifier exactly where the argument does.
pub proof fn conversions_lead_to_their_argument(node: &ASTNode, inner: &ASTNode)
    requires
        node is TypeConversion,
        *node->TypeConversion_argument == *inner,
    ensures
        stub_kind(node).placeholder() == match stub_kind(inner).placeholder() {
            Some(t) => Some(t),
            None => Some(Topic::Node(id_of(inner))),
        },
        stub_kind(node).identifier_like() == stub_kind(inner).identifier_like(),
{
}

/// Declarations are told apart from everything else.
pub proof fn declarations_are_declarations(node: &ASTNode)
    ensures
        stub_kind(node) is Declaration <==> node is VariableDeclarationStatement
            || node is VariableDeclaration || node is ContractDefinition || node is FunctionDefinition
            || node is ModifierDefinition || node is StructDefinition || node is EnumDefinition
            || node is EventDefinition || node is ErrorDefinition
            || node is UserDefinedValueTypeDefinition,
{
}

/// Exactly the control flow statements have delimiters. These name the statement and
/// its condition.
pub proof fn control_flow_has_delimiters(node: &ASTNode, condition: &ASTNode, kind: DelimiterKind)
    requires
        match node {
            ASTNode::IfStatement { condition: c, .. } => **c == *condition && kind
                == DelimiterKind::If,
            ASTNode::ForStatement { condition: c, .. } => **c == *condition && kind
                == DelimiterKind::For,
            ASTNode::WhileStatement { condition: c, .. } => **c == *condition && kind
                == DelimiterKind::While,
            ASTNode::DoWhileStatement { condition: c, .. } => **c == *condition && kind
                == DelimiterKind::DoWhile,
            _ => false,
        },
    ensures
        delimiter_info(node) is Some,
        (delimiter_info(node)->0).kind == kind,
        (delimiter_info(node)->0).node_topic == Topic::Node(id_of(node)),
        (delimiter_info(node)->0).condition_topic == Topic::Node(id_of(condition)),
{
}

/// Nothing else has delimiters.
pub proof fn nothing_else_has_delimiters(node: &ASTNode)
    ensures
        delimiter_info(node) is Some ==> node is IfStatement || node is ForStatement
            || node is WhileStatement || node is DoWhileStatement,
{
}

/// Nodes are resolved one by one, in their order.
pub proof fn nodes_are_resolved_one_by_one(
    list: Seq<ASTNode>,
    nodes: Seq<(Topic, Node)>,
    i: int,
)
    requires
        0 <= i < list.len(),
    ensures
        all_resolved(list, nodes).len() == list.len(),
        all_resolved(list, nodes)[i] == resolved(&list[i], nodes),
{
}

/// Nodes that agree in all but their children are of one kind, with one number, at one
/// place.
pub proof fn nodes_with_one_frame_are_alike(a: &ASTNode, b: &ASTNode)
    requires
        same_frame(a, b),
    ensures
        id_of(a) == id_of(b),
        location_of(a) == location_of(b),
        type_label(a) == type_label(b),
        slots_of(a).len() == 0 && slots_of(b).len() == 0 ==> children_of(a) == children_of(b),
{
    assert(slots_of(a).len() == 0 && slots_of(b).len() == 0 ==> children_of(a) =~= children_of(b));
}

} // verus!
