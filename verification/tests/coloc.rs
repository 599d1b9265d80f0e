use o11a_core::domain::topic;
use o11a_core::domain::{new_audit_data, AuditData, ContainingBlockLayer, ContractKind};
use o11a_core::domain::{FunctionKind, NamedTopicKind, NamedTopicVisibility, ProjectPath, Scope};
use o11a_core::domain::{TopicMetadata, UnnamedTopicKind};
use o11a_core::ordered::OrderedMap;
use o11a_core::resolution_graph::coloc::{co_locate, enclosing_member_scope, CoLocInput};
use std::collections::BTreeMap;

fn audit() -> AuditData {
    new_audit_data("t".to_string(), OrderedMap::new(), None)
}

fn nt(id: i32) -> topic::Topic {
    topic::new_node_topic(&id)
}

fn pp() -> ProjectPath {
    ProjectPath {
        file_path: "x.sol".to_string(),
    }
}

fn named(t: topic::Topic, name: &str, kind: NamedTopicKind, scope: Scope) -> TopicMetadata {
    TopicMetadata::NamedTopic {
        topic: t,
        scope,
        kind,
        visibility: NamedTopicVisibility::Public,
        name: name.to_string(),
        is_mutable: false,
        mutations: Vec::new(),
        ancestors: Vec::new(),
        descendants: Vec::new(),
        relatives: Vec::new(),
        transitive_topic: None,
        doc_references: Vec::new(),
    }
}

fn unnamed(t: topic::Topic, kind: UnnamedTopicKind, scope: Scope) -> TopicMetadata {
    TopicMetadata::UnnamedTopic {
        topic: t,
        scope,
        kind,
        transitive_topic: None,
    }
}

#[test]
fn enclosing_scope_for_function_inside_contract_is_none() {
    let mut a = audit();
    let contract = nt(1);
    let func = nt(10);
    a.topic_metadata.insert(
        contract,
        named(
            contract,
            "Vault",
            NamedTopicKind::Contract(ContractKind::Contract),
            Scope::Container { container: pp() },
        ),
    );
    a.topic_metadata.insert(
        func,
        named(
            func,
            "transfer",
            NamedTopicKind::Function(FunctionKind::Function),
            Scope::Component {
                container: pp(),
                component: contract,
            },
        ),
    );
    assert_eq!(enclosing_member_scope(&a, func), None);
}

#[test]
fn enclosing_scope_for_param_in_function_signature_is_function() {
    let mut a = audit();
    let contract = nt(1);
    let func = nt(10);
    let param = nt(11);
    a.topic_metadata.insert(
        contract,
        named(
            contract,
            "Vault",
            NamedTopicKind::Contract(ContractKind::Contract),
            Scope::Container { container: pp() },
        ),
    );
    a.topic_metadata.insert(
        func,
        named(
            func,
            "foo",
            NamedTopicKind::Function(FunctionKind::Function),
            Scope::Component {
                container: pp(),
                component: contract,
            },
        ),
    );
    a.topic_metadata.insert(
        param,
        named(
            param,
            "amount",
            NamedTopicKind::LocalVariable,
            Scope::Member {
                container: pp(),
                component: contract,
                member: func,
                signature_container: None,
            },
        ),
    );
    assert_eq!(enclosing_member_scope(&a, param), Some(func));
}

#[test]
fn enclosing_scope_for_local_in_nested_block_walks_through_blocks_to_function() {
    let mut a = audit();
    let contract = nt(1);
    let func = nt(10);
    let outer_block = nt(20);
    let inner_block = nt(21);
    let local = nt(30);
    a.topic_metadata.insert(
        contract,
        named(
            contract,
            "Vault",
            NamedTopicKind::Contract(ContractKind::Contract),
            Scope::Container { container: pp() },
        ),
    );
    a.topic_metadata.insert(
        func,
        named(
            func,
            "foo",
            NamedTopicKind::Function(FunctionKind::Function),
            Scope::Component {
                container: pp(),
                component: contract,
            },
        ),
    );
    a.topic_metadata.insert(
        outer_block,
        unnamed(
            outer_block,
            UnnamedTopicKind::SemanticBlock,
            Scope::Member {
                container: pp(),
                component: contract,
                member: func,
                signature_container: None,
            },
        ),
    );
    a.topic_metadata.insert(
        inner_block,
        unnamed(
            inner_block,
            UnnamedTopicKind::SemanticBlock,
            Scope::ContainingBlock {
                container: pp(),
                component: contract,
                member: func,
                containing_blocks: vec![ContainingBlockLayer {
                    block: outer_block,
                    annotation: None,
                }],
            },
        ),
    );
    a.topic_metadata.insert(
        local,
        named(
            local,
            "local_x",
            NamedTopicKind::LocalVariable,
            Scope::ContainingBlock {
                container: pp(),
                component: contract,
                member: func,
                containing_blocks: vec![
                    ContainingBlockLayer {
                        block: outer_block,
                        annotation: None,
                    },
                    ContainingBlockLayer {
                        block: inner_block,
                        annotation: None,
                    },
                ],
            },
        ),
    );
    assert_eq!(enclosing_member_scope(&a, local), Some(func));
}

#[test]
fn enclosing_scope_for_struct_field_is_struct() {
    let mut a = audit();
    let contract = nt(1);
    let s = nt(10);
    let field = nt(11);
    a.topic_metadata.insert(
        contract,
        named(
            contract,
            "Vault",
            NamedTopicKind::Contract(ContractKind::Contract),
            Scope::Container { container: pp() },
        ),
    );
    a.topic_metadata.insert(
        s,
        named(
            s,
            "Point",
            NamedTopicKind::Struct,
            Scope::Component {
                container: pp(),
                component: contract,
            },
        ),
    );
    a.topic_metadata.insert(
        field,
        named(
            field,
            "x",
            NamedTopicKind::LocalVariable,
            Scope::Component {
                container: pp(),
                component: s,
            },
        ),
    );
    assert_eq!(enclosing_member_scope(&a, field), Some(s));
}

#[test]
fn enclosing_scope_for_global_topic_is_none() {
    let mut a = audit();
    let g = nt(1);
    a.topic_metadata.insert(
        g,
        named(g, "g", NamedTopicKind::Builtin, Scope::Global),
    );
    assert_eq!(enclosing_member_scope(&a, g), None);
}

#[test]
fn co_locate_singleton_intersection_pins_pair() {
    let mut a = audit();
    let contract = nt(1);
    let foo = nt(10);
    let bar = nt(20);
    let foo_amount = nt(11);
    let foo_tmp = nt(12);
    let bar_amount = nt(21);
    let bar_tmp = nt(22);

    a.topic_metadata.insert(
        contract,
        named(
            contract,
            "C",
            NamedTopicKind::Contract(ContractKind::Contract),
            Scope::Container { container: pp() },
        ),
    );
    for (t, name, member) in [
        (foo, "foo", None),
        (bar, "bar", None),
        (foo_amount, "amount", Some(foo)),
        (foo_tmp, "tmp", Some(foo)),
        (bar_amount, "amount", Some(bar)),
        (bar_tmp, "tmp", Some(bar)),
    ] {
        let scope = match member {
            None => Scope::Component {
                container: pp(),
                component: contract,
            },
            Some(m) => Scope::Member {
                container: pp(),
                component: contract,
                member: m,
                signature_container: None,
            },
        };
        let kind = if member.is_none() {
            NamedTopicKind::Function(FunctionKind::Function)
        } else {
            NamedTopicKind::LocalVariable
        };
        a.topic_metadata.insert(t, named(t, name, kind, scope));
    }

    let refs = vec![
        CoLocInput {
            ref_id: 1usize,
            candidates: vec![foo_amount, bar_amount],
        },
        CoLocInput {
            ref_id: 2usize,
            candidates: vec![foo_tmp, bar_tmp],
        },
    ];

    let res = co_locate(&a, &refs);
    assert!(
        res.is_empty(),
        "two-element intersection must abstain: got {:?}",
        res,
    );

    let refs = vec![
        CoLocInput {
            ref_id: 1usize,
            candidates: vec![foo_amount, bar_amount],
        },
        CoLocInput {
            ref_id: 2usize,
            candidates: vec![foo_tmp],
        },
    ];
    let res = co_locate(&a, &refs);
    assert_eq!(res.len(), 2);
    let pins: BTreeMap<usize, topic::Topic> =
        res.iter().map(|r| (r.ref_id, r.chosen_topic)).collect();
    assert_eq!(pins.get(&1), Some(&foo_amount));
    assert_eq!(pins.get(&2), Some(&foo_tmp));
    for r in &res {
        assert_eq!(r.pinned_scope, foo);
    }
}

#[test]
fn co_locate_with_single_ref_returns_empty() {
    let mut a = audit();
    let contract = nt(1);
    let foo = nt(10);
    let foo_amount = nt(11);
    a.topic_metadata.insert(
        contract,
        named(
            contract,
            "C",
            NamedTopicKind::Contract(ContractKind::Contract),
            Scope::Container { container: pp() },
        ),
    );
    a.topic_metadata.insert(
        foo,
        named(
            foo,
            "foo",
            NamedTopicKind::Function(FunctionKind::Function),
            Scope::Component {
                container: pp(),
                component: contract,
            },
        ),
    );
    a.topic_metadata.insert(
        foo_amount,
        named(
            foo_amount,
            "amount",
            NamedTopicKind::LocalVariable,
            Scope::Member {
                container: pp(),
                component: contract,
                member: foo,
                signature_container: None,
            },
        ),
    );
    let refs = vec![CoLocInput {
        ref_id: 1usize,
        candidates: vec![foo_amount],
    }];
    assert!(co_locate(&a, &refs).is_empty());
}

#[test]
fn co_locate_multi_element_intersection_abstains() {
    let mut a = audit();
    let contract = nt(1);
    let foo = nt(10);
    let bar = nt(20);
    let foo_amount = nt(11);
    let foo_tmp = nt(12);
    let bar_amount = nt(21);
    let bar_tmp = nt(22);

    a.topic_metadata.insert(
        contract,
        named(
            contract,
            "C",
            NamedTopicKind::Contract(ContractKind::Contract),
            Scope::Container { container: pp() },
        ),
    );
    for (t, name, member) in [
        (foo, "foo", None),
        (bar, "bar", None),
        (foo_amount, "amount", Some(foo)),
        (foo_tmp, "tmp", Some(foo)),
        (bar_amount, "amount", Some(bar)),
        (bar_tmp, "tmp", Some(bar)),
    ] {
        let scope = match member {
            None => Scope::Component {
                container: pp(),
                component: contract,
            },
            Some(m) => Scope::Member {
                container: pp(),
                component: contract,
                member: m,
                signature_container: None,
            },
        };
        let kind = if member.is_none() {
            NamedTopicKind::Function(FunctionKind::Function)
        } else {
            NamedTopicKind::LocalVariable
        };
        a.topic_metadata.insert(t, named(t, name, kind, scope));
    }

    let refs = vec![
        CoLocInput {
            ref_id: 1usize,
            candidates: vec![foo_amount, bar_amount],
        },
        CoLocInput {
            ref_id: 2usize,
            candidates: vec![foo_tmp, bar_tmp],
        },
    ];
    assert!(co_locate(&a, &refs).is_empty());
}

#[test]
fn co_locate_conflicting_pin_drops_only_the_conflicting_ref() {
    let mut a = audit();
    let contract = nt(1);
    let foo = nt(10);
    let bar = nt(20);
    let foo_x = nt(11);
    let foo_y = nt(12);
    let bar_x = nt(21);
    let bar_z = nt(22);

    a.topic_metadata.insert(
        contract,
        named(
            contract,
            "C",
            NamedTopicKind::Contract(ContractKind::Contract),
            Scope::Container { container: pp() },
        ),
    );
    for (t, name, member) in [
        (foo, "foo", None),
        (bar, "bar", None),
        (foo_x, "x", Some(foo)),
        (foo_y, "y", Some(foo)),
        (bar_x, "x", Some(bar)),
        (bar_z, "z", Some(bar)),
    ] {
        let scope = match member {
            None => Scope::Component {
                container: pp(),
                component: contract,
            },
            Some(m) => Scope::Member {
                container: pp(),
                component: contract,
                member: m,
                signature_container: None,
            },
        };
        let kind = if member.is_none() {
            NamedTopicKind::Function(FunctionKind::Function)
        } else {
            NamedTopicKind::LocalVariable
        };
        a.topic_metadata.insert(t, named(t, name, kind, scope));
    }

    let refs = vec![
        CoLocInput {
            ref_id: 1usize,
            candidates: vec![foo_x, bar_x],
        },
        CoLocInput {
            ref_id: 2usize,
            candidates: vec![foo_y],
        },
        CoLocInput {
            ref_id: 3usize,
            candidates: vec![bar_z],
        },
    ];
    let res = co_locate(&a, &refs);
    let pins: BTreeMap<usize, topic::Topic> =
        res.iter().map(|r| (r.ref_id, r.chosen_topic)).collect();
    assert_eq!(pins.get(&1), None, "conflicted ref must drop out");
    assert_eq!(pins.get(&2), Some(&foo_y));
    assert_eq!(pins.get(&3), Some(&bar_z));
}

#[test]
fn co_locate_is_deterministic() {
    let mut a = audit();
    let contract = nt(1);
    let foo = nt(10);
    let bar = nt(20);
    let foo_amount = nt(11);
    let foo_tmp = nt(12);
    let bar_amount = nt(21);

    a.topic_metadata.insert(
        contract,
        named(
            contract,
            "C",
            NamedTopicKind::Contract(ContractKind::Contract),
            Scope::Container { container: pp() },
        ),
    );
    for (t, name, member) in [
        (foo, "foo", None),
        (bar, "bar", None),
        (foo_amount, "amount", Some(foo)),
        (foo_tmp, "tmp", Some(foo)),
        (bar_amount, "amount", Some(bar)),
    ] {
        let scope = match member {
            None => Scope::Component {
                container: pp(),
                component: contract,
            },
            Some(m) => Scope::Member {
                container: pp(),
                component: contract,
                member: m,
                signature_container: None,
            },
        };
        let kind = if member.is_none() {
            NamedTopicKind::Function(FunctionKind::Function)
        } else {
            NamedTopicKind::LocalVariable
        };
        a.topic_metadata.insert(t, named(t, name, kind, scope));
    }

    let refs_a = vec![
        CoLocInput {
            ref_id: 1usize,
            candidates: vec![foo_amount, bar_amount],
        },
        CoLocInput {
            ref_id: 2usize,
            candidates: vec![foo_tmp],
        },
    ];
    let refs_b = vec![
        CoLocInput {
            ref_id: 1usize,
            candidates: vec![bar_amount, foo_amount],
        },
        CoLocInput {
            ref_id: 2usize,
            candidates: vec![foo_tmp],
        },
    ];
    let res_a = co_locate(&a, &refs_a);
    let res_b = co_locate(&a, &refs_b);
    assert_eq!(res_a, res_b);
}

#[test]
fn co_locate_abstains_when_singleton_scope_holds_multiple_candidates() {
    let mut a = audit();
    let contract = nt(1);
    let foo = nt(10);
    let bar = nt(20);
    let foo_amount_param = nt(11);
    let foo_amount_local = nt(12);
    let foo_tmp = nt(13);
    let bar_amount = nt(21);

    a.topic_metadata.insert(
        contract,
        named(
            contract,
            "C",
            NamedTopicKind::Contract(ContractKind::Contract),
            Scope::Container { container: pp() },
        ),
    );
    for (t, name, member) in [
        (foo, "foo", None),
        (bar, "bar", None),
        (foo_amount_param, "amount", Some(foo)),
        (foo_amount_local, "amount", Some(foo)),
        (foo_tmp, "tmp", Some(foo)),
        (bar_amount, "amount", Some(bar)),
    ] {
        let scope = match member {
            None => Scope::Component {
                container: pp(),
                component: contract,
            },
            Some(m) => Scope::Member {
                container: pp(),
                component: contract,
                member: m,
                signature_container: None,
            },
        };
        let kind = if member.is_none() {
            NamedTopicKind::Function(FunctionKind::Function)
        } else {
            NamedTopicKind::LocalVariable
        };
        a.topic_metadata.insert(t, named(t, name, kind, scope));
    }

    let refs = vec![
        CoLocInput {
            ref_id: 1usize,
            candidates: vec![foo_amount_param, foo_amount_local, bar_amount],
        },
        CoLocInput {
            ref_id: 2usize,
            candidates: vec![foo_tmp],
        },
    ];
    let res = co_locate(&a, &refs);
    assert!(
        res.is_empty(),
        "multi-candidate-in-singleton-scope must abstain: got {:?}",
        res,
    );
}

#[test]
fn co_locate_four_ref_complex_pin_conflict_survivor_pattern() {
    let mut a = audit();
    let contract = nt(1);
    let foo = nt(10);
    let bar = nt(20);
    let foo_a = nt(11);
    let foo_b = nt(12);
    let foo_c = nt(13);
    let bar_a = nt(21);
    let bar_d = nt(22);

    a.topic_metadata.insert(
        contract,
        named(
            contract,
            "C",
            NamedTopicKind::Contract(ContractKind::Contract),
            Scope::Container { container: pp() },
        ),
    );
    for (t, name, member) in [
        (foo, "foo", None),
        (bar, "bar", None),
        (foo_a, "A", Some(foo)),
        (foo_b, "B", Some(foo)),
        (foo_c, "C", Some(foo)),
        (bar_a, "A", Some(bar)),
        (bar_d, "D", Some(bar)),
    ] {
        let scope = match member {
            None => Scope::Component {
                container: pp(),
                component: contract,
            },
            Some(m) => Scope::Member {
                container: pp(),
                component: contract,
                member: m,
                signature_container: None,
            },
        };
        let kind = if member.is_none() {
            NamedTopicKind::Function(FunctionKind::Function)
        } else {
            NamedTopicKind::LocalVariable
        };
        a.topic_metadata.insert(t, named(t, name, kind, scope));
    }

    let canonical_refs = vec![
        CoLocInput {
            ref_id: 1usize,
            candidates: vec![foo_a, bar_a],
        },
        CoLocInput {
            ref_id: 2usize,
            candidates: vec![foo_b],
        },
        CoLocInput {
            ref_id: 3usize,
            candidates: vec![foo_c],
        },
        CoLocInput {
            ref_id: 4usize,
            candidates: vec![bar_d],
        },
    ];

    let res = co_locate(&a, &canonical_refs);
    let pins: BTreeMap<usize, topic::Topic> =
        res.iter().map(|r| (r.ref_id, r.chosen_topic)).collect();

    assert_eq!(pins.get(&1), None, "A must drop out (conflict)");
    assert_eq!(pins.get(&2), Some(&foo_b));
    assert_eq!(pins.get(&3), Some(&foo_c));
    assert_eq!(pins.get(&4), Some(&bar_d));

    let shuffled_refs = vec![
        CoLocInput {
            ref_id: 4usize,
            candidates: vec![bar_d],
        },
        CoLocInput {
            ref_id: 1usize,
            candidates: vec![bar_a, foo_a],
        },
        CoLocInput {
            ref_id: 3usize,
            candidates: vec![foo_c],
        },
        CoLocInput {
            ref_id: 2usize,
            candidates: vec![foo_b],
        },
    ];
    let res_shuffled = co_locate(&a, &shuffled_refs);
    let pins_shuffled: BTreeMap<usize, topic::Topic> =
        res_shuffled.iter().map(|r| (r.ref_id, r.chosen_topic)).collect();
    assert_eq!(
        pins, pins_shuffled,
        "co_locate's final state must be input-order-independent",
    );
}

#[test]
fn co_locate_skips_refs_with_only_contract_level_candidates() {
    let mut a = audit();
    let contract = nt(1);
    let foo = nt(10);
    let bar = nt(20);
    a.topic_metadata.insert(
        contract,
        named(
            contract,
            "C",
            NamedTopicKind::Contract(ContractKind::Contract),
            Scope::Container { container: pp() },
        ),
    );
    a.topic_metadata.insert(
        foo,
        named(
            foo,
            "transfer",
            NamedTopicKind::Function(FunctionKind::Function),
            Scope::Component {
                container: pp(),
                component: contract,
            },
        ),
    );
    a.topic_metadata.insert(
        bar,
        named(
            bar,
            "transfer",
            NamedTopicKind::Function(FunctionKind::Function),
            Scope::Component {
                container: pp(),
                component: contract,
            },
        ),
    );

    let refs = vec![
        CoLocInput {
            ref_id: 1usize,
            candidates: vec![foo, bar],
        },
        CoLocInput {
            ref_id: 2usize,
            candidates: vec![foo, bar],
        },
    ];
    assert!(co_locate(&a, &refs).is_empty());
}
