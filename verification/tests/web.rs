use o11a_core::comments::CommentNode;
use o11a_core::domain::topic::{new_documentation_topic, new_functional_property_topic};
use o11a_core::domain::topic::{new_node_topic, new_spec_topic, Topic};
use o11a_core::domain::{new_audit_data, rebuild_feature_context, AuditData, Author};
use o11a_core::domain::{NamedTopicKind, NamedTopicVisibility, ProjectPath, Requirement, Scope};
use o11a_core::domain::TopicMetadata;
use o11a_core::ordered::OrderedMap;
use o11a_core::web::comment_formatter::{comment_pieces, Piece};
use o11a_core::web::panel::{get_documentation_panel, DocumentationPanelRequest, PanelContents};
use o11a_core::web::state::{cached_view, TopicViewCache};

fn n(id: i32) -> Topic {
    new_node_topic(&id)
}

fn d(id: i32) -> Topic {
    new_documentation_topic(id)
}

fn audit() -> AuditData {
    let mut a = new_audit_data("test".to_string(), OrderedMap::new(), None);
    let s = new_spec_topic;
    a.topic_metadata.insert(
        s(1),
        TopicMetadata::FeatureTopic {
            topic: s(1),
            name: "f".to_string(),
            description: String::new(),
            author: Author::System,
            created_at: None,
        },
    );
    a.topic_metadata.insert(
        s(2),
        TopicMetadata::RequirementTopic {
            topic: s(2),
            description: String::new(),
            section_topic: d(1),
            author: Author::System,
            created_at: None,
        },
    );
    a.requirements.insert(s(2), Requirement { documentation_topics: vec![d(5), d(6)] });
    a.feature_requirement_links.insert(s(1), vec![s(2)]);
    a.topic_metadata.insert(
        n(10),
        TopicMetadata::NamedTopic {
            topic: n(10),
            scope: Scope::Member {
                container: ProjectPath { file_path: "a.sol".to_string() },
                component: n(8),
                member: n(9),
                signature_container: None,
            },
            kind: NamedTopicKind::LocalVariable,
            name: "x".to_string(),
            visibility: NamedTopicVisibility::Public,
            is_mutable: false,
            mutations: vec![],
            ancestors: vec![],
            descendants: vec![],
            relatives: vec![],
            transitive_topic: None,
            doc_references: vec![d(7), d(5)],
        },
    );
    let p = new_functional_property_topic;
    a.topic_metadata.insert(
        p(1),
        TopicMetadata::FunctionalSemanticTopic {
            topic: p(1),
            description: String::new(),
            declaration_topic: n(9),
            documentation_topics: vec![d(8)],
            author: Author::System,
            created_at: None,
            match_source: None,
        },
    );
    rebuild_feature_context(&mut a);
    a
}

fn panel(ids: &[&str]) -> PanelContents {
    let request = DocumentationPanelRequest {
        feature_topics: ids.iter().map(|s| s.to_string()).collect(),
    };
    get_documentation_panel(&audit(), &request)
}

#[test]
fn panel_of_a_feature() {
    let p = panel(&["S1", "S1"]);
    assert_eq!(p.features, vec![new_spec_topic(1)]);
    assert!(p.mentions.is_empty());
    assert!(!p.show_features_as_headers);
}

#[test]
fn panel_of_a_requirement_and_a_declaration() {
    let p = panel(&["S2", "N10"]);
    assert_eq!(p.features, vec![new_spec_topic(1)]);
    assert_eq!(p.mentions, vec![d(5), d(6), d(7), d(8)]);
    assert!(p.show_features_as_headers);
}

#[test]
fn panel_of_a_semantic() {
    let p = panel(&["P1"]);
    assert!(p.features.is_empty());
    assert_eq!(p.mentions, vec![d(8)]);
}

#[test]
fn kept_views_leave_out_the_front() {
    let v = cached_view("<é>", "<é><p/>", "refs", "crumb", "css");
    assert_eq!(v.topic_panel_html, "<p/>");
    assert_eq!(v.expanded_references_panel_html, "refs");
    assert_eq!(v.breadcrumb_html, "crumb");
    assert_eq!(v.highlight_css, "css");
    assert_eq!(cached_view("", "all", "", "", "").topic_panel_html, "all");
}

#[test]
fn kept_views_never_change() {
    let mut cache = TopicViewCache::new();
    assert!(cache.get("a", "N1").is_none());
    cache.keep("a", "N1", cached_view("", "first", "", "", ""));
    cache.keep("a", "N1", cached_view("", "second", "", "", ""));
    cache.keep("a", "N2", cached_view("", "other", "", "", ""));
    assert_eq!(cache.get("a", "N1").unwrap().topic_panel_html, "first");
    assert_eq!(cache.get("a", "N2").unwrap().topic_panel_html, "other");
    assert!(cache.get("b", "N1").is_none());
}

#[test]
fn comments_are_shown_piece_by_piece() {
    let name = |topic: Option<Topic>, shown: Option<&str>| CommentNode::CodeIdentifier {
        value: "v".to_string(),
        referenced_topic: topic,
        kind: Some(NamedTopicKind::Event),
        referenced_name: shown.map(|s| s.to_string()),
    };
    let nodes = vec![
        CommentNode::Text { value: "a<b".to_string() },
        CommentNode::InlineCode { children: vec![name(Some(n(3)), Some("V.v")), name(None, None)] },
        CommentNode::CodeKeyword { value: "if".to_string() },
        CommentNode::CodeOperator { value: "+".to_string() },
        CommentNode::CodeText { value: "t".to_string() },
        CommentNode::Emphasis { text: "e".to_string() },
        CommentNode::Strong { text: "s".to_string() },
        CommentNode::Link { url: "u".to_string(), text: "l".to_string() },
    ];
    let pieces = comment_pieces(&nodes);
    assert_eq!(pieces.len(), 8);
    assert!(matches!(&pieces[0], Piece::Text { text } if text == "a<b"));
    match &pieces[1] {
        Piece::InlineCode { pieces } => {
            assert!(matches!(
                &pieces[0],
                Piece::Reference { text, kind: Some(NamedTopicKind::Event), topic }
                    if text == "V.v" && *topic == n(3)
            ));
            assert!(matches!(&pieces[1], Piece::Name { text, .. } if text == "v"));
        }
        other => panic!("no code: {:?}", other),
    }
    assert!(matches!(&pieces[2], Piece::Keyword { text } if text == "if"));
    assert!(matches!(&pieces[3], Piece::Operator { text } if text == "+"));
    assert!(matches!(&pieces[4], Piece::Text { text } if text == "t"));
    assert!(matches!(&pieces[5], Piece::Emphasis { text } if text == "e"));
    assert!(matches!(&pieces[6], Piece::Strong { text } if text == "s"));
    assert!(matches!(&pieces[7], Piece::Link { url, text } if url == "u" && text == "l"));
}
