//! The parts of a topic view that are kept.
use crate::ordered::OrderedMap;
use vstd::prelude::*;
use vstd::string::*;

verus! {

/// The parts of a topic view that never change.
#[derive(Debug, Clone)]
pub struct CachedTopicView {
    pub topic_panel_html: String,
    pub expanded_references_panel_html: String,
    pub breadcrumb_html: String,
    pub highlight_css: String,
}

/// `v` holds the parts to keep of a topic view.
pub open spec fn is_cached_view(
    v: CachedTopicView,
    prefix: Seq<char>,
    topic_panel_html: Seq<char>,
    expanded_references_panel_html: Seq<char>,
    breadcrumb_html: Seq<char>,
    highlight_css: Seq<char>,
) -> bool {
    &&& topic_panel_html == prefix + v.topic_panel_html@
    &&& v.expanded_references_panel_html@ == expanded_references_panel_html
    &&& v.breadcrumb_html@ == breadcrumb_html
    &&& v.highlight_css@ == highlight_css
}

/// The parts to keep of a topic view: its topic panel without the part in front,
/// which is made anew each time.
pub fn cached_view(
    prefix: &str,
    topic_panel_html: &str,
    expanded_references_panel_html: &str,
    breadcrumb_html: &str,
    highlight_css: &str,
) -> (r: CachedTopicView)
    requires
        prefix@.is_prefix_of(topic_panel_html@),
    ensures
        is_cached_view(
            r,
            prefix@,
            topic_panel_html@,
            expanded_references_panel_html@,
            breadcrumb_html@,
            highlight_css@,
        ),
{
    let n: usize = topic_panel_html.unicode_len();
    let k: usize = prefix.unicode_len();
    let rest = topic_panel_html.substring_char(k, n);
    assert(topic_panel_html@ =~= prefix@ + rest@);
    CachedTopicView {
        topic_panel_html: rest.to_owned(),
        expanded_references_panel_html: expanded_references_panel_html.to_owned(),
        breadcrumb_html: breadcrumb_html.to_owned(),
        highlight_css: highlight_css.to_owned(),
    }
}

/// The topic views that are kept, by audit and topic.
pub struct TopicViewCache {
    pub views: OrderedMap<String, OrderedMap<String, CachedTopicView>>,
}

impl TopicViewCache {
    /// The view that is kept for a topic of an audit.
    pub open spec fn kept(&self, audit_id: Seq<char>, topic_id: Seq<char>) -> Option<
        CachedTopicView,
    > {
        if self.views@.dom().contains(audit_id) && self.views@[audit_id]@.dom().contains(
            topic_id,
        ) {
            Some(self.views@[audit_id]@[topic_id])
        } else {
            None
        }
    }

    pub fn new() -> (r: TopicViewCache)
        ensures
            forall|a: Seq<char>, t: Seq<char>| (#[trigger] r.kept(a, t)) is None,
    {
        TopicViewCache { views: OrderedMap::new() }
    }

    pub fn get(&self, audit_id: &str, topic_id: &str) -> (r: Option<&CachedTopicView>)
        ensures
            r == match self.kept(audit_id@, topic_id@) {
                Some(v) => Some(&v),
                None => None,
            },
    {
        match self.views.get(&audit_id.to_owned()) {
            Some(views) => views.get(&topic_id.to_owned()),
            None => None,
        }
    }

    /// Keeps the view of a topic, unless one is kept already: what is kept never
    /// changes.
    pub fn keep(&mut self, audit_id: &str, topic_id: &str, view: CachedTopicView)
        ensures
            forall|a: Seq<char>, t: Seq<char>| #[trigger]
                final(self).kept(a, t) == if a == audit_id@ && t == topic_id@ && old(
                    self,
                ).kept(a, t) is None {
                    Some(view)
                } else {
                    old(self).kept(a, t)
                },
    {
        if self.get(audit_id, topic_id).is_some() {
            return ;
        }
        let key = audit_id.to_owned();
        let mut views: OrderedMap<String, CachedTopicView> = match self.views.remove(&key) {
            Some(views) => views,
            None => OrderedMap::new(),
        };
        views.insert(topic_id.to_owned(), view);
        self.views.insert(key, views);
    }
}

} // verus!
