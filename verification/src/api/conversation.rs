//! Comments, their status, votes and the events that tell of them.
use crate::api::status::Status;
use crate::domain::audit::{entries, AuditData};
use crate::domain::index::{index_lists, lemma_index_list, lemma_index_put};
use crate::domain::index::{lemma_put_after_without, list_for, list_once_at, listed_once_at};
use crate::domain::index::TopicIndex;
use crate::domain::kinds::CommentType;
use crate::domain::lists::{other_than, without_topic};
use crate::domain::metadata::TopicMetadata;
use crate::domain::scope::{Scope, ScopeView};
use crate::domain::topic::{new_topic, parse_comment_topic, prefix_of, topic_text, Topic};
use crate::ordered::{has_key, lookup, put};
use crate::report::rows::{denotes, id_texts, meant};
use crate::text::{append_numeral, numeral, text_eq, texts};
use vstd::prelude::*;
use vstd::string::*;

verus! {

#[derive(Debug)]
pub struct UserIdQuery {
    pub user_id: i64,
}

#[derive(Debug)]
pub struct OptionalUserIdQuery {
    pub user_id: Option<i64>,
}

#[derive(Debug)]
pub struct AgentContextQuery {
    pub include_expanded_context: bool,
}

/// A message of the general chat.
#[derive(Debug)]
pub struct Chat {
    pub id: i64,
    pub content: String,
    pub created_at: String,
}

#[derive(Debug)]
pub struct CreateChatRequest {
    pub content: String,
}

/// Where a comment stands in its life.
#[derive(Debug, Clone, Copy, PartialEq, Eq, Structural)]
pub enum CommentStatus {
    Active,
    Hidden,
    Resolved,
    Unanswered,
    Answered,
    Unconfirmed,
    Confirmed,
    Rejected,
}

impl CommentStatus {
    pub open spec fn label(self) -> Seq<char> {
        match self {
            CommentStatus::Active => "active"@,
            CommentStatus::Hidden => "hidden"@,
            CommentStatus::Resolved => "resolved"@,
            CommentStatus::Unanswered => "unanswered"@,
            CommentStatus::Answered => "answered"@,
            CommentStatus::Unconfirmed => "unconfirmed"@,
            CommentStatus::Confirmed => "confirmed"@,
            CommentStatus::Rejected => "rejected"@,
        }
    }

    pub fn as_str(&self) -> (r: &'static str)
        ensures
            r@ == self.label(),
            r@ == match self {
                CommentStatus::Active => "active"@,
                CommentStatus::Hidden => "hidden"@,
                CommentStatus::Resolved => "resolved"@,
                CommentStatus::Unanswered => "unanswered"@,
                CommentStatus::Answered => "answered"@,
                CommentStatus::Unconfirmed => "unconfirmed"@,
                CommentStatus::Confirmed => "confirmed"@,
                CommentStatus::Rejected => "rejected"@,
            },
    {
        match self {
            CommentStatus::Active => "active",
            CommentStatus::Hidden => "hidden",
            CommentStatus::Resolved => "resolved",
            CommentStatus::Unanswered => "unanswered",
            CommentStatus::Answered => "answered",
            CommentStatus::Unconfirmed => "unconfirmed",
            CommentStatus::Confirmed => "confirmed",
            CommentStatus::Rejected => "rejected",
        }
    }

    /// Distinct statuses have distinct labels.
    pub proof fn label_injective(a: CommentStatus, b: CommentStatus)
        requires
            a.label() == b.label(),
        ensures
            a == b,
    {
        reveal_strlit("active");
        assert("active"@.len() == 6 && "active"@[0] == 'a');
        reveal_strlit("hidden");
        assert("hidden"@.len() == 6 && "hidden"@[0] == 'h');
        reveal_strlit("resolved");
        assert("resolved"@.len() == 8 && "resolved"@[2] == 's');
        reveal_strlit("unanswered");
        assert("unanswered"@.len() == 10);
        reveal_strlit("answered");
        assert("answered"@.len() == 8 && "answered"@[2] == 's' && "answered"@[0] == 'a');
        assert("resolved"@[0] == 'r');
        reveal_strlit("unconfirmed");
        assert("unconfirmed"@.len() == 11);
        reveal_strlit("confirmed");
        assert("confirmed"@.len() == 9);
        reveal_strlit("rejected");
        assert("rejected"@.len() == 8 && "rejected"@[0] == 'r' && "rejected"@[2] == 'j');
    }

    /// The status with label `s`.
    pub fn parse_str(s: &str) -> (r: Option<CommentStatus>)
        ensures
            match r {
                Some(status) => status.label() == s@,
                None => forall|status: CommentStatus| (#[trigger] status.label()) != s@,
            },
            s@ == "active"@ ==> r == Some(CommentStatus::Active),
            s@ == "hidden"@ ==> r == Some(CommentStatus::Hidden),
            s@ == "resolved"@ ==> r == Some(CommentStatus::Resolved),
            s@ == "unanswered"@ ==> r == Some(CommentStatus::Unanswered),
            s@ == "answered"@ ==> r == Some(CommentStatus::Answered),
            s@ == "unconfirmed"@ ==> r == Some(CommentStatus::Unconfirmed),
            s@ == "confirmed"@ ==> r == Some(CommentStatus::Confirmed),
            s@ == "rejected"@ ==> r == Some(CommentStatus::Rejected),
    {
        proof {
            assert forall|a: CommentStatus, b: CommentStatus| #[trigger]
                a.label() == #[trigger] b.label() implies a == b by {
                CommentStatus::label_injective(a, b);
            }
            assert(CommentStatus::Active.label() == "active"@);
            assert(CommentStatus::Hidden.label() == "hidden"@);
            assert(CommentStatus::Resolved.label() == "resolved"@);
            assert(CommentStatus::Unanswered.label() == "unanswered"@);
            assert(CommentStatus::Answered.label() == "answered"@);
            assert(CommentStatus::Unconfirmed.label() == "unconfirmed"@);
            assert(CommentStatus::Confirmed.label() == "confirmed"@);
            assert(CommentStatus::Rejected.label() == "rejected"@);
        }
        if text_eq(s, "active") {
            Some(CommentStatus::Active)
        } else if text_eq(s, "hidden") {
            Some(CommentStatus::Hidden)
        } else if text_eq(s, "resolved") {
            Some(CommentStatus::Resolved)
        } else if text_eq(s, "unanswered") {
            Some(CommentStatus::Unanswered)
        } else if text_eq(s, "answered") {
            Some(CommentStatus::Answered)
        } else if text_eq(s, "unconfirmed") {
            Some(CommentStatus::Unconfirmed)
        } else if text_eq(s, "confirmed") {
            Some(CommentStatus::Confirmed)
        } else if text_eq(s, "rejected") {
            Some(CommentStatus::Rejected)
        } else {
            None
        }
    }
}

/// The type and the status that a request for comments names. Both must be known.
pub fn requested_comments(comment_type: &str, status: &str) -> (r: Result<
    (CommentType, CommentStatus),
    Status,
>)
    ensures
        match r {
            Ok((t, s)) => t.label() == comment_type@ && s.label() == status@,
            Err(e) => e == Status::BadRequest && ((forall|t: CommentType|
                (#[trigger] t.label()) != comment_type@) || (forall|s: CommentStatus|
                (#[trigger] s.label()) != status@)),
        },
{
    match CommentType::parse_str(comment_type) {
        Some(t) => match CommentStatus::parse_str(status) {
            Some(s) => Ok((t, s)),
            None => Err(Status::BadRequest),
        },
        None => Err(Status::BadRequest),
    }
}

/// The comment that a request names.
pub fn requested_comment(comment_id: &str) -> (r: Result<Topic, Status>)
    ensures
        match r {
            Ok(t) => denotes(comment_id@) && t == meant(comment_id@) && prefix_of(t) == 'C',
            Err(s) => s == Status::BadRequest && !(denotes(comment_id@) && prefix_of(
                meant(comment_id@),
            ) == 'C'),
        },
{
    match parse_comment_topic(comment_id) {
        Ok(t) => Ok(t),
        Err(_) => Err(Status::BadRequest),
    }
}

/// The scope of a topic. A topic that is not known has the global scope.
pub open spec fn scope_at(a: &AuditData, t: Topic) -> ScopeView {
    match lookup(entries(a), t) {
        Some(m) => m.scope_view(),
        None => ScopeView::Global,
    }
}

/// The scope that a comment on a topic takes.
pub fn scope_for_comment(a: &AuditData, target: &Topic) -> (r: Scope)
    ensures
        r@ == scope_at(a, *target),
{
    match a.topic_metadata.get(target) {
        Some(m) => m.scope().copy(),
        None => Scope::Global,
    }
}

/// The comment that a comment answers.
pub open spec fn answered_by(meta: Seq<(Topic, TopicMetadata)>, t: Topic) -> Option<Topic> {
    match lookup(meta, t) {
        Some(m) => match m.target() {
            Some(parent) => if parent is Comment {
                Some(parent)
            } else {
                None
            },
            None => None,
        },
        None => None,
    }
}

/// `path` leads from comment to comment, each answering the next, and meets none
/// twice.
pub open spec fn is_thread_walk(
    meta: Seq<(Topic, TopicMetadata)>,
    start: Topic,
    path: Seq<Topic>,
) -> bool {
    &&& path.len() > 0 ==> path[0] == start && start is Comment
    &&& forall|i: int|
        0 <= i < path.len() - 1 ==> answered_by(meta, #[trigger] path[i]) == Some(path[i + 1])
    &&& path.no_duplicates()
}

/// `path` is the whole way from a comment to the start of its thread. Away from
/// comments there is no way to go.
pub open spec fn is_thread(
    meta: Seq<(Topic, TopicMetadata)>,
    start: Topic,
    path: Seq<Topic>,
) -> bool {
    &&& is_thread_walk(meta, start, path)
    &&& start is Comment ==> path.len() > 0 && answered_by(meta, path.last()) is None
    &&& !(start is Comment) ==> path.len() == 0
}

/// `path` comes back to a comment that it met before.
pub open spec fn goes_round(
    meta: Seq<(Topic, TopicMetadata)>,
    start: Topic,
    path: Seq<Topic>,
) -> bool {
    &&& is_thread_walk(meta, start, path)
    &&& path.len() > 0
    &&& answered_by(meta, path.last()) is Some
    &&& path.contains(answered_by(meta, path.last())->0)
}

/// Two ways from the same comment are the same as far as both go.
proof fn lemma_walks_agree(
    meta: Seq<(Topic, TopicMetadata)>,
    start: Topic,
    p: Seq<Topic>,
    q: Seq<Topic>,
    i: int,
)
    requires
        is_thread_walk(meta, start, p),
        is_thread_walk(meta, start, q),
        0 <= i < p.len(),
        i < q.len(),
    ensures
        p[i] == q[i],
    decreases i,
{
    if i > 0 {
        lemma_walks_agree(meta, start, p, q, i - 1);
        assert(answered_by(meta, p[i - 1]) == Some(p[i]));
        assert(answered_by(meta, q[i - 1]) == Some(q[i]));
    }
}

/// A comment has one thread at most.
pub proof fn thread_is_unique(
    meta: Seq<(Topic, TopicMetadata)>,
    start: Topic,
    p: Seq<Topic>,
    q: Seq<Topic>,
)
    requires
        is_thread(meta, start, p),
        is_thread(meta, start, q),
    ensures
        p == q,
{
    if start is Comment {
        if p.len() < q.len() {
            lemma_walks_agree(meta, start, p, q, p.len() - 1);
            assert(answered_by(meta, q[p.len() - 1]) == Some(q[p.len() as int]));
        }
        if q.len() < p.len() {
            lemma_walks_agree(meta, start, p, q, q.len() - 1);
            assert(answered_by(meta, p[q.len() - 1]) == Some(p[q.len() as int]));
        }
        assert forall|i: int| 0 <= i < p.len() implies p[i] == q[i] by {
            lemma_walks_agree(meta, start, p, q, i);
        }
    }
    assert(p =~= q);
}

/// The threads that a new answer changes: that of the comment it answers, and
/// those of the comments above. Comments that answer each other in a round have
/// no such list.
pub fn invalidated_threads(a: &AuditData, start: Topic) -> (r: Option<Vec<String>>)
    ensures
        match r {
            Some(ids) => exists|path: Seq<Topic>| #[trigger]
                is_thread(entries(a), start, path) && texts(ids@) == id_texts(path),
            None => exists|path: Seq<Topic>| #[trigger] goes_round(entries(a), start, path),
        },
{
    let ghost meta = entries(a);
    let mut path: Vec<Topic> = Vec::new();
    let mut ids: Vec<String> = Vec::new();
    if !is_comment(&start) {
        assert(texts(ids@) =~= id_texts(path@));
        assert(is_thread(meta, start, path@));
        return Some(ids);
    }
    path.push(start);
    ids.push(start.id());
    assert(texts(ids@) =~= id_texts(path@));
    let ghost dom = a.topic_metadata@.dom();
    let n: usize = a.topic_metadata.len();
    proof {
        lemma_keys_fit(meta, dom);
    }
    let mut current = start;
    loop
        invariant
            meta == entries(a),
            is_thread_walk(meta, start, path@),
            path@.len() > 0,
            path@.last() == current,
            start is Comment,
            texts(ids@) == id_texts(path@),
            dom == a.topic_metadata@.dom(),
            dom.finite(),
            n == meta.len(),
            dom.len() <= n,
            forall|i: int| 0 <= i < path@.len() - 1 ==> dom.contains(#[trigger] path@[i]),
            path@.len() <= n + 1,
        decreases n + 1 - path@.len(),
    {
        let parent = match a.topic_metadata.get(&current) {
            Some(m) => match m.target_topic() {
                Some(p) => if is_comment(p) {
                    Some(*p)
                } else {
                    None
                },
                None => None,
            },
            None => None,
        };
        assert(parent == answered_by(meta, current));
        match parent {
            Some(p) => {
                if crate::domain::lists::contains_topic(&path, &p) {
                    assert(goes_round(meta, start, path@));
                    return None;
                }
                let ghost before = path@;
                proof {
                    assert(dom.contains(current));
                    lemma_path_fits(before, dom);
                }
                let ghost said = ids@;
                path.push(p);
                ids.push(p.id());
                assert(texts(ids@) =~= texts(said).push(topic_text(p)));
                assert(id_texts(path@) =~= id_texts(before).push(topic_text(p)));
                assert(is_thread_walk(meta, start, path@)) by {
                    assert forall|i: int| 0 <= i < path@.len() - 1 implies answered_by(
                        meta,
                        #[trigger] path@[i],
                    ) == Some(path@[i + 1]) by {
                        if i < before.len() - 1 {
                            assert(before[i] == path@[i] && before[i + 1] == path@[i + 1]);
                        }
                    }
                }
                current = p;
            },
            None => {
                assert(is_thread(meta, start, path@));
                return Some(ids);
            },
        }
    }
}

/// A map has no more keys than entries.
proof fn lemma_keys_fit(meta: Seq<(Topic, TopicMetadata)>, dom: Set<Topic>)
    requires
        forall|t: Topic| #[trigger] dom.contains(t) == has_key(meta, t),
    ensures
        dom.finite(),
        dom.len() <= meta.len(),
{
    let keys = meta.map_values(|e: (Topic, TopicMetadata)| e.0);
    assert forall|t: Topic| #[trigger] dom.contains(t) == keys.to_set().contains(t) by {
        if has_key(meta, t) {
            let i = crate::ordered::index_of(meta, t);
            assert(keys[i] == t);
        }
        if keys.contains(t) {
            let i = choose|i: int| 0 <= i < keys.len() && keys[i] == t;
            assert(meta[i].0@ == t);
        }
    }
    assert(dom =~= keys.to_set());
    keys.lemma_cardinality_of_set();
    vstd::seq_lib::seq_to_set_is_finite(keys);
}

/// Distinct topics of a set are no more than the set holds.
proof fn lemma_path_fits(path: Seq<Topic>, dom: Set<Topic>)
    requires
        path.no_duplicates(),
        dom.finite(),
        forall|i: int| 0 <= i < path.len() ==> dom.contains(#[trigger] path[i]),
    ensures
        path.len() <= dom.len(),
{
    path.unique_seq_to_set();
    assert(path.to_set().subset_of(dom));
    vstd::set_lib::lemma_len_subset(path.to_set(), dom);
}

fn is_comment(t: &Topic) -> (r: bool)
    ensures
        r == (t is Comment),
{
    match t {
        Topic::Comment(_) => true,
        _ => false,
    }
}

/// `list` with `t`, unless it is there already.
pub open spec fn with_text(list: Seq<Seq<char>>, t: Seq<char>) -> Seq<Seq<char>> {
    if list.contains(t) {
        list
    } else {
        list.push(t)
    }
}

/// The topics that a new comment concerns: the one that it is on, and each that it
/// mentions, once.
pub open spec fn concerned(topic_id: Seq<char>, mentions: Seq<Topic>) -> Seq<Seq<char>>
    decreases mentions.len(),
{
    if mentions.len() == 0 {
        seq![topic_id]
    } else {
        with_text(concerned(topic_id, mentions.drop_last()), topic_text(mentions.last()))
    }
}

fn has_text_in(list: &Vec<String>, s: &str) -> (r: bool)
    ensures
        r == texts(list@).contains(s@),
{
    for i in 0..list.len()
        invariant
            forall|k: int| 0 <= k < i ==> texts(list@)[k] != s@,
    {
        assert(texts(list@)[i as int] == list@[i as int]@);
        if text_eq(list[i].as_str(), s) {
            return true;
        }
    }
    false
}

/// The topics that a new comment concerns.
pub fn affected_topics(topic_id: &str, mentions: &Vec<Topic>) -> (r: Vec<String>)
    ensures
        texts(r@) == concerned(topic_id@, mentions@),
{
    let mut out: Vec<String> = Vec::new();
    out.push(topic_id.to_owned());
    assert(texts(out@) =~= concerned(topic_id@, mentions@.take(0)));
    for i in 0..mentions.len()
        invariant
            texts(out@) == concerned(topic_id@, mentions@.take(i as int)),
    {
        assert(mentions@.take(i + 1).drop_last() =~= mentions@.take(i as int));
        let id = mentions[i].id();
        let ghost before = out@;
        let ghost text = id@;
        if !has_text_in(&out, id.as_str()) {
            out.push(id);
            assert(texts(out@) =~= texts(before).push(text));
        }
    }
    assert(mentions@.take(mentions@.len() as int) =~= mentions@);
    out
}

/// What listeners of an audit are told.
#[derive(Debug)]
pub enum AuditEvent {
    TopicUpdated {
        audit_id: String,
        topic_id: String,
        comment_topic_id: String,
        invalidated_thread_ids: Vec<String>,
    },
    StatusUpdated { audit_id: String, comment_topic_id: String, status: CommentStatus },
    VoteUpdated {
        audit_id: String,
        comment_topic_id: String,
        score: i64,
        upvotes: i64,
        downvotes: i64,
    },
}

impl AuditEvent {
    /// The audit that an event is about.
    pub open spec fn audit(self) -> Seq<char> {
        match self {
            AuditEvent::TopicUpdated { audit_id, .. } => audit_id@,
            AuditEvent::StatusUpdated { audit_id, .. } => audit_id@,
            AuditEvent::VoteUpdated { audit_id, .. } => audit_id@,
        }
    }

    pub fn audit_id(&self) -> (r: &str)
        ensures
            r@ == self.audit(),
    {
        match self {
            AuditEvent::TopicUpdated { audit_id, .. } => audit_id.as_str(),
            AuditEvent::StatusUpdated { audit_id, .. } => audit_id.as_str(),
            AuditEvent::VoteUpdated { audit_id, .. } => audit_id.as_str(),
        }
    }

    /// Whether a listener of an audit is told of this event.
    pub fn is_for_audit(&self, audit_id: &str) -> (r: bool)
        ensures
            r == (self.audit() == audit_id@),
    {
        text_eq(self.audit_id(), audit_id)
    }
}

/// `e` tells of a comment on a topic.
pub open spec fn tells_of_comment(
    e: AuditEvent,
    audit_id: Seq<char>,
    topic_id: Seq<char>,
    comment_topic_id: Seq<char>,
    threads: Seq<Seq<char>>,
) -> bool {
    match e {
        AuditEvent::TopicUpdated {
            audit_id: a,
            topic_id: t,
            comment_topic_id: c,
            invalidated_thread_ids: ids,
        } => a@ == audit_id && t@ == topic_id && c@ == comment_topic_id && texts(ids@) == threads,
        _ => false,
    }
}

fn copy_texts(list: &Vec<String>) -> (r: Vec<String>)
    ensures
        texts(r@) == texts(list@),
{
    let mut out: Vec<String> = Vec::new();
    assert(texts(out@) =~= texts(list@).take(0));
    for i in 0..list.len()
        invariant
            texts(out@) == texts(list@).take(i as int),
    {
        let ghost before = out@;
        out.push(list[i].clone());
        assert(texts(out@) =~= texts(before).push(list@[i as int]@));
        assert(texts(list@).take(i + 1) =~= texts(list@).take(i as int).push(list@[i as int]@));
    }
    assert(texts(list@).take(list@.len() as int) =~= texts(list@));
    out
}

/// The events that tell of a new comment: one for each topic that it concerns. The
/// first carries the threads that changed.
pub fn comment_events(
    audit_id: &str,
    comment_topic_id: &str,
    affected: &Vec<String>,
    threads: &Vec<String>,
) -> (r: Vec<AuditEvent>)
    ensures
        r@.len() == affected@.len(),
        forall|i: int|
            0 <= i < r@.len() ==> tells_of_comment(
                #[trigger] r@[i],
                audit_id@,
                affected@[i]@,
                comment_topic_id@,
                if i == 0 {
                    texts(threads@)
                } else {
                    seq![]
                },
            ),
{
    let mut out: Vec<AuditEvent> = Vec::new();
    for i in 0..affected.len()
        invariant
            out@.len() == i,
            forall|k: int|
                0 <= k < i ==> tells_of_comment(
                    #[trigger] out@[k],
                    audit_id@,
                    affected@[k]@,
                    comment_topic_id@,
                    if k == 0 {
                        texts(threads@)
                    } else {
                        seq![]
                    },
                ),
    {
        let invalidated_thread_ids = if i == 0 {
            copy_texts(threads)
        } else {
            Vec::new()
        };
        assert(i > 0 ==> texts(invalidated_thread_ids@) =~= seq![]);
        out.push(
            AuditEvent::TopicUpdated {
                audit_id: audit_id.to_owned(),
                topic_id: affected[i].clone(),
                comment_topic_id: comment_topic_id.to_owned(),
                invalidated_thread_ids,
            },
        );
    }
    out
}

/// The events that tell of a comment which was just taken in. It is on the topic
/// with the wire form `topic_id` and mentions others. Comments that answer each
/// other in a round have no thread to tell of.
pub fn create_comment(
    a: &AuditData,
    audit_id: &str,
    topic_id: &str,
    comment_topic_id: &str,
    mentions: &Vec<Topic>,
) -> (r: Option<Vec<AuditEvent>>)
    requires
        denotes(topic_id@),
    ensures
        match r {
            Some(events) => {
                let affected = concerned(topic_id@, mentions@);
                &&& events@.len() == affected.len()
                &&& exists|path: Seq<Topic>| #[trigger]
                    is_thread(entries(a), meant(topic_id@), path) && forall|i: int|
                        0 <= i < affected.len() ==> tells_of_comment(
                            #[trigger] events@[i],
                            audit_id@,
                            affected[i],
                            comment_topic_id@,
                            if i == 0 {
                                id_texts(path)
                            } else {
                                seq![]
                            },
                        )
            },
            None => exists|path: Seq<Topic>| #[trigger]
                goes_round(entries(a), meant(topic_id@), path),
        },
{
    let threads = match invalidated_threads(a, new_topic(topic_id)) {
        Some(threads) => threads,
        None => {
            return None;
        },
    };
    let affected = affected_topics(topic_id, mentions);
    let events = comment_events(audit_id, comment_topic_id, &affected, &threads);
    proof {
        let path = choose|path: Seq<Topic>| #[trigger]
            is_thread(entries(a), meant(topic_id@), path) && texts(threads@) == id_texts(path);
        let all = concerned(topic_id@, mentions@);
        assert(all.len() == affected@.len());
        assert forall|i: int| 0 <= i < all.len() implies tells_of_comment(
            #[trigger] events@[i],
            audit_id@,
            all[i],
            comment_topic_id@,
            if i == 0 {
                id_texts(path)
            } else {
                seq![]
            },
        ) by {
            assert(texts(affected@)[i] == affected@[i]@);
        }
    }
    Some(events)
}

/// The comment index after a comment took a status: hidden comments are not in it.
pub open spec fn indexed(
    index: Seq<(Topic, Seq<Topic>)>,
    target: Topic,
    comment: Topic,
    status: CommentStatus,
) -> Seq<(Topic, Seq<Topic>)> {
    if status == CommentStatus::Hidden {
        if has_key(index, target) {
            put(index, target, list_for(index, target).filter(other_than(comment)))
        } else {
            index
        }
    } else {
        listed_once_at(index, target, comment)
    }
}

/// Brings the comment index in line with the new status of a comment. A comment on
/// nothing that is known is left out of it.
pub fn update_comment_status(a: &mut AuditData, comment: Topic, status: CommentStatus)
    ensures
        *final(a) == (AuditData { comment_index: final(a).comment_index, ..*old(a) }),
        index_lists(final(a).comment_index.pairs()) == match lookup(entries(&*old(a)), comment) {
            Some(m) => match m.target() {
                Some(target) => indexed(
                    index_lists(old(a).comment_index.pairs()),
                    target,
                    comment,
                    status,
                ),
                None => index_lists(old(a).comment_index.pairs()),
            },
            None => index_lists(old(a).comment_index.pairs()),
        },
{
    let target: Option<Topic> = match a.topic_metadata.get(&comment) {
        Some(m) => match m.target_topic() {
            Some(t) => Some(*t),
            None => None,
        },
        None => None,
    };
    if let Some(target) = target {
        if status == CommentStatus::Hidden {
            hide_comment(&mut a.comment_index, target, comment);
        } else {
            list_once_at(&mut a.comment_index, target, comment);
        }
    }
}

fn hide_comment(index: &mut TopicIndex, target: Topic, comment: Topic)
    ensures
        index_lists(final(index).pairs()) == indexed(
            index_lists(old(index).pairs()),
            target,
            comment,
            CommentStatus::Hidden,
        ),
{
    let _ = index.len();
    let ghost was = index.pairs();
    proof {
        lemma_index_list(was, target);
    }
    match index.remove(&target) {
        Some(list) => {
            let kept = without_topic(&list, &comment);
            proof {
                lemma_put_after_without(was, target, kept);
                lemma_index_put(was, target, kept);
            }
            index.insert(target, kept);
        },
        None => {},
    }
}

/// A comment that was hidden and shown again is at the end of the list, once.
pub proof fn hiding_and_showing(
    index: Seq<(Topic, Seq<Topic>)>,
    target: Topic,
    comment: Topic,
    status: CommentStatus,
)
    requires
        crate::ordered::ascending(index),
        has_key(index, target),
        status != CommentStatus::Hidden,
    ensures
        list_for(
            indexed(indexed(index, target, comment, CommentStatus::Hidden), target, comment, status),
            target,
        ) == list_for(index, target).filter(other_than(comment)).push(comment),
{
    let kept = list_for(index, target).filter(other_than(comment));
    crate::domain::index::lemma_lookup_put(index, target, kept, target);
    let hidden = put(index, target, kept);
    assert(list_for(hidden, target) == kept);
    assert(!kept.contains(comment)) by {
        if kept.contains(comment) {
            let k = choose|k: int| 0 <= k < kept.len() && kept[k] == comment;
            list_for(index, target).lemma_filter_pred(other_than(comment), k);
        }
    }
    crate::domain::index::lemma_lookup_put(hidden, target, kept.push(comment), target);
}

/// How a comment was voted on.
#[derive(Debug, Clone, Copy, PartialEq, Eq, Structural)]
pub struct VoteInfo {
    pub score: i64,
    pub upvotes: i64,
    pub downvotes: i64,
    pub user_vote: Option<i32>,
}

#[derive(Debug)]
pub struct CommentVoteSummary {
    pub comment_id: i64,
    pub comment_topic_id: String,
    pub score: i64,
    pub upvotes: i64,
    pub downvotes: i64,
    pub user_vote: Option<i32>,
}

/// How a comment was voted on, under its identifiers.
pub fn get_vote_summary(comment: &Topic, info: VoteInfo) -> (r: CommentVoteSummary)
    ensures
        r.comment_id == crate::domain::topic::number_of(*comment),
        r.comment_topic_id@ == topic_text(*comment),
        r.score == info.score,
        r.upvotes == info.upvotes,
        r.downvotes == info.downvotes,
        r.user_vote == info.user_vote,
{
    CommentVoteSummary {
        comment_id: comment.numeric_id() as i64,
        comment_topic_id: comment.id(),
        score: info.score,
        upvotes: info.upvotes,
        downvotes: info.downvotes,
        user_vote: info.user_vote,
    }
}

/// The event that tells of the votes on a comment.
pub fn cast_vote(audit_id: &str, comment: &Topic, info: VoteInfo) -> (r: AuditEvent)
    ensures
        match r {
            AuditEvent::VoteUpdated {
                audit_id: a,
                comment_topic_id: c,
                score,
                upvotes,
                downvotes,
            } => {
                &&& a@ == audit_id@
                &&& c@ == topic_text(*comment)
                &&& score == info.score
                &&& upvotes == info.upvotes
                &&& downvotes == info.downvotes
            },
            _ => false,
        },
{
    AuditEvent::VoteUpdated {
        audit_id: audit_id.to_owned(),
        comment_topic_id: comment.id(),
        score: info.score,
        upvotes: info.upvotes,
        downvotes: info.downvotes,
    }
}

/// The identifiers of comments with these numbers.
pub open spec fn comment_texts(ids: Seq<i64>) -> Seq<Seq<char>> {
    ids.map_values(|id: i64| seq!['C'] + numeral(id as int))
}

/// The identifiers of comments with these numbers.
pub fn get_unvoted_comment_ids(ids: &Vec<i64>) -> (r: Vec<String>)
    ensures
        texts(r@) == comment_texts(ids@),
{
    let mut out: Vec<String> = Vec::new();
    assert(texts(out@) =~= comment_texts(ids@).take(0));
    for i in 0..ids.len()
        invariant
            texts(out@) == comment_texts(ids@).take(i as int),
    {
        let ghost before = out@;
        let mut id = String::new();
        id.push('C');
        append_numeral(&mut id, ids[i]);
        let ghost text = id@;
        assert(text =~= seq!['C'] + numeral(ids@[i as int] as int));
        out.push(id);
        assert(texts(out@) =~= texts(before).push(text));
        assert(comment_texts(ids@).take(i + 1) =~= comment_texts(ids@).take(i as int).push(text));
    }
    assert(comment_texts(ids@).take(ids@.len() as int) =~= comment_texts(ids@));
    out
}

} // verus!
