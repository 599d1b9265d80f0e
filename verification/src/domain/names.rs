//! Topics by name.
use crate::domain::audit::{entries, AuditData};
use crate::domain::metadata::TopicMetadata;
use crate::domain::scope::{Scope, ScopeView};
use crate::domain::topic::{topic_before, topic_text, Topic};
use crate::ordered::{ascending, has_key, index_of, lookup, MapKey, OrderedMap};
use crate::text::{text_before, text_eq};
use vstd::prelude::*;
use vstd::string::*;

verus! {

/// Short English words that occur in prose so often that they name no topic.
pub open spec fn common_words() -> Seq<Seq<char>> {
    seq![
        "a"@,
        "an"@,
        "as"@,
        "at"@,
        "be"@,
        "by"@,
        "do"@,
        "for"@,
        "from"@,
        "if"@,
        "in"@,
        "is"@,
        "it"@,
        "no"@,
        "of"@,
        "on"@,
        "or"@,
        "so"@,
        "to"@,
        "up"@,
        "we"@,
    ]
}

proof fn lemma_common_words(name: Seq<char>)
    ensures
        common_words().contains(name) <==> name == "a"@ || name == "an"@ || name == "as"@
            || name == "at"@ || name == "be"@ || name == "by"@ || name == "do"@
            || name == "for"@ || name == "from"@ || name == "if"@ || name == "in"@
            || name == "is"@ || name == "it"@ || name == "no"@ || name == "of"@ || name == "on"@
            || name == "or"@ || name == "so"@ || name == "to"@ || name == "up"@ || name == "we"@,
{
    let all = common_words();
    assert(all[0] == "a"@);
    assert(all[1] == "an"@);
    assert(all[2] == "as"@);
    assert(all[3] == "at"@);
    assert(all[4] == "be"@);
    assert(all[5] == "by"@);
    assert(all[6] == "do"@);
    assert(all[7] == "for"@);
    assert(all[8] == "from"@);
    assert(all[9] == "if"@);
    assert(all[10] == "in"@);
    assert(all[11] == "is"@);
    assert(all[12] == "it"@);
    assert(all[13] == "no"@);
    assert(all[14] == "of"@);
    assert(all[15] == "on"@);
    assert(all[16] == "or"@);
    assert(all[17] == "so"@);
    assert(all[18] == "to"@);
    assert(all[19] == "up"@);
    assert(all[20] == "we"@);
    if all.contains(name) {
        let k = choose|k: int| 0 <= k < all.len() && all[k] == name;
        assert(k < 21);
    }
}

/// Whether a simple name is one of the common words.
pub fn is_common_word(name: &str) -> (r: bool)
    ensures
        r == common_words().contains(name@),
        r == (name@ == "a"@ || name@ == "an"@ || name@ == "as"@ || name@ == "at"@
            || name@ == "be"@ || name@ == "by"@ || name@ == "do"@ || name@ == "for"@
            || name@ == "from"@ || name@ == "if"@ || name@ == "in"@ || name@ == "is"@
            || name@ == "it"@ || name@ == "no"@ || name@ == "of"@ || name@ == "on"@
            || name@ == "or"@ || name@ == "so"@ || name@ == "to"@ || name@ == "up"@
            || name@ == "we"@),
{
    proof {
        lemma_common_words(name@);
    }
    let words: [&str; 21] = [
        "a",
        "an",
        "as",
        "at",
        "be",
        "by",
        "do",
        "for",
        "from",
        "if",
        "in",
        "is",
        "it",
        "no",
        "of",
        "on",
        "or",
        "so",
        "to",
        "up",
        "we",
    ];
    assert forall|i: int| 0 <= i < 21 implies (#[trigger] words@[i])@ == common_words()[i] by {}
    let mut i: usize = 0;
    while i < 21
        invariant
            i <= 21,
            forall|j: int| 0 <= j < 21 ==> (#[trigger] words@[j])@ == common_words()[j],
            forall|j: int| 0 <= j < i ==> common_words()[j] != name@,
        decreases 21 - i,
    {
        assert(words@[i as int]@ == common_words()[i as int]);
        if text_eq(words[i], name) {
            assert(common_words()[i as int] == name@);
            return true;
        }
        i += 1;
    }
    false
}

/// The name by which a topic appears in a qualified name: its own, or else its
/// identifier.
pub open spec fn shown_name(meta: Seq<(Topic, TopicMetadata)>, t: Topic) -> Seq<char> {
    match lookup(meta, t) {
        Some(m) => match m.name_text() {
            Some(n) => n,
            None => topic_text(t),
        },
        None => topic_text(t),
    }
}

/// The qualified name: the names of the component and the member, as far as the
/// scope has them, and the topic's own, with dots between.
pub open spec fn qualified(meta: Seq<(Topic, TopicMetadata)>, m: TopicMetadata) -> Option<
    Seq<char>,
> {
    match m.name_text() {
        None => None,
        Some(name) => Some(
            match m.scope_view() {
                ScopeView::Global => name,
                ScopeView::Container { .. } => name,
                ScopeView::Component { component, .. } => shown_name(meta, component) + seq!['.']
                    + name,
                ScopeView::Member { component, member, .. } => shown_name(meta, component) + seq![
                    '.',
                ] + shown_name(meta, member) + seq!['.'] + name,
                ScopeView::ContainingBlock { component, member, .. } => shown_name(meta, component)
                    + seq!['.'] + shown_name(meta, member) + seq!['.'] + name,
            },
        ),
    }
}

fn name_shown(meta: &OrderedMap<Topic, TopicMetadata>, t: &Topic) -> (r: String)
    ensures
        r@ == shown_name(meta.pairs(), *t),
{
    match meta.get(t) {
        Some(m) => match m.name() {
            Some(n) => n.to_owned(),
            None => t.id(),
        },
        None => t.id(),
    }
}

impl TopicMetadata {
    /// The qualified name, for topics with a name. Scopes without a name appear
    /// by their identifier.
    pub fn qualified_name(&self, audit_data: &AuditData) -> (r: Option<String>)
        ensures
            match r {
                Some(s) => qualified(entries(audit_data), *self) == Some(s@),
                None => qualified(entries(audit_data), *self) is None,
            },
    {
        let name = match self.name() {
            Some(name) => name,
            None => {
                return None;
            },
        };
        match self.scope() {
            Scope::Global => Some(name.to_owned()),
            Scope::Container { .. } => Some(name.to_owned()),
            Scope::Component { component, .. } => {
                let mut out = name_shown(&audit_data.topic_metadata, component);
                out.push('.');
                out.append(name);
                assert(out@ =~= qualified(entries(audit_data), *self)->0);
                Some(out)
            },
            Scope::Member { component, member, .. } => {
                let mut out = name_shown(&audit_data.topic_metadata, component);
                out.push('.');
                out.append(name_shown(&audit_data.topic_metadata, member).as_str());
                out.push('.');
                out.append(name);
                assert(out@ =~= qualified(entries(audit_data), *self)->0);
                Some(out)
            },
            Scope::ContainingBlock { component, member, .. } => {
                let mut out = name_shown(&audit_data.topic_metadata, component);
                out.push('.');
                out.append(name_shown(&audit_data.topic_metadata, member).as_str());
                out.push('.');
                out.append(name);
                assert(out@ =~= qualified(entries(audit_data), *self)->0);
                Some(out)
            },
        }
    }
}

/// The simple name under which a declaration can be found.
pub open spec fn simple_name(m: TopicMetadata) -> Option<Seq<char>> {
    match m {
        TopicMetadata::NamedTopic { name, .. } => if common_words().contains(name@) {
            None
        } else {
            Some(name@)
        },
        _ => None,
    }
}

/// The declarations among `some` with the simple name, in their order.
pub open spec fn candidates(some: Seq<(Topic, TopicMetadata)>, name: Seq<char>) -> Seq<Topic>
    decreases some.len(),
{
    if some.len() == 0 {
        seq![]
    } else if simple_name(some.last().1) == Some(name) {
        candidates(some.drop_last(), name).push(some.last().0)
    } else {
        candidates(some.drop_last(), name)
    }
}

/// The last declaration among `some` with the qualified name.
pub open spec fn qualified_winner(
    meta: Seq<(Topic, TopicMetadata)>,
    some: Seq<(Topic, TopicMetadata)>,
    name: Seq<char>,
) -> Option<Topic>
    decreases some.len(),
{
    if some.len() == 0 {
        None
    } else if some.last().1 is NamedTopic && qualified(meta, some.last().1) == Some(name) {
        Some(some.last().0)
    } else {
        qualified_winner(meta, some.drop_last(), name)
    }
}

/// Whether a topic stands for itself.
pub open spec fn is_no_proxy(meta: Seq<(Topic, TopicMetadata)>) -> spec_fn(Topic) -> bool {
    |t: Topic|
        match lookup(meta, t) {
            Some(m) => m.proxied() is None,
            None => true,
        }
}

/// The declaration that a simple name means: the only candidate, or else the
/// only candidate that is no proxy.
pub open spec fn meant_by(meta: Seq<(Topic, TopicMetadata)>, c: Seq<Topic>) -> Option<Topic> {
    if c.len() == 1 {
        Some(c[0])
    } else if c.filter(is_no_proxy(meta)).len() == 1 {
        Some(c.filter(is_no_proxy(meta))[0])
    } else {
        None
    }
}

/// Topics by qualified and by simple name.
pub struct TopicNameIndex {
    by_qualified_name: OrderedMap<String, Topic>,
    by_simple_name: OrderedMap<String, Topic>,
    by_simple_name_candidates: OrderedMap<String, Vec<Topic>>,
}

impl TopicNameIndex {
    pub closed spec fn qualified_map(&self) -> Map<Seq<char>, Topic> {
        self.by_qualified_name@
    }

    pub closed spec fn simple_map(&self) -> Map<Seq<char>, Topic> {
        self.by_simple_name@
    }

    pub closed spec fn candidate_map(&self) -> Map<Seq<char>, Seq<Topic>> {
        self.by_simple_name_candidates@.map_values(|v: Vec<Topic>| v@)
    }

    pub open spec fn is_blank(&self) -> bool {
        &&& self.qualified_map() == Map::<Seq<char>, Topic>::empty()
        &&& self.simple_map() == Map::<Seq<char>, Topic>::empty()
        &&& self.candidate_map() == Map::<Seq<char>, Seq<Topic>>::empty()
    }

    /// The index finds, among the topics of `meta`, the last declaration with a
    /// qualified name, all declarations with a simple name, and the one that the
    /// simple name means.
    pub open spec fn indexes(&self, meta: Seq<(Topic, TopicMetadata)>) -> bool {
        &&& forall|name: Seq<char>| #[trigger]
            self.qualified_map().dom().contains(name) == qualified_winner(
                meta,
                meta,
                name,
            ) is Some
        &&& forall|name: Seq<char>| #[trigger]
            self.qualified_map().dom().contains(name) ==> Some(self.qualified_map()[name])
                == qualified_winner(meta, meta, name)
        &&& forall|name: Seq<char>| #[trigger]
            self.candidate_map().dom().contains(name) == (candidates(meta, name).len() > 0)
        &&& forall|name: Seq<char>| #[trigger]
            self.candidate_map().dom().contains(name) ==> self.candidate_map()[name]
                == candidates(meta, name)
        &&& forall|name: Seq<char>| #[trigger]
            self.simple_map().dom().contains(name) == meant_by(
                meta,
                candidates(meta, name),
            ) is Some
        &&& forall|name: Seq<char>| #[trigger]
            self.simple_map().dom().contains(name) ==> Some(self.simple_map()[name]) == meant_by(
                meta,
                candidates(meta, name),
            )
    }

    pub fn empty() -> (r: Self)
        ensures
            r.is_blank(),
    {
        let r = TopicNameIndex {
            by_qualified_name: OrderedMap::new(),
            by_simple_name: OrderedMap::new(),
            by_simple_name_candidates: OrderedMap::new(),
        };
        assert(r.candidate_map() =~= Map::<Seq<char>, Seq<Topic>>::empty());
        r
    }

    /// Builds the index of an audit. Only declarations in code take part.
    pub fn build(audit_data: &AuditData) -> (r: Self)
        ensures
            r.indexes(entries(audit_data)),
    {
        let ghost meta = entries(audit_data);
        let mut by_qualified_name: OrderedMap<String, Topic> = OrderedMap::new();
        let mut found: OrderedMap<String, Vec<Topic>> = OrderedMap::new();
        let n: usize = audit_data.topic_metadata.len();
        for i in 0..n
            invariant
                meta == entries(audit_data),
                n == meta.len(),
                forall|name: Seq<char>| #[trigger]
                    by_qualified_name@.dom().contains(name) == qualified_winner(
                        meta,
                        meta.take(i as int),
                        name,
                    ) is Some,
                forall|name: Seq<char>| #[trigger]
                    by_qualified_name@.dom().contains(name) ==> Some(by_qualified_name@[name])
                        == qualified_winner(meta, meta.take(i as int), name),
                forall|name: Seq<char>| #[trigger]
                    found@.dom().contains(name) == (candidates(meta.take(i as int), name).len()
                        > 0),
                forall|name: Seq<char>| #[trigger]
                    found@.dom().contains(name) ==> found@[name]@ == candidates(
                        meta.take(i as int),
                        name,
                    ),
        {
            let topic = *audit_data.topic_metadata.key_at(i);
            let metadata = audit_data.topic_metadata.value_at(i);
            let ghost upto = meta.take(i + 1);
            assert(upto.drop_last() =~= meta.take(i as int));
            assert(upto.last() == (topic, *metadata));
            match metadata {
                TopicMetadata::NamedTopic { name: sname, .. } => {
                    if let Some(qname) = metadata.qualified_name(audit_data) {
                        by_qualified_name.insert(qname, topic);
                    }
                    if !is_common_word(sname.as_str()) {
                        let ghost was = found@;
                        let ghost so_far = candidates(meta.take(i as int), sname@);
                        assert(was.dom().contains(sname@) == (so_far.len() > 0));
                        let mut list: Vec<Topic> = match found.remove(sname) {
                            Some(list) => list,
                            None => Vec::new(),
                        };
                        assert(list@ =~= so_far);
                        list.push(topic);
                        found.insert(sname.clone(), list);
                        assert(found@ == was.remove(sname@).insert(sname@, list));
                    }
                },
                _ => {},
            }
        }
        assert(meta.take(n as int) =~= meta);
        let by_simple_name = choose_meanings(&audit_data.topic_metadata, &found);
        let r = TopicNameIndex { by_qualified_name, by_simple_name, by_simple_name_candidates: found };
        assert forall|name: Seq<char>| #[trigger]
            r.candidate_map().dom().contains(name) implies r.candidate_map()[name] == candidates(
            meta,
            name,
        ) by {
            assert(found@.dom().contains(name));
        }
        assert forall|name: Seq<char>| #[trigger]
            r.simple_map().dom().contains(name) == meant_by(
                meta,
                candidates(meta, name),
            ) is Some by {
            assert(found@.dom().contains(name) == (candidates(meta, name).len() > 0));
            if candidates(meta, name).len() == 0 {
                assert(candidates(meta, name) =~= seq![]);
                reveal(Seq::filter);
                assert(candidates(meta, name).filter(is_no_proxy(meta)).len() == 0);
            }
        }
        r
    }

    pub fn get_by_qualified_name(&self, name: &str) -> (r: Option<&Topic>)
        ensures
            r is Some == self.qualified_map().dom().contains(name@),
            r is Some ==> *r->0 == self.qualified_map()[name@],
    {
        self.by_qualified_name.get(&name.to_owned())
    }

    pub fn get_by_simple_name(&self, name: &str) -> (r: Option<&Topic>)
        ensures
            r is Some == self.simple_map().dom().contains(name@),
            r is Some ==> *r->0 == self.simple_map()[name@],
    {
        self.by_simple_name.get(&name.to_owned())
    }

    /// Every declaration with the simple name, in ascending order.
    pub fn candidates_by_simple_name(&self, name: &str) -> (r: &[Topic])
        ensures
            r@ == if self.candidate_map().dom().contains(name@) {
                self.candidate_map()[name@]
            } else {
                seq![]
            },
    {
        match self.by_simple_name_candidates.get(&name.to_owned()) {
            Some(list) => list.as_slice(),
            None => &[],
        }
    }

    /// Every qualified name, in ascending order.
    pub fn qualified_names(&self) -> (r: Vec<&str>)
        ensures
            forall|i: int|
                0 <= i < r@.len() ==> self.qualified_map().dom().contains((#[trigger] r@[i])@),
            forall|name: Seq<char>| #[trigger]
                self.qualified_map().dom().contains(name) ==> exists|i: int|
                    0 <= i < r@.len() && (#[trigger] r@[i])@ == name,
            forall|i: int, j: int|
                0 <= i < j < r@.len() ==> text_before((#[trigger] r@[i])@, (#[trigger] r@[j])@),
    {
        let n: usize = self.by_qualified_name.len();
        let ghost pairs = self.by_qualified_name.pairs();
        let mut r: Vec<&str> = Vec::new();
        for i in 0..n
            invariant
                n == pairs.len(),
                pairs == self.by_qualified_name.pairs(),
                r@.len() == i,
                forall|j: int| 0 <= j < i ==> (#[trigger] r@[j])@ == pairs[j].0@,
        {
            r.push(self.by_qualified_name.key_at(i).as_str());
        }
        proof {
            assert forall|i: int| 0 <= i < r@.len() implies self.qualified_map().dom().contains(
                (#[trigger] r@[i])@,
            ) by {
                assert(pairs[i].0@ == r@[i]@);
                assert(has_key(pairs, r@[i]@));
            }
            assert forall|name: Seq<char>| #[trigger]
                self.qualified_map().dom().contains(name) implies exists|i: int|
                0 <= i < r@.len() && (#[trigger] r@[i])@ == name by {
                assert(has_key(pairs, name));
                let i = index_of(pairs, name);
                assert(r@[i]@ == name);
            }
            assert forall|i: int, j: int| 0 <= i < j < r@.len() implies text_before(
                (#[trigger] r@[i])@,
                (#[trigger] r@[j])@,
            ) by {
                assert(<String as MapKey>::before(pairs[i].0@, pairs[j].0@));
            }
        }
        r
    }
}

/// The declaration that each name means, for names that mean one.
fn choose_meanings(
    meta: &OrderedMap<Topic, TopicMetadata>,
    found: &OrderedMap<String, Vec<Topic>>,
) -> (r: OrderedMap<String, Topic>)
    ensures
        forall|name: Seq<char>| #[trigger]
            r@.dom().contains(name) == (found@.dom().contains(name) && meant_by(
                meta.pairs(),
                found@[name]@,
            ) is Some),
        forall|name: Seq<char>| #[trigger]
            r@.dom().contains(name) ==> Some(r@[name]) == meant_by(meta.pairs(), found@[name]@),
{
    let mut r: OrderedMap<String, Topic> = OrderedMap::new();
    let n: usize = found.len();
    let ghost pairs = found.pairs();
    for i in 0..n
        invariant
            n == pairs.len(),
            pairs == found.pairs(),
            ascending(pairs),
            forall|name: Seq<char>| #[trigger]
                r@.dom().contains(name) ==> exists|j: int|
                    0 <= j < i && #[trigger] pairs[j].0@ == name && meant_by(
                        meta.pairs(),
                        pairs[j].1@,
                    ) == Some(r@[name]),
            forall|j: int|
                0 <= j < i && meant_by(meta.pairs(), pairs[j].1@) is Some
                    ==> #[trigger] r@.dom().contains(pairs[j].0@),
    {
        let name = found.key_at(i);
        let list = found.value_at(i);
        let ghost before = r@;
        assert forall|j: int| 0 <= j < i implies #[trigger] pairs[j].0@ != name@ by {
            assert(<String as MapKey>::before(pairs[j].0@, pairs[i as int].0@));
            <String as MapKey>::before_irreflexive(name@);
        }
        match meaning(meta, list) {
            Some(t) => {
                r.insert(name.clone(), t);
                assert forall|q: Seq<char>| #[trigger]
                    r@.dom().contains(q) implies exists|j: int|
                    0 <= j < i + 1 && #[trigger] pairs[j].0@ == q && meant_by(
                        meta.pairs(),
                        pairs[j].1@,
                    ) == Some(r@[q]) by {
                    if q == name@ {
                        assert(pairs[i as int].0@ == q);
                    } else {
                        assert(before.dom().contains(q));
                        let j = choose|j: int|
                            0 <= j < i && #[trigger] pairs[j].0@ == q && meant_by(
                                meta.pairs(),
                                pairs[j].1@,
                            ) == Some(before[q]);
                        assert(pairs[j].0@ == q);
                    }
                }
            },
            None => {},
        }
    }
    proof {
        assert forall|name: Seq<char>| #[trigger]
            r@.dom().contains(name) == (found@.dom().contains(name) && meant_by(
                meta.pairs(),
                found@[name]@,
            ) is Some) by {
            if r@.dom().contains(name) {
                let j = choose|j: int|
                    0 <= j < n && #[trigger] pairs[j].0@ == name && meant_by(
                        meta.pairs(),
                        pairs[j].1@,
                    ) == Some(r@[name]);
                crate::ordered::lemma_index_of(pairs, j);
            }
            if found@.dom().contains(name) {
                assert(has_key(pairs, name));
                let j = index_of(pairs, name);
                assert(pairs[j].0@ == name);
            }
        }
        assert forall|name: Seq<char>| #[trigger] r@.dom().contains(name) implies Some(r@[name])
            == meant_by(meta.pairs(), found@[name]@) by {
            let j = choose|j: int|
                0 <= j < n && #[trigger] pairs[j].0@ == name && meant_by(
                    meta.pairs(),
                    pairs[j].1@,
                ) == Some(r@[name]);
            crate::ordered::lemma_index_of(pairs, j);
        }
    }
    r
}

/// The declaration that a list of candidates means.
fn meaning(meta: &OrderedMap<Topic, TopicMetadata>, list: &Vec<Topic>) -> (r: Option<Topic>)
    ensures
        r == meant_by(meta.pairs(), list@),
{
    if list.len() == 1 {
        return Some(list[0]);
    }
    let ghost p = is_no_proxy(meta.pairs());
    let mut kept: Vec<Topic> = Vec::new();
    for i in 0..list.len()
        invariant
            p == is_no_proxy(meta.pairs()),
            kept@ == list@.take(i as int).filter(p),
    {
        let t = list[i];
        assert(list@.take(i + 1) =~= list@.take(i as int).push(t));
        proof {
            list@.take(i as int).lemma_filter_push(t, p);
        }
        let proxy = match meta.get(&t) {
            Some(m) => m.transitive_topic().is_some(),
            None => false,
        };
        if !proxy {
            kept.push(t);
        }
    }
    assert(list@.take(list@.len() as int) =~= list@);
    if kept.len() == 1 {
        Some(kept[0])
    } else {
        None
    }
}

proof fn lemma_candidates_from(some: Seq<(Topic, TopicMetadata)>, name: Seq<char>, i: int)
    requires
        0 <= i < candidates(some, name).len(),
    ensures
        exists|k: int|
            0 <= k < some.len() && (#[trigger] some[k]).0 == candidates(some, name)[i]
                && simple_name(some[k].1) == Some(name),
    decreases some.len(),
{
    if some.len() > 0 {
        let rest = some.drop_last();
        let n = some.len() - 1;
        let c = candidates(some, name);
        if i < candidates(rest, name).len() {
            lemma_candidates_from(rest, name, i);
            let k = choose|k: int|
                0 <= k < rest.len() && (#[trigger] rest[k]).0 == candidates(rest, name)[i]
                    && simple_name(rest[k].1) == Some(name);
            assert(some[k].0 == c[i]);
        } else {
            assert(some[n].0 == c[i]);
        }
    }
}

/// The candidates of a name stand in ascending order, each once.
pub proof fn candidates_ascend(some: Seq<(Topic, TopicMetadata)>, name: Seq<char>, i: int, j: int)
    requires
        ascending(some),
        0 <= i < j < candidates(some, name).len(),
    ensures
        topic_before(candidates(some, name)[i], candidates(some, name)[j]),
    decreases some.len(),
{
    if some.len() > 0 {
        let rest = some.drop_last();
        let n = some.len() - 1;
        let c = candidates(some, name);
        let d = candidates(rest, name);
        assert(forall|k: int| 0 <= k < n ==> #[trigger] rest[k] == some[k]);
        assert(ascending(rest));
        if j < d.len() {
            candidates_ascend(rest, name, i, j);
        } else {
            lemma_candidates_from(rest, name, i);
            let k = choose|k: int|
                0 <= k < rest.len() && (#[trigger] rest[k]).0 == d[i] && simple_name(rest[k].1)
                    == Some(name);
            assert(Topic::before(some[k].0@, some[n].0@));
            assert(c[i] == d[i] && c[j] == some[n].0);
        }
    }
}

/// A common word names no declaration.
pub proof fn common_words_have_no_candidates(some: Seq<(Topic, TopicMetadata)>, name: Seq<char>)
    requires
        common_words().contains(name),
    ensures
        candidates(some, name).len() == 0,
        meant_by(some, candidates(some, name)) is None,
    decreases some.len(),
{
    if some.len() > 0 {
        common_words_have_no_candidates(some.drop_last(), name);
    }
    let c = candidates(some, name);
    assert(c =~= seq![]);
    reveal(Seq::filter);
}

/// What a simple name means is one of its candidates.
pub proof fn meaning_is_a_candidate(meta: Seq<(Topic, TopicMetadata)>, c: Seq<Topic>)
    ensures
        meant_by(meta, c) is Some ==> c.contains(meant_by(meta, c)->0),
{
    let f = is_no_proxy(meta);
    if c.len() == 1 {
        assert(c[0] == meant_by(meta, c)->0);
    } else if c.filter(f).len() == 1 {
        crate::sorting::lemma_picked_from(c, f, 0);
    }
}

} // verus!
