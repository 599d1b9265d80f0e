//! Topic identifiers and their wire form.
use crate::ordered::MapKey;
use crate::text::{append_numeral, bounded_int_of_text, numeral, numeral_denotes, parse_int};
use crate::text::Standing;
use std::str::FromStr;
use vstd::prelude::*;
use vstd::string::*;

verus! {

/// A topic identifier in the audit graph.
///
/// The wire form is one prefix character followed by a signed integer, such as
/// `S42`, `P99`, `N-100`, `D34`, `C2`, `A4` or `Y5`. The prefix determines the
/// variant.
#[derive(Debug, Clone, Copy, PartialEq, Eq, PartialOrd, Ord, Hash, Structural)]
pub enum Topic {
    Node(i32),
    Documentation(i32),
    Comment(i32),
    AdversarialProperty(i32),
    Spec(i32),
    FunctionalProperty(i32),
    TypeConstraint(i32),
}

#[derive(Debug)]
pub enum ParseTopicError {
    Empty,
    UnknownPrefix(char),
    InvalidNumericSuffix(String),
}

pub type ParseError = ParseTopicError;

/// The prefix character of a topic's variant.
pub open spec fn prefix_of(t: Topic) -> char {
    match t {
        Topic::Node(_) => 'N',
        Topic::Documentation(_) => 'D',
        Topic::Comment(_) => 'C',
        Topic::AdversarialProperty(_) => 'A',
        Topic::Spec(_) => 'S',
        Topic::FunctionalProperty(_) => 'P',
        Topic::TypeConstraint(_) => 'Y',
    }
}

/// The numeric suffix of a topic.
pub open spec fn number_of(t: Topic) -> i32 {
    match t {
        Topic::Node(id) => id,
        Topic::Documentation(id) => id,
        Topic::Comment(id) => id,
        Topic::AdversarialProperty(id) => id,
        Topic::Spec(id) => id,
        Topic::FunctionalProperty(id) => id,
        Topic::TypeConstraint(id) => id,
    }
}

/// The place of a topic's variant among the variants.
pub open spec fn variant_rank(t: Topic) -> int {
    match t {
        Topic::Node(_) => 0,
        Topic::Documentation(_) => 1,
        Topic::Comment(_) => 2,
        Topic::AdversarialProperty(_) => 3,
        Topic::Spec(_) => 4,
        Topic::FunctionalProperty(_) => 5,
        Topic::TypeConstraint(_) => 6,
    }
}

/// Topics are ordered by variant, then by number.
pub open spec fn topic_before(a: Topic, b: Topic) -> bool {
    variant_rank(a) < variant_rank(b) || (variant_rank(a) == variant_rank(b) && number_of(a)
        < number_of(b))
}

/// The wire form of a topic.
pub open spec fn topic_text(t: Topic) -> Seq<char> {
    seq![prefix_of(t)] + numeral(number_of(t) as int)
}

/// The topic with prefix `c` and number `n`.
pub open spec fn topic_with(c: char, n: i32) -> Option<Topic> {
    if c == 'N' {
        Some(Topic::Node(n))
    } else if c == 'D' {
        Some(Topic::Documentation(n))
    } else if c == 'C' {
        Some(Topic::Comment(n))
    } else if c == 'A' {
        Some(Topic::AdversarialProperty(n))
    } else if c == 'S' {
        Some(Topic::Spec(n))
    } else if c == 'P' {
        Some(Topic::FunctionalProperty(n))
    } else if c == 'Y' {
        Some(Topic::TypeConstraint(n))
    } else {
        None
    }
}

/// The number that follows the prefix of a wire form.
pub open spec fn suffix_of(s: Seq<char>) -> Option<int> {
    bounded_int_of_text(s.drop_first(), i32::MIN as int, i32::MAX as int)
}

/// The topic that a wire form denotes.
pub open spec fn topic_of_text(s: Seq<char>) -> Option<Topic> {
    if s.len() == 0 {
        None
    } else {
        match suffix_of(s) {
            Some(n) => topic_with(s[0], n as i32),
            None => None,
        }
    }
}

/// Why a wire form denotes no topic. A bad suffix counts before a bad prefix.
pub open spec fn parse_error_for(s: Seq<char>, e: ParseTopicError) -> bool {
    match e {
        ParseTopicError::Empty => s.len() == 0,
        ParseTopicError::InvalidNumericSuffix(rest) => s.len() > 0 && suffix_of(s) is None && rest@
            == s.drop_first(),
        ParseTopicError::UnknownPrefix(c) => s.len() > 0 && suffix_of(s) is Some && c == s[0]
            && topic_of_text(s) is None,
    }
}

/// The wire form of a topic denotes that topic.
pub proof fn topic_text_denotes(t: Topic)
    ensures
        topic_of_text(topic_text(t)) == Some(t),
{
    let n = number_of(t) as int;
    numeral_denotes(n);
    assert(topic_text(t).drop_first() =~= numeral(n));
}

/// Distinct topics have distinct wire forms.
pub proof fn topic_text_injective(a: Topic, b: Topic)
    requires
        topic_text(a) == topic_text(b),
    ensures
        a == b,
{
    topic_text_denotes(a);
    topic_text_denotes(b);
}

impl View for Topic {
    type V = Topic;

    open spec fn view(&self) -> Topic {
        *self
    }
}

impl MapKey for Topic {
    open spec fn before(a: Topic, b: Topic) -> bool {
        topic_before(a, b)
    }

    proof fn before_irreflexive(a: Topic) {
    }

    proof fn before_transitive(a: Topic, b: Topic, c: Topic) {
    }

    proof fn before_total(a: Topic, b: Topic) {
    }

    fn standing(&self, other: &Self) -> (r: Standing) {
        let (i, j) = (self.rank(), other.rank());
        if i < j {
            Standing::Before
        } else if j < i {
            Standing::After
        } else {
            let (m, n) = (self.numeric_id(), other.numeric_id());
            if m < n {
                Standing::Before
            } else if n < m {
                Standing::After
            } else {
                Standing::Same
            }
        }
    }
}

impl Topic {
    fn rank(&self) -> (r: u8)
        ensures
            r == variant_rank(*self),
    {
        match self {
            Topic::Node(_) => 0,
            Topic::Documentation(_) => 1,
            Topic::Comment(_) => 2,
            Topic::AdversarialProperty(_) => 3,
            Topic::Spec(_) => 4,
            Topic::FunctionalProperty(_) => 5,
            Topic::TypeConstraint(_) => 6,
        }
    }

    /// The single-character prefix identifying this topic's variant.
    pub fn prefix(&self) -> (r: char)
        ensures
            r == prefix_of(*self),
    {
        match self {
            Topic::Node(_) => 'N',
            Topic::Documentation(_) => 'D',
            Topic::Comment(_) => 'C',
            Topic::AdversarialProperty(_) => 'A',
            Topic::Spec(_) => 'S',
            Topic::FunctionalProperty(_) => 'P',
            Topic::TypeConstraint(_) => 'Y',
        }
    }

    /// The numeric suffix of this topic, regardless of variant.
    pub fn numeric_id(&self) -> (r: i32)
        ensures
            r == number_of(*self),
    {
        match self {
            Topic::Node(id) => *id,
            Topic::Documentation(id) => *id,
            Topic::Comment(id) => *id,
            Topic::AdversarialProperty(id) => *id,
            Topic::Spec(id) => *id,
            Topic::FunctionalProperty(id) => *id,
            Topic::TypeConstraint(id) => *id,
        }
    }

    /// The prefixed text form of this topic, such as `S42` or `N-100`.
    pub fn id(&self) -> (r: String)
        ensures
            r@ == topic_text(*self),
    {
        let mut out = String::new();
        out.push(self.prefix());
        append_numeral(&mut out, self.numeric_id() as i64);
        assert(out@ =~= topic_text(*self));
        out
    }
}

impl ParseTopicError {
    /// What this error says to a reader.
    pub open spec fn text(&self) -> Seq<char> {
        match self {
            ParseTopicError::Empty => "empty topic ID"@,
            ParseTopicError::UnknownPrefix(c) => "unknown topic prefix '"@.push(*c).push('\''),
            ParseTopicError::InvalidNumericSuffix(s) => ("invalid numeric suffix '"@ + s@).push(
                '\'',
            ),
        }
    }

    pub fn message(&self) -> (r: String)
        ensures
            r@ == self.text(),
    {
        match self {
            ParseTopicError::Empty => "empty topic ID".to_owned(),
            ParseTopicError::UnknownPrefix(c) => {
                let mut out = "unknown topic prefix '".to_owned();
                out.push(*c);
                out.push('\'');
                out
            },
            ParseTopicError::InvalidNumericSuffix(s) => {
                let mut out = "invalid numeric suffix '".to_owned();
                out.append(s.as_str());
                out.push('\'');
                out
            },
        }
    }
}

impl FromStr for Topic {
    type Err = ParseTopicError;

    fn from_str(s: &str) -> (r: Result<Self, ParseTopicError>)
        ensures
            match r {
                Ok(t) => topic_of_text(s@) == Some(t),
                Err(e) => topic_of_text(s@) is None && parse_error_for(s@, e),
            },
    {
        parse_topic(s)
    }
}

pub fn new_node_topic(node_id: &i32) -> (r: Topic)
    ensures
        r == Topic::Node(*node_id),
{
    Topic::Node(*node_id)
}

pub fn new_documentation_topic(doc_id: i32) -> (r: Topic)
    ensures
        r == Topic::Documentation(doc_id),
{
    Topic::Documentation(doc_id)
}

pub fn new_comment_topic(comment_id: i32) -> (r: Topic)
    ensures
        r == Topic::Comment(comment_id),
{
    Topic::Comment(comment_id)
}

pub fn new_adversarial_property_topic(id: i32) -> (r: Topic)
    ensures
        r == Topic::AdversarialProperty(id),
{
    Topic::AdversarialProperty(id)
}

/// Constructs an `S` topic, shared by features, requirements, behaviors and
/// characteristics. The kind distinction lives on the metadata of the topic.
pub fn new_spec_topic(id: i32) -> (r: Topic)
    ensures
        r == Topic::Spec(id),
{
    Topic::Spec(id)
}

pub fn new_functional_property_topic(id: i32) -> (r: Topic)
    ensures
        r == Topic::FunctionalProperty(id),
{
    Topic::FunctionalProperty(id)
}

pub fn new_type_constraint_topic(id: i32) -> (r: Topic)
    ensures
        r == Topic::TypeConstraint(id),
{
    Topic::TypeConstraint(id)
}

/// Parses a topic from its wire form.
pub fn parse_topic(s: &str) -> (r: Result<Topic, ParseTopicError>)
    ensures
        match r {
            Ok(t) => topic_of_text(s@) == Some(t),
            Err(e) => topic_of_text(s@) is None && parse_error_for(s@, e),
        },
{
    let n: usize = s.unicode_len();
    if n == 0 {
        return Err(ParseTopicError::Empty);
    }
    let prefix = s.get_char(0);
    let rest = s.substring_char(1, n);
    assert(rest@ =~= s@.drop_first());
    let id: i32 = match parse_int(rest, i32::MIN as i128, i32::MAX as i128) {
        Some(id) => id as i32,
        None => {
            return Err(ParseTopicError::InvalidNumericSuffix(rest.to_owned()));
        },
    };
    match prefix {
        'N' => Ok(Topic::Node(id)),
        'D' => Ok(Topic::Documentation(id)),
        'C' => Ok(Topic::Comment(id)),
        'A' => Ok(Topic::AdversarialProperty(id)),
        'S' => Ok(Topic::Spec(id)),
        'P' => Ok(Topic::FunctionalProperty(id)),
        'Y' => Ok(Topic::TypeConstraint(id)),
        other => Err(ParseTopicError::UnknownPrefix(other)),
    }
}

/// The topic of a well-formed wire form.
pub fn new_topic(id: &str) -> (r: Topic)
    requires
        topic_of_text(id@) is Some,
    ensures
        topic_of_text(id@) == Some(r),
{
    match parse_topic(id) {
        Ok(t) => t,
        Err(_) => {
            assert(false);
            Topic::Node(0)
        },
    }
}

/// What parsing `s` as a topic of the variant with prefix `c` gives.
pub open spec fn parsed_as(s: Seq<char>, c: char, r: Result<Topic, ParseTopicError>) -> bool {
    match r {
        Ok(t) => topic_of_text(s) == Some(t) && prefix_of(t) == c,
        Err(e) => match topic_of_text(s) {
            Some(t) => prefix_of(t) != c && e == ParseTopicError::UnknownPrefix(prefix_of(t)),
            None => parse_error_for(s, e),
        },
    }
}

fn parse_variant(s: &str, c: char) -> (r: Result<Topic, ParseTopicError>)
    ensures
        parsed_as(s@, c, r),
{
    let t = match parse_topic(s) {
        Ok(t) => t,
        Err(e) => {
            return Err(e);
        },
    };
    if t.prefix() == c {
        Ok(t)
    } else {
        Err(ParseTopicError::UnknownPrefix(t.prefix()))
    }
}

/// Parses a wire form and checks that it denotes a node topic.
pub fn parse_node_topic(s: &str) -> (r: Result<Topic, ParseTopicError>)
    ensures
        parsed_as(s@, 'N', r),
{
    parse_variant(s, 'N')
}

pub fn parse_documentation_topic(s: &str) -> (r: Result<Topic, ParseTopicError>)
    ensures
        parsed_as(s@, 'D', r),
{
    parse_variant(s, 'D')
}

pub fn parse_comment_topic(s: &str) -> (r: Result<Topic, ParseTopicError>)
    ensures
        parsed_as(s@, 'C', r),
{
    parse_variant(s, 'C')
}

pub fn parse_adversarial_property_topic(s: &str) -> (r: Result<Topic, ParseTopicError>)
    ensures
        parsed_as(s@, 'A', r),
{
    parse_variant(s, 'A')
}

pub fn parse_spec_topic(s: &str) -> (r: Result<Topic, ParseTopicError>)
    ensures
        parsed_as(s@, 'S', r),
{
    parse_variant(s, 'S')
}

pub fn parse_functional_property_topic(s: &str) -> (r: Result<Topic, ParseTopicError>)
    ensures
        parsed_as(s@, 'P', r),
{
    parse_variant(s, 'P')
}

pub fn parse_type_constraint_topic(s: &str) -> (r: Result<Topic, ParseTopicError>)
    ensures
        parsed_as(s@, 'Y', r),
{
    parse_variant(s, 'Y')
}

} // verus!
