//! Wire forms and what they mean.
use crate::domain::topic::{parse_error_for, parsed_as, prefix_of, topic_before, topic_of_text};
use crate::domain::topic::{topic_text, ParseTopicError, Topic};
use crate::solidity::ast::location_of_text;
use crate::text::{int_of_text, joined_text, lemma_digits_denote, numeral, numeral_denotes};
use crate::text::splitting_undoes_joining;
use vstd::prelude::*;

verus! {

/// A wire form is a letter for the family and the number within it, and so is read: the
/// letter decides the family, whatever the number.
pub proof fn letters_decide_the_family(c: char, n: i32)
    ensures
        ({
            let r = topic_of_text(seq![c] + numeral(n as int));
            &&& c == 'N' ==> r == Some(Topic::Node(n))
            &&& c == 'D' ==> r == Some(Topic::Documentation(n))
            &&& c == 'C' ==> r == Some(Topic::Comment(n))
            &&& c == 'A' ==> r == Some(Topic::AdversarialProperty(n))
            &&& c == 'S' ==> r == Some(Topic::Spec(n))
            &&& c == 'P' ==> r == Some(Topic::FunctionalProperty(n))
            &&& c == 'Y' ==> r == Some(Topic::TypeConstraint(n))
            &&& r is Some ==> c == 'N' || c == 'D' || c == 'C' || c == 'A' || c == 'S' || c == 'P'
                || c == 'Y'
        }),
{
    let s = seq![c] + numeral(n as int);
    numeral_denotes(n as int);
    assert(s.drop_first() =~= numeral(n as int));
    assert(s[0] == c);
}

/// Within a family, topics stand in the order of their numbers, and between families in
/// one order: the sources, documentation, comments, adversarial properties, the
/// specification, functional properties and type constraints.
pub proof fn topics_stand_by_family_and_number(m: i32, n: i32)
    ensures
        topic_before(Topic::Node(m), Topic::Node(n)) <==> m < n,
        topic_before(Topic::Documentation(m), Topic::Documentation(n)) <==> m < n,
        topic_before(Topic::Comment(m), Topic::Comment(n)) <==> m < n,
        topic_before(Topic::AdversarialProperty(m), Topic::AdversarialProperty(n)) <==> m < n,
        topic_before(Topic::Spec(m), Topic::Spec(n)) <==> m < n,
        topic_before(Topic::FunctionalProperty(m), Topic::FunctionalProperty(n)) <==> m < n,
        topic_before(Topic::TypeConstraint(m), Topic::TypeConstraint(n)) <==> m < n,
        topic_before(Topic::Node(m), Topic::Documentation(n)),
        topic_before(Topic::Documentation(m), Topic::Comment(n)),
        topic_before(Topic::Comment(m), Topic::AdversarialProperty(n)),
        topic_before(Topic::AdversarialProperty(m), Topic::Spec(n)),
        topic_before(Topic::Spec(m), Topic::FunctionalProperty(n)),
        topic_before(Topic::FunctionalProperty(m), Topic::TypeConstraint(n)),
{
}

/// A topic of a family is read exactly from the wire forms of that family. From a wire
/// form of another one, the letter is the fault.
pub proof fn families_are_told_apart(t: Topic, c: char, r: Result<Topic, ParseTopicError>)
    requires
        parsed_as(topic_text(t), c, r),
    ensures
        prefix_of(t) == c ==> r == Ok::<Topic, ParseTopicError>(t),
        prefix_of(t) != c ==> r == Err::<Topic, ParseTopicError>(
            ParseTopicError::UnknownPrefix(prefix_of(t)),
        ),
{
    crate::domain::topic::topic_text_denotes(t);
}

/// What is at fault in a text that denotes no topic: that it is empty, or else what
/// follows the first letter, or else that letter. Nothing is at fault in a wire form.
pub proof fn faults_are_told_apart(s: Seq<char>, e: ParseTopicError)
    requires
        parse_error_for(s, e),
    ensures
        topic_of_text(s) is None,
        e is Empty <==> s.len() == 0,
        e matches ParseTopicError::UnknownPrefix(c) ==> s[0] == c,
        e matches ParseTopicError::InvalidNumericSuffix(rest) ==> rest@ == s.drop_first(),
        s.len() > 0 && int_of_text(s.drop_first()) is None ==> e is InvalidNumericSuffix,
        s.len() > 0 && int_of_text(s.drop_first()) is Some && i32::MIN <= int_of_text(
            s.drop_first(),
        )->0 <= i32::MAX ==> e is UnknownPrefix,
{
}

proof fn lemma_no_colon(n: int)
    ensures
        !numeral(n).contains(':'),
{
    let d = if n < 0 {
        (-n) as nat
    } else {
        n as nat
    };
    lemma_digits_denote(d);
    if numeral(n).contains(':') {
        let i = choose|i: int| 0 <= i < numeral(n).len() && numeral(n)[i] == ':';
        if n < 0 {
            if i > 0 {
                assert(crate::text::digits(d)[i - 1] == ':');
            }
        } else {
            assert(crate::text::digits(d)[i] == ':');
        }
    }
}

/// A location that was written as start, length and file is read as these. One below
/// zero is unknown.
pub proof fn locations_are_read_as_written(start: int, length: int, index: int)
    requires
        isize::MIN <= start <= isize::MAX,
        isize::MIN <= length <= isize::MAX,
        isize::MIN <= index <= isize::MAX,
    ensures
        ({
            let r = location_of_text(
                joined_text(seq![numeral(start), numeral(length), numeral(index)], ':'),
            );
            &&& r is Some
            &&& (r->0).start == if start < 0 {
                None
            } else {
                Some(start as usize)
            }
            &&& (r->0).length == if length < 0 {
                None
            } else {
                Some(length as usize)
            }
            &&& (r->0).index == if index < 0 {
                None
            } else {
                Some(index as usize)
            }
        }),
{
    let parts = seq![numeral(start), numeral(length), numeral(index)];
    lemma_no_colon(start);
    lemma_no_colon(length);
    lemma_no_colon(index);
    assert forall|i: int| 0 <= i < parts.len() implies !(#[trigger] parts[i]).contains(':') by {
        assert(i == 0 || i == 1 || i == 2);
    }
    splitting_undoes_joining(parts, ':');
    numeral_denotes(start);
    numeral_denotes(length);
    numeral_denotes(index);
    assert(parts[0] == numeral(start) && parts[1] == numeral(length) && parts[2] == numeral(index));
}

} // verus!
