//! What the files of a project say, line by line.
use crate::domain::config::{document_of, filled_lines, has_text, is_listed, is_read_error};
use crate::domain::config::{is_white_space, name_in, trimmed, trimmed_back, trimmed_front};
use crate::domain::config::{ConfigError, ConfigFile};
use crate::domain::path::path_within;
use crate::text::{lemma_split_after, lemma_split_around, split_text};
use vstd::prelude::*;

verus! {

/// Nothing that is written is white space, and blanks, tabs and line ends are.
pub proof fn letters_are_not_white_space(c: char)
    ensures
        '!' <= c <= '~' ==> !is_white_space(c),
        c == ' ' || c == '\t' || c == '\n' || c == '\r' ==> is_white_space(c),
{
}

proof fn lemma_front(s: Seq<char>) -> (i: int)
    ensures
        0 <= i <= s.len(),
        trimmed_front(s) == s.skip(i),
        forall|k: int| 0 <= k < i ==> is_white_space(#[trigger] s[k]),
        i < s.len() ==> !is_white_space(s[i]),
    decreases s.len(),
{
    if s.len() > 0 && is_white_space(s[0]) {
        let rest = s.drop_first();
        let i = lemma_front(rest);
        assert(rest.skip(i) =~= s.skip(i + 1));
        assert forall|k: int| 0 <= k < i + 1 implies is_white_space(#[trigger] s[k]) by {
            if k > 0 {
                assert(rest[k - 1] == s[k]);
            }
        }
        if i < rest.len() {
            assert(rest[i] == s[i + 1]);
        }
        i + 1
    } else {
        assert(s.skip(0) =~= s);
        0
    }
}

proof fn lemma_back(s: Seq<char>) -> (j: int)
    ensures
        0 <= j <= s.len(),
        trimmed_back(s) == s.take(j),
        forall|k: int| j <= k < s.len() ==> is_white_space(#[trigger] s[k]),
        j > 0 ==> !is_white_space(s[j - 1]),
    decreases s.len(),
{
    let n = s.len() as int;
    if s.len() > 0 && is_white_space(s.last()) {
        let rest = s.drop_last();
        let j = lemma_back(rest);
        assert(rest.take(j) =~= s.take(j));
        assert forall|k: int| j <= k < s.len() implies is_white_space(#[trigger] s[k]) by {
            if k < n - 1 {
                assert(rest[k] == s[k]);
            }
        }
        if j > 0 {
            assert(rest[j - 1] == s[j - 1]);
        }
        j
    } else {
        assert(s.take(n) =~= s);
        n
    }
}

/// Of the text from `i` up to `j`, only white space was left out around it.
pub open spec fn is_core(s: Seq<char>, i: int, j: int) -> bool {
    &&& 0 <= i <= j <= s.len()
    &&& forall|k: int| 0 <= k < i ==> is_white_space(#[trigger] s[k])
    &&& forall|k: int| j <= k < s.len() ==> is_white_space(#[trigger] s[k])
    &&& i < j ==> !is_white_space(s[i]) && !is_white_space(s[j - 1])
}

/// Trimming takes off white space at both ends, all of it, and nothing else.
pub proof fn trimming_takes_off_white_space_alone(s: Seq<char>)
    ensures
        exists|i: int, j: int| #[trigger] is_core(s, i, j) && trimmed(s) == s.subrange(i, j),
{
    let i = lemma_front(s);
    let rest = s.skip(i);
    let j = lemma_back(rest);
    assert(forall|k: int| 0 <= k < rest.len() ==> #[trigger] rest[k] == s[i + k]);
    assert(rest.take(j) =~= s.subrange(i, i + j));
    assert forall|k: int| i + j <= k < s.len() implies is_white_space(#[trigger] s[k]) by {
        assert(rest[k - i] == s[k]);
    }
    if j > 0 {
        assert(rest[j - 1] == s[i + j - 1]);
        assert(i < s.len());
    }
    assert(is_core(s, i, i + j));
}

/// The lines of a text that count are exactly its lines without the white space around
/// them, where anything is left.
pub proof fn lines_count_where_they_hold_something(s: Seq<char>, l: Seq<char>)
    ensures
        filled_lines(s).contains(l) <==> l.len() > 0 && exists|k: int|
            0 <= k < split_text(s, '\n').len() && trimmed(#[trigger] split_text(s, '\n')[k]) == l,
{
    let all = split_text(s, '\n').map_values(|l: Seq<char>| trimmed(l));
    lemma_filtered(all, has_text(), l);
    if all.contains(l) {
        let k = choose|k: int| 0 <= k < all.len() && all[k] == l;
        assert(trimmed(split_text(s, '\n')[k]) == l);
    }
    if exists|k: int|
        0 <= k < split_text(s, '\n').len() && trimmed(#[trigger] split_text(s, '\n')[k]) == l {
        let k = choose|k: int|
            0 <= k < split_text(s, '\n').len() && trimmed(#[trigger] split_text(s, '\n')[k]) == l;
        assert(all[k] == l);
    }
}

proof fn lemma_filtered(s: Seq<Seq<char>>, f: spec_fn(Seq<char>) -> bool, y: Seq<char>)
    ensures
        s.filter(f).contains(y) <==> s.contains(y) && f(y),
    decreases s.len(),
{
    reveal(Seq::filter);
    if s.len() > 0 {
        let rest = s.drop_last();
        let n = s.len() - 1;
        lemma_filtered(rest, f, y);
        let before = rest.filter(f);
        let after = s.filter(f);
        if before.contains(y) {
            let k = choose|k: int| 0 <= k < before.len() && before[k] == y;
            assert(after[k] == y);
            let i = choose|i: int| 0 <= i < rest.len() && rest[i] == y;
            assert(s[i] == y);
        }
        if s[n] == y && f(y) {
            assert(after[before.len() as int] == y);
        }
        if after.contains(y) {
            let k = choose|k: int| 0 <= k < after.len() && after[k] == y;
            if k < before.len() {
                assert(before[k] == y);
            } else {
                assert(s[n] == y);
            }
        }
        if s.contains(y) {
            let i = choose|i: int| 0 <= i < s.len() && s[i] == y;
            if i < n {
                assert(rest[i] == y);
            }
        }
    }
}

/// What comes after the first line does not matter for the name.
pub proof fn names_are_first_lines(first: Seq<char>, more: Seq<char>)
    requires
        !first.contains('\n'),
    ensures
        name_in(first) == trimmed(first),
        name_in(first.push('\n') + more) == trimmed(first),
{
    let none = Seq::<char>::empty();
    lemma_split_after(none, first, '\n');
    assert(none + first =~= first);
    assert(split_text(none, '\n') =~= seq![none]);
    assert(split_text(first, '\n')[0] =~= first);
    lemma_split_around(first, more, '\n');
}

/// A marked line names a technical document by what follows the mark, and any other
/// line one that is not.
pub proof fn marked_lines_name_technical_documents(rest: Seq<char>, line: Seq<char>, root: Seq<char>)
    ensures
        document_of(root)("technical:"@ + rest) == (path_within(trimmed(rest), root), true),
        !"technical:"@.is_prefix_of(line) ==> document_of(root)(line) == (
            path_within(line, root),
            false,
        ),
{
    let mark = "technical:"@;
    let marked = mark + rest;
    assert(marked.take(mark.len() as int) =~= mark);
    assert(mark.is_prefix_of(marked));
    assert(marked.skip(mark.len() as int) =~= rest);
}

/// A path is in scope exactly where a line that counts leads to it.
pub proof fn files_in_scope_have_a_line(content: Seq<char>, root: Seq<char>, path: Seq<char>)
    ensures
        is_listed(content, root, path) <==> exists|l: Seq<char>| #[trigger]
            filled_lines(content).contains(l) && path_within(l, root) == path,
{
    let lines = filled_lines(content);
    if is_listed(content, root, path) {
        let i = choose|i: int|
            0 <= i < lines.len() && path_within(#[trigger] lines[i], root) == path;
        assert(lines.contains(lines[i]));
    }
    if exists|l: Seq<char>| #[trigger] lines.contains(l) && path_within(l, root) == path {
        let l = choose|l: Seq<char>| #[trigger] lines.contains(l) && path_within(l, root) == path;
        let i = choose|i: int| 0 <= i < lines.len() && lines[i] == l;
        assert(path_within(lines[i], root) == path);
    }
}

/// A missing file is reported as missing and one that could not be read with what the
/// system said, under its name. A file that was read is no error.
pub proof fn read_errors_name_the_file(read: ConfigFile, e: ConfigError, name: Seq<char>)
    requires
        is_read_error(read, e, name),
    ensures
        !(read is Text),
        e is MissingFile <==> read is Missing,
        e is Io <==> read is Unreadable,
        e is MissingFile ==> e->MissingFile_file@ == name,
        e is Io ==> e->Io_file@ == name,
        read matches ConfigFile::Unreadable(said) ==> e->source@ == said@,
{
}

} // verus!
