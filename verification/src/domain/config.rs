//! The configuration files of a project: `scope.txt`, `documents.txt`, `name.txt`
//! and `security.md`.
use crate::domain::audit::PathSet;
use crate::domain::path::{new_project_path, path_within, ProjectPath};
use crate::ordered::OrderedMap;
use crate::text::{chars_of, split_on, split_text, text_eq, texts};
use vstd::prelude::*;
use vstd::string::*;

verus! {

/// Why a configuration file gave nothing.
#[derive(Debug)]
pub enum ConfigError {
    MissingFile { file: &'static str },
    /// Reading failed, with what the system said.
    Io { file: &'static str, source: String },
    Invalid { file: &'static str, reason: String },
}

impl ConfigError {
    /// What this error says to a reader.
    pub open spec fn text(&self) -> Seq<char> {
        match self {
            ConfigError::MissingFile { file } => file@ + " not found in project root"@,
            ConfigError::Io { file, source } => "failed to read "@ + file@ + ": "@ + source@,
            ConfigError::Invalid { file, reason } => file@ + ": "@ + reason@,
        }
    }

    pub fn message(&self) -> (r: String)
        ensures
            r@ == self.text(),
    {
        match self {
            ConfigError::MissingFile { file } => {
                let mut out = (*file).to_owned();
                out.append(" not found in project root");
                out
            },
            ConfigError::Io { file, source } => {
                let mut out = "failed to read ".to_owned();
                out.append(*file);
                out.append(": ");
                out.append(source.as_str());
                out
            },
            ConfigError::Invalid { file, reason } => {
                let mut out = (*file).to_owned();
                out.append(": ");
                out.append(reason.as_str());
                out
            },
        }
    }
}

/// What reading a configuration file gave.
#[derive(Debug)]
pub enum ConfigFile {
    Missing,
    /// Reading failed, with what the system said.
    Unreadable(String),
    Text(String),
}

/// A document of a project, and whether it is technical.
#[derive(Debug, Clone)]
pub struct DocumentFileEntry {
    pub project_path: ProjectPath,
    pub is_technical: bool,
}

/// Characters that are white space in Unicode.
pub open spec fn is_white_space(c: char) -> bool {
    let n = c as u32;
    ||| 0x9 <= n <= 0xd
    ||| n == 0x20
    ||| n == 0x85
    ||| n == 0xa0
    ||| n == 0x1680
    ||| 0x2000 <= n <= 0x200a
    ||| n == 0x2028
    ||| n == 0x2029
    ||| n == 0x202f
    ||| n == 0x205f
    ||| n == 0x3000
}

fn white_space(c: char) -> (r: bool)
    ensures
        r == is_white_space(c),
{
    let n: u32 = c as u32;
    (0x9 <= n && n <= 0xd) || n == 0x20 || n == 0x85 || n == 0xa0 || n == 0x1680 || (0x2000 <= n
        && n <= 0x200a) || n == 0x2028 || n == 0x2029 || n == 0x202f || n == 0x205f || n == 0x3000
}

/// The text without white space in front.
pub open spec fn trimmed_front(s: Seq<char>) -> Seq<char>
    decreases s.len(),
{
    if s.len() > 0 && is_white_space(s[0]) {
        trimmed_front(s.drop_first())
    } else {
        s
    }
}

/// The text without white space at its end.
pub open spec fn trimmed_back(s: Seq<char>) -> Seq<char>
    decreases s.len(),
{
    if s.len() > 0 && is_white_space(s.last()) {
        trimmed_back(s.drop_last())
    } else {
        s
    }
}

/// The text without white space around it.
pub open spec fn trimmed(s: Seq<char>) -> Seq<char> {
    trimmed_back(trimmed_front(s))
}

/// The text without white space around it.
pub fn trim(s: &str) -> (r: String)
    ensures
        r@ == trimmed(s@),
{
    let chars = chars_of(s);
    let n: usize = chars.len();
    let mut from: usize = 0;
    assert(s@.skip(0) =~= s@);
    while from < n && white_space(chars[from])
        invariant
            n == chars@.len(),
            chars@ == s@,
            from <= n,
            trimmed_front(s@) == trimmed_front(s@.skip(from as int)),
        decreases n - from,
    {
        assert(s@.skip(from as int).drop_first() =~= s@.skip(from + 1));
        from += 1;
    }
    let ghost rest = s@.skip(from as int);
    assert(trimmed_front(s@) == rest);
    let mut to: usize = n;
    assert(rest =~= s@.subrange(from as int, n as int));
    while to > from && white_space(chars[to - 1])
        invariant
            n == chars@.len(),
            chars@ == s@,
            from <= to <= n,
            trimmed_back(rest) == trimmed_back(s@.subrange(from as int, to as int)),
        decreases to - from,
    {
        assert(s@.subrange(from as int, to as int).drop_last() =~= s@.subrange(
            from as int,
            to - 1,
        ));
        to -= 1;
    }
    let mut out = String::new();
    for i in from..to
        invariant
            chars@ == s@,
            from <= i <= to <= s@.len(),
            out@ =~= s@.subrange(from as int, i as int),
    {
        out.push(chars[i]);
    }
    out
}

pub open spec fn has_text() -> spec_fn(Seq<char>) -> bool {
    |s: Seq<char>| s.len() > 0
}

/// The lines of a text that hold something, without white space around them.
pub open spec fn filled_lines(s: Seq<char>) -> Seq<Seq<char>> {
    split_text(s, '\n').map_values(|l: Seq<char>| trimmed(l)).filter(has_text())
}

fn list_filled_lines(s: &str) -> (r: Vec<String>)
    ensures
        texts(r@) == filled_lines(s@),
{
    let lines = split_on(s, '\n');
    let ghost all = split_text(s@, '\n').map_values(|l: Seq<char>| trimmed(l));
    let mut out: Vec<String> = Vec::new();
    assert(texts(out@) =~= all.take(0).filter(has_text())) by {
        reveal(Seq::filter);
    }
    for i in 0..lines.len()
        invariant
            lines@.len() == all.len(),
            all == split_text(s@, '\n').map_values(|l: Seq<char>| trimmed(l)),
            forall|k: int| 0 <= k < lines@.len() ==> (#[trigger] lines@[k])@ == split_text(s@, '\n')[k],
            texts(out@) == all.take(i as int).filter(has_text()),
    {
        let line = trim(lines[i].as_str());
        proof {
            assert(all.take(i + 1) =~= all.take(i as int).push(line@));
            all.take(i as int).lemma_filter_push(line@, has_text());
        }
        let ghost before = out@;
        let ghost l = line@;
        if line.as_str().unicode_len() > 0 {
            out.push(line);
            assert(texts(out@) =~= texts(before).push(l));
        }
    }
    assert(all.take(all.len() as int) =~= all);
    out
}

/// The path is that of a line.
pub open spec fn is_listed(content: Seq<char>, root: Seq<char>, path: Seq<char>) -> bool {
    exists|i: int|
        0 <= i < filled_lines(content).len() && path_within(
            #[trigger] filled_lines(content)[i],
            root,
        ) == path
}

/// The files in scope: one on each line.
pub fn load_in_scope_files(read: &ConfigFile, project_root: &str) -> (r: Result<
    PathSet,
    ConfigError,
>)
    ensures
        match read {
            ConfigFile::Text(content) => r is Ok && forall|p: Seq<char>| #[trigger]
                r->Ok_0@.dom().contains(p) == is_listed(content@, project_root@, p),
            _ => r is Err && is_read_error(*read, r->Err_0, "scope.txt"@),
        },
{
    let content = match read {
        ConfigFile::Text(content) => content,
        _ => {
            return Err(read_error(read, "scope.txt"));
        },
    };
    let lines = list_filled_lines(content.as_str());
    let ghost all = filled_lines(content@);
    let mut files: PathSet = OrderedMap::new();
    for i in 0..lines.len()
        invariant
            texts(lines@) == all,
            forall|p: Seq<char>| #[trigger]
                files@.dom().contains(p) == exists|k: int|
                    0 <= k < i && path_within(#[trigger] all[k], project_root@) == p,
    {
        let ghost before = files@;
        let path = new_project_path(&lines[i], project_root);
        let ghost p = path@;
        assert(all[i as int] == lines@[i as int]@);
        files.insert(path, ());
        assert forall|q: Seq<char>| #[trigger]
            files@.dom().contains(q) == exists|k: int|
                0 <= k < i + 1 && path_within(#[trigger] all[k], project_root@) == q by {
            if before.dom().contains(q) {
                let k = choose|k: int|
                    0 <= k < i && path_within(#[trigger] all[k], project_root@) == q;
                assert(path_within(all[k], project_root@) == q);
            }
            if q == p {
                assert(path_within(all[i as int], project_root@) == q);
            }
        }
    }
    Ok(files)
}

/// The error for a file that gave no text.
pub open spec fn is_read_error(read: ConfigFile, e: ConfigError, file_name: Seq<char>) -> bool {
    match read {
        ConfigFile::Missing => e is MissingFile && e->MissingFile_file@ == file_name,
        ConfigFile::Unreadable(said) => match e {
            ConfigError::Io { file, source } => file@ == file_name && source@ == said@,
            _ => false,
        },
        ConfigFile::Text(_) => false,
    }
}

fn read_error(read: &ConfigFile, file: &'static str) -> (r: ConfigError)
    requires
        !(read is Text),
    ensures
        is_read_error(*read, r, file@),
{
    match read {
        ConfigFile::Unreadable(said) => ConfigError::Io { file, source: said.clone() },
        _ => ConfigError::MissingFile { file },
    }
}

/// The document that a line names.
pub open spec fn document_of(root: Seq<char>) -> spec_fn(Seq<char>) -> (Seq<char>, bool) {
    |line: Seq<char>|
        if "technical:"@.is_prefix_of(line) {
            (path_within(trimmed(line.skip("technical:"@.len() as int)), root), true)
        } else {
            (path_within(line, root), false)
        }
}

pub open spec fn document_views(s: Seq<DocumentFileEntry>) -> Seq<(Seq<char>, bool)> {
    s.map_values(|d: DocumentFileEntry| (d.project_path@, d.is_technical))
}

fn document_entry(line: &String, project_root: &str) -> (r: DocumentFileEntry)
    ensures
        (r.project_path@, r.is_technical) == document_of(project_root@)(line@),
{
    proof {
        reveal_strlit("technical:");
        assert("technical:"@.len() == 10);
    }
    let s = line.as_str();
    let n: usize = s.unicode_len();
    if n >= 10 {
        let head = s.substring_char(0, 10);
        if text_eq(head, "technical:") {
            let rest = trim(s.substring_char(10, n));
            assert(line@.subrange(10, n as int) =~= line@.skip(10));
            assert("technical:"@.is_prefix_of(line@));
            return DocumentFileEntry {
                project_path: new_project_path(&rest, project_root),
                is_technical: true,
            };
        }
        assert(!"technical:"@.is_prefix_of(line@)) by {
            if "technical:"@.is_prefix_of(line@) {
                assert(line@.subrange(0, 10) =~= "technical:"@);
            }
        }
    }
    DocumentFileEntry { project_path: new_project_path(line, project_root), is_technical: false }
}

/// The documents in the order of their lines. A line that starts with
/// `technical:` names a technical document.
pub fn load_document_files(read: &ConfigFile, project_root: &str) -> (r: Result<
    Vec<DocumentFileEntry>,
    ConfigError,
>)
    ensures
        match read {
            ConfigFile::Text(content) => r is Ok && document_views(r->Ok_0@) == filled_lines(
                content@,
            ).map_values(document_of(project_root@)),
            _ => r is Err && is_read_error(*read, r->Err_0, "documents.txt"@),
        },
{
    let content = match read {
        ConfigFile::Text(content) => content,
        _ => {
            return Err(read_error(read, "documents.txt"));
        },
    };
    let lines = list_filled_lines(content.as_str());
    let ghost f = document_of(project_root@);
    let ghost all = filled_lines(content@).map_values(f);
    let mut out: Vec<DocumentFileEntry> = Vec::new();
    assert(document_views(out@) =~= all.take(0));
    for i in 0..lines.len()
        invariant
            f == document_of(project_root@),
            texts(lines@) == filled_lines(content@),
            all == filled_lines(content@).map_values(f),
            document_views(out@) == all.take(i as int),
    {
        let ghost before = out@;
        let entry = document_entry(&lines[i], project_root);
        assert(filled_lines(content@)[i as int] == lines@[i as int]@);
        let ghost e = (entry.project_path@, entry.is_technical);
        out.push(entry);
        assert(document_views(out@) =~= document_views(before).push(e));
        assert(all.take(i + 1) =~= all.take(i as int).push(e));
    }
    assert(all.take(all.len() as int) =~= all);
    Ok(out)
}

/// The name that a text gives: its first line.
pub open spec fn name_in(content: Seq<char>) -> Seq<char> {
    trimmed(split_text(content, '\n')[0])
}

/// The name of an audit: the first line of the file.
pub fn load_audit_name(read: &ConfigFile) -> (r: Result<String, ConfigError>)
    ensures
        match read {
            ConfigFile::Text(content) => match r {
                Ok(name) => name@ == name_in(content@) && name@.len() > 0,
                Err(e) => {
                    &&& name_in(content@).len() == 0
                    &&& e is Invalid
                    &&& e->Invalid_file@ == "name.txt"@
                    &&& e->reason@ == if content@.len() == 0 {
                        "file is empty"@
                    } else {
                        "first line is empty"@
                    }
                },
            },
            _ => r is Err && is_read_error(*read, r->Err_0, "name.txt"@),
        },
{
    let content = match read {
        ConfigFile::Text(content) => content,
        _ => {
            return Err(read_error(read, "name.txt"));
        },
    };
    proof {
        crate::text::lemma_split_text_nonempty(content@, '\n');
        if content@.len() == 0 {
            assert(split_text(content@, '\n')[0].len() == 0);
        }
    }
    if content.as_str().unicode_len() == 0 {
        return Err(
            ConfigError::Invalid { file: "name.txt", reason: "file is empty".to_owned() },
        );
    }
    let lines = split_on(content.as_str(), '\n');
    let name = trim(lines[0].as_str());
    if name.as_str().unicode_len() == 0 {
        return Err(
            ConfigError::Invalid { file: "name.txt", reason: "first line is empty".to_owned() },
        );
    }
    Ok(name)
}

/// The security notes, if there are any: the file is optional.
pub fn load_security_notes(read: &ConfigFile) -> (r: Result<Option<String>, ConfigError>)
    ensures
        match read {
            ConfigFile::Text(content) => match r {
                Ok(Some(notes)) => notes@ == trimmed(content@) && notes@.len() > 0,
                Ok(None) => trimmed(content@).len() == 0,
                Err(_) => false,
            },
            ConfigFile::Missing => r is Ok && r->Ok_0 is None,
            ConfigFile::Unreadable(_) => r is Err && is_read_error(
                *read,
                r->Err_0,
                "security.md"@,
            ),
        },
{
    let content = match read {
        ConfigFile::Text(content) => content,
        ConfigFile::Missing => {
            return Ok(None);
        },
        ConfigFile::Unreadable(_) => {
            return Err(read_error(read, "security.md"));
        },
    };
    let notes = trim(content.as_str());
    if notes.as_str().unicode_len() == 0 {
        Ok(None)
    } else {
        Ok(Some(notes))
    }
}

/// Trimming leaves no white space at either end, and trimming again changes
/// nothing.
pub proof fn trimming_is_idempotent(s: Seq<char>)
    ensures
        trimmed(s).len() > 0 ==> !is_white_space(trimmed(s)[0]) && !is_white_space(
            trimmed(s).last(),
        ),
        trimmed(trimmed(s)) == trimmed(s),
{
    lemma_front(s);
    lemma_back(trimmed_front(s));
}

proof fn lemma_front(s: Seq<char>)
    ensures
        trimmed_front(s).len() > 0 ==> !is_white_space(trimmed_front(s)[0]),
    decreases s.len(),
{
    if s.len() > 0 && is_white_space(s[0]) {
        lemma_front(s.drop_first());
    }
}

proof fn lemma_back(s: Seq<char>)
    ensures
        trimmed_back(s).len() > 0 ==> !is_white_space(trimmed_back(s).last()),
        trimmed_back(s).len() > 0 ==> trimmed_back(s)[0] == s[0],
    decreases s.len(),
{
    if s.len() > 0 && is_white_space(s.last()) {
        lemma_back(s.drop_last());
    }
}

} // verus!
