//! Paths relative to the project root.
use crate::ordered::MapKey;
use crate::text::{join_with, joined_text, lemma_parts_without_separator, lemma_split_around};
use crate::text::{lemma_split_text_nonempty, split_on, split_text, splitting_undoes_joining};
use crate::text::{text_before, text_before_irreflexive, text_before_total};
use crate::text::{text_before_transitive, text_eq, text_order, texts, Standing};
use vstd::prelude::*;
use vstd::string::*;

verus! {

/// A path within a project, relative to the project root.
#[derive(Debug, Clone, PartialEq, Eq, Hash, PartialOrd, Ord)]
pub struct ProjectPath {
    pub file_path: String,
}

impl View for ProjectPath {
    type V = Seq<char>;

    open spec fn view(&self) -> Seq<char> {
        self.file_path@
    }
}

impl MapKey for ProjectPath {
    open spec fn before(a: Seq<char>, b: Seq<char>) -> bool {
        text_before(a, b)
    }

    proof fn before_irreflexive(a: Seq<char>) {
        text_before_irreflexive(a);
    }

    proof fn before_transitive(a: Seq<char>, b: Seq<char>, c: Seq<char>) {
        text_before_transitive(a, b, c);
    }

    proof fn before_total(a: Seq<char>, b: Seq<char>) {
        text_before_total(a, b);
    }

    fn standing(&self, other: &Self) -> (r: Standing) {
        text_order(self.file_path.as_str(), other.file_path.as_str())
    }
}

impl ProjectPath {
    /// The same path.
    pub fn copy(&self) -> (r: ProjectPath)
        ensures
            r@ == self@,
    {
        ProjectPath { file_path: self.file_path.clone() }
    }
}

/// The part that stands for the root of all paths.
pub open spec fn root_part() -> Seq<char> {
    seq!['/']
}

/// The part that stands for the directory itself.
pub open spec fn current_part() -> Seq<char> {
    seq!['.']
}

/// The part that stands for the directory above.
pub open spec fn parent_part() -> Seq<char> {
    seq!['.', '.']
}

pub open spec fn is_absolute(s: Seq<char>) -> bool {
    s.len() > 0 && s[0] == '/'
}

/// Pieces between separators that count: neither empty nor the directory itself.
pub open spec fn counts() -> spec_fn(Seq<char>) -> bool {
    |p: Seq<char>| p.len() > 0 && p != current_part()
}

/// The parts of a path: the root, if it starts there, and what stands between the
/// separators. The directory itself counts only at the start of a relative path.
pub open spec fn path_parts(s: Seq<char>) -> Seq<Seq<char>> {
    let pieces = split_text(s, '/');
    let start = if is_absolute(s) {
        seq![root_part()]
    } else if pieces[0] == current_part() {
        seq![current_part()]
    } else {
        seq![]
    };
    start + pieces.filter(counts())
}

/// The parts without detours through the directory itself or the one above.
pub open spec fn normalized(parts: Seq<Seq<char>>) -> Seq<Seq<char>>
    decreases parts.len(),
{
    if parts.len() == 0 {
        parts
    } else {
        let rest = normalized(parts.drop_last());
        let p = parts.last();
        if p == current_part() {
            rest
        } else if p == parent_part() {
            if rest.len() == 0 {
                rest
            } else {
                rest.drop_last()
            }
        } else {
            rest.push(p)
        }
    }
}

/// The text of a path with these parts.
pub open spec fn path_text(parts: Seq<Seq<char>>) -> Seq<char> {
    if parts.len() > 0 && parts[0] == root_part() {
        root_part() + joined_text(parts.skip(1), '/')
    } else {
        joined_text(parts, '/')
    }
}

/// The parts below the root of all paths. Relative paths are taken to start there.
pub open spec fn names_of(parts: Seq<Seq<char>>) -> Seq<Seq<char>> {
    if parts.len() > 0 && parts[0] == root_part() {
        parts.skip(1)
    } else {
        parts
    }
}

/// How many parts two paths have in common, from the start on.
pub open spec fn shared(a: Seq<Seq<char>>, b: Seq<Seq<char>>) -> int
    decreases a.len(),
{
    if a.len() > 0 && b.len() > 0 && a[0] == b[0] {
        1 + shared(a.skip(1), b.skip(1))
    } else {
        0
    }
}

/// That many steps to the directory above.
pub open spec fn steps_up(n: int) -> Seq<Seq<char>> {
    Seq::new(n as nat, |i: int| parent_part())
}

/// The way from one directory to a place: up to what they have in common, and
/// down from there.
pub open spec fn way(from: Seq<Seq<char>>, to: Seq<Seq<char>>) -> Seq<Seq<char>> {
    steps_up(from.len() - shared(from, to)) + to.skip(shared(from, to))
}

/// The parts of a file of a project, from the root of all paths on.
pub open spec fn full_parts(file: Seq<char>, root: Seq<char>) -> Seq<Seq<char>> {
    normalized(
        if is_absolute(file) {
            path_parts(file)
        } else {
            path_parts(root) + path_parts(file)
        },
    )
}

/// The path of a file within a project: the way from the project root to the file.
pub open spec fn path_within(file: Seq<char>, root: Seq<char>) -> Seq<char> {
    joined_text(way(names_of(normalized(path_parts(root))), names_of(full_parts(file, root))), '/')
}

/// The path that a path within a project stands for.
pub open spec fn path_below(path: Seq<char>, root: Seq<char>) -> Seq<char> {
    if is_absolute(path) {
        path
    } else if root.len() > 0 && root.last() != '/' {
        root.push('/') + path
    } else {
        root + path
    }
}

fn split_path(s: &str) -> (r: Vec<String>)
    ensures
        texts(r@) == path_parts(s@),
{
    let pieces = split_on(s, '/');
    let ghost all = split_text(s@, '/');
    proof {
        lemma_split_text_nonempty(s@, '/');
        reveal_strlit(".");
        assert("."@ =~= current_part());
        reveal_strlit("/");
        assert("/"@ =~= root_part());
    }
    let mut out: Vec<String> = Vec::new();
    let absolute = s.unicode_len() > 0 && s.get_char(0) == '/';
    if absolute {
        out.push("/".to_owned());
        assert(texts(out@) =~= seq![root_part()]);
    } else if text_eq(pieces[0].as_str(), ".") {
        out.push(".".to_owned());
        assert(texts(out@) =~= seq![current_part()]);
    } else {
        assert(texts(out@) =~= seq![]);
    }
    let ghost start = texts(out@);
    assert(start + all.take(0).filter(counts()) =~= start) by {
        reveal(Seq::filter);
    }
    for i in 0..pieces.len()
        invariant
            pieces@.len() == all.len(),
            "."@ == current_part(),
            forall|k: int| 0 <= k < pieces@.len() ==> (#[trigger] pieces@[k])@ == all[k],
            texts(out@) == start + all.take(i as int).filter(counts()),
    {
        let p = &pieces[i];
        proof {
            assert(all.take(i + 1) =~= all.take(i as int).push(p@));
            all.take(i as int).lemma_filter_push(p@, counts());
        }
        let ghost before = out@;
        if p.as_str().unicode_len() > 0 && !text_eq(p.as_str(), ".") {
            out.push(p.clone());
            assert(texts(out@) =~= texts(before).push(p@));
            assert(texts(out@) =~= start + all.take(i + 1).filter(counts()));
        }
    }
    assert(all.take(all.len() as int) =~= all);
    out
}

/// The parts without detours through the directory itself or the one above.
fn normalize_path(parts: &Vec<String>) -> (r: Vec<String>)
    ensures
        texts(r@) == normalized(texts(parts@)),
{
    let ghost all = texts(parts@);
    proof {
        reveal_strlit(".");
        assert("."@ =~= current_part());
        reveal_strlit("..");
        assert(".."@ =~= parent_part());
    }
    let mut out: Vec<String> = Vec::new();
    assert(texts(out@) =~= normalized(all.take(0)));
    for i in 0..parts.len()
        invariant
            all == texts(parts@),
            "."@ == current_part(),
            ".."@ == parent_part(),
            texts(out@) == normalized(all.take(i as int)),
    {
        let p = &parts[i];
        assert(all.take(i + 1).drop_last() =~= all.take(i as int));
        assert(all.take(i + 1).last() == p@);
        let ghost before = out@;
        if text_eq(p.as_str(), ".") {
        } else if text_eq(p.as_str(), "..") {
            if out.len() > 0 {
                let _ = out.pop();
                assert(texts(out@) =~= texts(before).drop_last());
            }
        } else {
            out.push(p.clone());
            assert(texts(out@) =~= texts(before).push(p@));
        }
    }
    assert(all.take(all.len() as int) =~= all);
    out
}

/// How many parts of a path stand for the root: one or none.
fn root_parts(parts: &Vec<String>) -> (r: usize)
    ensures
        r <= parts@.len(),
        texts(parts@).skip(r as int) == names_of(texts(parts@)),
{
    proof {
        reveal_strlit("/");
        assert("/"@ =~= root_part());
        assert(texts(parts@).skip(0) =~= texts(parts@));
    }
    if parts.len() > 0 && text_eq(parts[0].as_str(), "/") {
        assert(texts(parts@)[0] == root_part());
        1
    } else {
        assert(parts@.len() > 0 ==> texts(parts@)[0] == parts@[0]@);
        0
    }
}

/// The way from one directory to a place.
fn find_way(from: &Vec<String>, to: &Vec<String>) -> (r: Vec<String>)
    ensures
        texts(r@) == way(names_of(texts(from@)), names_of(texts(to@))),
{
    let i: usize = root_parts(from);
    let j: usize = root_parts(to);
    let ghost a = names_of(texts(from@));
    let ghost b = names_of(texts(to@));
    let above: usize = from.len();
    let below: usize = to.len();
    let n: usize = above - i;
    let m: usize = below - j;
    let mut c: usize = 0;
    assert(a.skip(0) =~= a && b.skip(0) =~= b);
    while c < n && c < m && text_eq(from[i + c].as_str(), to[j + c].as_str())
        invariant
            i <= above,
            j <= below,
            above == from@.len(),
            below == to@.len(),
            n == above - i,
            m == below - j,
            a == texts(from@).skip(i as int),
            b == texts(to@).skip(j as int),
            c <= n,
            c <= m,
            shared(a, b) == c + shared(a.skip(c as int), b.skip(c as int)),
        decreases n - c,
    {
        proof {
            let x = a.skip(c as int);
            let y = b.skip(c as int);
            assert(x[0] == from@[i + c]@);
            assert(y[0] == to@[j + c]@);
            assert(x.skip(1) =~= a.skip(c + 1));
            assert(y.skip(1) =~= b.skip(c + 1));
        }
        c += 1;
    }
    proof {
        let x = a.skip(c as int);
        let y = b.skip(c as int);
        if c < n && c < m {
            assert(x[0] == from@[i + c]@);
            assert(y[0] == to@[j + c]@);
        }
        assert(shared(a, b) == c);
        reveal_strlit("..");
        assert(".."@ =~= parent_part());
    }
    let mut out: Vec<String> = Vec::new();
    assert(texts(out@) =~= steps_up(0));
    for k in c..n
        invariant
            ".."@ == parent_part(),
            c <= n,
            texts(out@) == steps_up(k - c),
    {
        let ghost before = out@;
        out.push("..".to_owned());
        assert(texts(out@) =~= texts(before).push(parent_part()));
        assert(texts(out@) =~= steps_up(k + 1 - c));
    }
    let ghost up = texts(out@);
    let ghost down = b.skip(c as int);
    assert(texts(out@) =~= up + down.take(0));
    for k in c..m
        invariant
            c <= m,
            j <= below,
            below == to@.len(),
            m == below - j,
            b == texts(to@).skip(j as int),
            down == b.skip(c as int),
            texts(out@) == up + down.take(k - c),
    {
        let ghost before = out@;
        out.push(to[j + k].clone());
        assert(down[k - c] == to@[j + k]@);
        assert(texts(out@) =~= texts(before).push(to@[j + k]@));
        assert(texts(out@) =~= up + down.take(k + 1 - c));
    }
    assert(down.take(down.len() as int) =~= down);
    out
}

/// The path of a file within a project, relative to the project root.
pub fn new_project_path(file_path: &String, project_root: &str) -> (r: ProjectPath)
    ensures
        r@ == path_within(file_path@, project_root@),
        !is_absolute(r@),
{
    new_project_path_from_path(file_path.as_str(), project_root)
}

/// The path of a file within a project, relative to the project root.
pub fn new_project_path_from_path(file_path: &str, project_root: &str) -> (r: ProjectPath)
    ensures
        r@ == path_within(file_path@, project_root@),
        !is_absolute(r@),
{
    let top = split_path(project_root);
    let file = split_path(file_path);
    let absolute = file_path.unicode_len() > 0 && file_path.get_char(0) == '/';
    let all = if absolute {
        file
    } else {
        let mut all = split_path(project_root);
        let ghost t = texts(all@);
        assert(t + texts(file@).take(0) =~= t);
        for i in 0..file.len()
            invariant
                texts(all@) == t + texts(file@).take(i as int),
        {
            let ghost before = all@;
            all.push(file[i].clone());
            assert(texts(all@) =~= texts(before).push(file@[i as int]@));
            assert(texts(file@).take(i + 1) =~= texts(file@).take(i as int).push(
                file@[i as int]@,
            ));
            assert(texts(all@) =~= t + texts(file@).take(i + 1));
        }
        assert(texts(file@).take(file@.len() as int) =~= texts(file@));
        all
    };
    let clean = normalize_path(&all);
    let parts = find_way(&normalize_path(&top), &clean);
    proof {
        paths_within_are_relative(file_path@, project_root@);
    }
    ProjectPath { file_path: join_with(&parts, '/') }
}

/// The path that a path within a project stands for.
pub fn project_path_to_absolute_path(project_path: &ProjectPath, project_root: &str) -> (r: String)
    ensures
        r@ == path_below(project_path@, project_root@),
{
    let path = project_path.file_path.as_str();
    if path.unicode_len() > 0 && path.get_char(0) == '/' {
        return project_path.file_path.clone();
    }
    let mut out = project_root.to_owned();
    let n: usize = project_root.unicode_len();
    if n > 0 && project_root.get_char(n - 1) != '/' {
        out.push('/');
    }
    out.append(path);
    out
}

/// A part that is the name of a file or a directory.
pub open spec fn is_name(p: Seq<char>) -> bool {
    p.len() > 0 && !p.contains('/') && p != current_part() && p != parent_part()
}

/// Parts without detours: names, after the root at most.
pub open spec fn is_clean(parts: Seq<Seq<char>>) -> bool {
    forall|i: int|
        0 <= i < parts.len() ==> is_name(#[trigger] parts[i]) || (i == 0 && parts[i]
            == root_part())
}

proof fn lemma_root_is_no_name()
    ensures
        !is_name(root_part()),
        root_part() != current_part(),
        root_part() != parent_part(),
{
    assert(root_part()[0] == '/');
    assert(root_part().contains('/'));
    assert(current_part()[0] == '.');
    assert(root_part().len() == 1 && parent_part().len() == 2);
}

/// What can stand between separators.
pub open spec fn is_piece(p: Seq<char>) -> bool {
    p.len() > 0 && !p.contains('/')
}

/// The pieces of a path: neither empty nor the directory itself.
pub open spec fn pieces_of(s: Seq<char>) -> Seq<Seq<char>> {
    split_text(s, '/').filter(counts())
}

proof fn lemma_pieces(s: Seq<char>)
    ensures
        forall|i: int|
            0 <= i < pieces_of(s).len() ==> is_piece(#[trigger] pieces_of(s)[i]) && pieces_of(s)[i]
                != current_part(),
{
    let all = split_text(s, '/');
    lemma_parts_without_separator(s, '/');
    assert forall|i: int| 0 <= i < pieces_of(s).len() implies is_piece(#[trigger] pieces_of(s)[i])
        && pieces_of(s)[i] != current_part() by {
        lemma_filtered(all, counts(), i);
        let k = choose|k: int| 0 <= k < all.len() && all[k] == pieces_of(s)[i];
        assert(!all[k].contains('/'));
    }
}

proof fn lemma_filtered<A>(s: Seq<A>, p: spec_fn(A) -> bool, i: int)
    requires
        0 <= i < s.filter(p).len(),
    ensures
        p(s.filter(p)[i]),
        exists|k: int| 0 <= k < s.len() && s[k] == s.filter(p)[i],
    decreases s.len(),
{
    reveal(Seq::filter);
    if s.len() > 0 {
        let t = s.drop_last();
        if i < t.filter(p).len() {
            lemma_filtered(t, p, i);
            let k = choose|k: int| 0 <= k < t.len() && t[k] == t.filter(p)[i];
            assert(s[k] == s.filter(p)[i]);
        } else {
            assert(s[s.len() - 1] == s.filter(p)[i]);
        }
    }
}

/// Pieces, after the root at most.
pub open spec fn are_pieces(parts: Seq<Seq<char>>) -> bool {
    forall|i: int|
        0 <= i < parts.len() ==> is_piece(#[trigger] parts[i]) || (i == 0 && parts[i]
            == root_part())
}

proof fn lemma_path_parts(s: Seq<char>)
    ensures
        are_pieces(path_parts(s)),
        !is_absolute(s) ==> forall|i: int|
            0 <= i < path_parts(s).len() ==> is_piece(#[trigger] path_parts(s)[i]),
{
    lemma_pieces(s);
    lemma_root_is_no_name();
    let parts = path_parts(s);
    let k = parts.len() - pieces_of(s).len();
    assert(is_piece(current_part())) by {
        assert(current_part().len() == 1 && current_part()[0] == '.');
    }
    assert forall|i: int| 0 <= i < parts.len() implies is_piece(#[trigger] parts[i]) || (i == 0
        && parts[i] == root_part() && is_absolute(s)) by {
        if i >= k {
            assert(parts[i] == pieces_of(s)[i - k]);
        }
    }
}

proof fn lemma_normalized_clean(parts: Seq<Seq<char>>)
    requires
        are_pieces(parts),
    ensures
        is_clean(normalized(parts)),
        normalized(parts).len() <= parts.len(),
    decreases parts.len(),
{
    if parts.len() > 0 {
        let front = parts.drop_last();
        assert forall|i: int| 0 <= i < front.len() implies is_piece(#[trigger] front[i]) || (i == 0
            && front[i] == root_part()) by {
            assert(front[i] == parts[i]);
        }
        lemma_normalized_clean(front);
        let rest = normalized(front);
        let p = parts[parts.len() - 1];
        let r = normalized(parts);
        assert forall|i: int| 0 <= i < r.len() implies is_name(#[trigger] r[i]) || (i == 0 && r[i]
            == root_part()) by {
            if i < rest.len() {
                assert(r[i] == rest[i]);
            } else {
                assert(r[i] == p);
            }
        }
    }
}

proof fn lemma_full_parts(file: Seq<char>, root: Seq<char>)
    ensures
        is_clean(full_parts(file, root)),
        is_clean(normalized(path_parts(root))),
{
    lemma_path_parts(file);
    lemma_path_parts(root);
    lemma_normalized_clean(path_parts(root));
    if is_absolute(file) {
        lemma_normalized_clean(path_parts(file));
    } else {
        let all = path_parts(root) + path_parts(file);
        assert forall|i: int| 0 <= i < all.len() implies is_piece(#[trigger] all[i]) || (i == 0
            && all[i] == root_part()) by {
            if i < path_parts(root).len() {
                assert(all[i] == path_parts(root)[i]);
            } else {
                assert(all[i] == path_parts(file)[i - path_parts(root).len()]);
            }
        }
        lemma_normalized_clean(all);
    }
}

proof fn lemma_names(parts: Seq<Seq<char>>)
    requires
        is_clean(parts),
    ensures
        forall|i: int| 0 <= i < names_of(parts).len() ==> is_name(#[trigger] names_of(parts)[i]),
{
    let names = names_of(parts);
    lemma_root_is_no_name();
    assert forall|i: int| 0 <= i < names.len() implies is_name(#[trigger] names[i]) by {
        if parts[0] == root_part() {
            assert(names[i] == parts[i + 1]);
        } else {
            assert(names[i] == parts[i]);
        }
    }
}

proof fn lemma_shared(a: Seq<Seq<char>>, b: Seq<Seq<char>>)
    ensures
        0 <= shared(a, b) <= a.len(),
        shared(a, b) <= b.len(),
        a.take(shared(a, b)) == b.take(shared(a, b)),
    decreases a.len(),
{
    if a.len() > 0 && b.len() > 0 && a[0] == b[0] {
        let x = a.skip(1);
        let y = b.skip(1);
        lemma_shared(x, y);
        let c = shared(x, y);
        assert forall|i: int| 0 <= i < c + 1 implies a[i] == b[i] by {
            if i > 0 {
                assert(x.take(c)[i - 1] == y.take(c)[i - 1]);
                assert(a[i] == x[i - 1] && b[i] == y[i - 1]);
            }
        }
        assert(a.take(c + 1) =~= b.take(c + 1));
    } else {
        assert(a.take(0) =~= b.take(0));
    }
}

/// A step up or a name.
pub open spec fn is_step(p: Seq<char>) -> bool {
    is_name(p) || p == parent_part()
}

proof fn lemma_way(from: Seq<Seq<char>>, to: Seq<Seq<char>>)
    requires
        forall|i: int| 0 <= i < to.len() ==> is_name(#[trigger] to[i]),
    ensures
        forall|i: int| 0 <= i < way(from, to).len() ==> is_step(#[trigger] way(from, to)[i]),
{
    lemma_shared(from, to);
    let c = shared(from, to);
    let w = way(from, to);
    let k = from.len() - c;
    assert forall|i: int| 0 <= i < w.len() implies is_step(#[trigger] w[i]) by {
        if i >= k {
            assert(w[i] == to[c + (i - k)]);
        }
    }
}

/// A path within a project is relative.
pub proof fn paths_within_are_relative(file: Seq<char>, root: Seq<char>)
    ensures
        !is_absolute(path_within(file, root)),
        pieces_of(path_within(file, root)) == way(
            names_of(normalized(path_parts(root))),
            names_of(full_parts(file, root)),
        ),
        path_parts(path_within(file, root)) == pieces_of(path_within(file, root)),
{
    lemma_full_parts(file, root);
    lemma_names(full_parts(file, root));
    let a = names_of(normalized(path_parts(root)));
    let b = names_of(full_parts(file, root));
    lemma_way(a, b);
    lemma_steps_text(way(a, b));
}

/// The text of steps has these steps as its parts.
proof fn lemma_steps_text(steps: Seq<Seq<char>>)
    requires
        forall|i: int| 0 <= i < steps.len() ==> is_step(#[trigger] steps[i]),
    ensures
        !is_absolute(joined_text(steps, '/')),
        pieces_of(joined_text(steps, '/')) == steps,
        path_parts(joined_text(steps, '/')) == steps,
{
    let s = joined_text(steps, '/');
    assert(parent_part().len() == 2 && current_part().len() == 1);
    assert(!parent_part().contains('/'));
    if steps.len() == 0 {
        let e = Seq::<char>::empty();
        assert(s =~= e);
        assert(split_text(e, '/') =~= seq![e]);
        assert forall|i: int| 0 <= i < seq![e].len() implies !#[trigger] counts()(seq![e][i]) by {}
        seq![e].lemma_all_neg_filter_empty(counts());
        assert(pieces_of(s) =~= steps);
        assert(path_parts(s) =~= steps);
    } else {
        assert forall|i: int| 0 <= i < steps.len() implies !(#[trigger] steps[i]).contains('/') by {
            assert(is_step(steps[i]));
        }
        splitting_undoes_joining(steps, '/');
        lemma_all_count(steps);
        assert(is_step(steps[0]));
        lemma_joined_starts(steps);
        assert(s[0] != '/') by {
            if s[0] == '/' {
                assert(steps[0][0] == '/');
                assert(steps[0].contains('/'));
            }
        }
        assert(path_parts(s) =~= steps);
    }
}

/// Parts without detours stay as they are.
pub proof fn clean_parts_are_normalized(parts: Seq<Seq<char>>)
    requires
        is_clean(parts),
    ensures
        normalized(parts) == parts,
    decreases parts.len(),
{
    if parts.len() > 0 {
        let rest = parts.drop_last();
        assert(forall|i: int| 0 <= i < rest.len() ==> #[trigger] rest[i] == parts[i]);
        clean_parts_are_normalized(rest);
        lemma_root_is_no_name();
        assert(parts[parts.len() - 1] == parts.last());
        assert(rest.push(parts.last()) =~= parts);
    }
}

proof fn lemma_all_count(s: Seq<Seq<char>>)
    requires
        forall|i: int| 0 <= i < s.len() ==> is_step(#[trigger] s[i]),
    ensures
        s.filter(counts()) == s,
    decreases s.len(),
{
    reveal(Seq::filter);
    if s.len() > 0 {
        let t = s.drop_last();
        assert(forall|i: int| 0 <= i < t.len() ==> #[trigger] t[i] == s[i]);
        lemma_all_count(t);
        assert(is_step(s[s.len() - 1]));
        assert(parent_part().len() == 2 && current_part().len() == 1);
        assert(t.push(s.last()) =~= s);
    } else {
        assert(s.filter(counts()) =~= s);
    }
}

proof fn lemma_joined_starts(s: Seq<Seq<char>>)
    requires
        s.len() > 0,
        s[0].len() > 0,
    ensures
        joined_text(s, '/').len() > 0,
        joined_text(s, '/')[0] == s[0][0],
    decreases s.len(),
{
    if s.len() > 1 {
        lemma_joined_starts(s.drop_last());
    }
}

proof fn lemma_absolute_parts(rest: Seq<Seq<char>>)
    requires
        forall|i: int| 0 <= i < rest.len() ==> is_name(#[trigger] rest[i]),
    ensures
        path_parts(root_part() + joined_text(rest, '/')) == seq![root_part()] + rest,
{
    let e = Seq::<char>::empty();
    let s = root_part() + joined_text(rest, '/');
    let pieces = if rest.len() == 0 {
        seq![e]
    } else {
        rest
    };
    let padded = seq![e] + pieces;
    assert(joined_text(pieces, '/') =~= joined_text(rest, '/'));
    lemma_joined_padded(pieces);
    assert forall|i: int| 0 <= i < padded.len() implies !(#[trigger] padded[i]).contains('/') by {
        if i > 0 && rest.len() > 0 {
            assert(padded[i] == rest[i - 1]);
            assert(is_name(rest[i - 1]));
        }
    }
    splitting_undoes_joining(padded, '/');
    Seq::filter_distributes_over_add(seq![e], pieces, counts());
    assert(seq![e].filter(counts()) == Seq::<Seq<char>>::empty()) by {
        assert forall|i: int| 0 <= i < seq![e].len() implies !#[trigger] counts()(seq![e][i]) by {}
        seq![e].lemma_all_neg_filter_empty(counts());
        assert(seq![e].filter(counts()) =~= Seq::<Seq<char>>::empty());
    }
    if rest.len() == 0 {
        assert(pieces.filter(counts()) =~= rest);
    } else {
        lemma_all_count(rest);
    }
    assert(padded.filter(counts()) =~= rest);
    assert(s[0] == '/');
}

proof fn lemma_relative_parts(parts: Seq<Seq<char>>)
    requires
        parts.len() > 0,
        forall|i: int| 0 <= i < parts.len() ==> is_name(#[trigger] parts[i]),
    ensures
        path_parts(joined_text(parts, '/')) == parts,
        !is_absolute(joined_text(parts, '/')),
{
    let s = joined_text(parts, '/');
    assert forall|i: int| 0 <= i < parts.len() implies !(#[trigger] parts[i]).contains('/') by {
        assert(is_name(parts[i]));
    }
    splitting_undoes_joining(parts, '/');
    lemma_all_count(parts);
    assert(is_name(parts[0]));
    lemma_joined_starts(parts);
    assert(s[0] != '/') by {
        if s[0] == '/' {
            assert(parts[0][0] == '/');
            assert(parts[0].contains('/'));
        }
    }
    assert(Seq::<Seq<char>>::empty() + parts =~= parts);
}

/// The parts of the text of clean parts are these parts.
pub proof fn path_text_has_its_parts(parts: Seq<Seq<char>>)
    requires
        is_clean(parts),
        parts.len() > 0,
    ensures
        path_parts(path_text(parts)) == parts,
        is_absolute(path_text(parts)) == (parts[0] == root_part()),
{
    lemma_root_is_no_name();
    if parts[0] == root_part() {
        let rest = parts.skip(1);
        assert forall|i: int| 0 <= i < rest.len() implies is_name(#[trigger] rest[i]) by {
            assert(rest[i] == parts[i + 1]);
        }
        lemma_absolute_parts(rest);
        assert(seq![root_part()] + rest =~= parts);
        assert(path_text(parts)[0] == '/');
    } else {
        assert forall|i: int| 0 <= i < parts.len() implies is_name(#[trigger] parts[i]) by {}
        lemma_relative_parts(parts);
    }
}

proof fn lemma_joined_padded(pieces: Seq<Seq<char>>)
    requires
        pieces.len() > 0,
    ensures
        joined_text(seq![Seq::<char>::empty()] + pieces, '/') == root_part() + joined_text(
            pieces,
            '/',
        ),
    decreases pieces.len(),
{
    let e = Seq::<char>::empty();
    let padded = seq![e] + pieces;
    assert(padded.drop_last() =~= seq![e] + pieces.drop_last());
    assert(padded.last() == pieces.last());
    if pieces.len() == 1 {
        assert(padded.drop_last() =~= seq![e]);
        assert(joined_text(seq![e], '/') == e);
        assert(e.push('/') =~= root_part());
        assert(joined_text(pieces, '/') == pieces.last());
        assert(joined_text(padded, '/') =~= root_part() + joined_text(pieces, '/'));
    } else {
        lemma_joined_padded(pieces.drop_last());
        assert(joined_text(padded, '/') =~= root_part() + joined_text(pieces, '/'));
    }
}

proof fn lemma_way_below(a: Seq<Seq<char>>, b: Seq<Seq<char>>)
    ensures
        shared(a, a + b) == a.len(),
        way(a, a + b) == b,
    decreases a.len(),
{
    let c = a + b;
    if a.len() > 0 {
        lemma_way_below(a.skip(1), b);
        assert(c.skip(1) =~= a.skip(1) + b);
        assert(c[0] == a[0]);
    }
    assert(c.skip(a.len() as int) =~= b);
    assert(steps_up(0) + b =~= b);
}

/// The parts of a path below a directory are those of the directory and those of
/// the path.
proof fn lemma_parts_below(path: Seq<char>, root: Seq<char>)
    requires
        !is_absolute(path),
        root.len() > 0,
    ensures
        path_parts(path_below(path, root)) == path_parts(root) + pieces_of(path),
        is_absolute(path_below(path, root)) == is_absolute(root),
{
    let s = path_below(path, root);
    let more = split_text(path, '/');
    lemma_split_text_nonempty(root, '/');
    if root.last() != '/' {
        lemma_split_around(root, path, '/');
        Seq::filter_distributes_over_add(split_text(root, '/'), more, counts());
        assert(split_text(s, '/')[0] == split_text(root, '/')[0]);
        assert(s[0] == root[0]);
    } else {
        let top = root.drop_last();
        let e = Seq::<char>::empty();
        assert(top.push('/') =~= root);
        lemma_split_around(top, path, '/');
        lemma_split_text_nonempty(top, '/');
        assert(split_text(root, '/') =~= split_text(top, '/') + seq![e]);
        Seq::filter_distributes_over_add(split_text(top, '/'), more, counts());
        Seq::filter_distributes_over_add(split_text(top, '/'), seq![e], counts());
        assert forall|i: int| 0 <= i < seq![e].len() implies !#[trigger] counts()(seq![e][i]) by {}
        seq![e].lemma_all_neg_filter_empty(counts());
        assert(pieces_of(root) =~= pieces_of(top));
        assert(split_text(s, '/')[0] == split_text(root, '/')[0]);
        assert(s[0] == root[0]);
    }
    assert(path_parts(s) =~= path_parts(root) + pieces_of(path));
}

proof fn lemma_normalized_onwards(a: Seq<Seq<char>>, b: Seq<Seq<char>>)
    requires
        are_pieces(a),
    ensures
        normalized(a + b) == normalized(normalized(a) + b),
    decreases b.len(),
{
    if b.len() == 0 {
        lemma_normalized_clean(a);
        clean_parts_are_normalized(normalized(a));
        assert(a + b =~= a);
        assert(normalized(a) + b =~= normalized(a));
    } else {
        lemma_normalized_onwards(a, b.drop_last());
        assert((a + b).drop_last() =~= a + b.drop_last());
        assert((normalized(a) + b).drop_last() =~= normalized(a) + b.drop_last());
        assert((a + b).last() == b.last() && (normalized(a) + b).last() == b.last());
    }
}

/// Steps up take parts off the end.
proof fn lemma_steps_taken(parts: Seq<Seq<char>>, k: int)
    requires
        is_clean(parts),
        0 <= k <= parts.len(),
    ensures
        normalized(parts + steps_up(k)) == parts.take(parts.len() - k),
    decreases k,
{
    let s = parts + steps_up(k);
    if k == 0 {
        clean_parts_are_normalized(parts);
        assert(s =~= parts);
        assert(parts.take(parts.len() as int) =~= parts);
    } else {
        lemma_steps_taken(parts, k - 1);
        assert(s.drop_last() =~= parts + steps_up(k - 1));
        assert(s.last() == parent_part());
        assert(parent_part().len() != current_part().len());
        assert(parts.take(parts.len() - (k - 1)).drop_last() =~= parts.take(parts.len() - k));
    }
}

proof fn lemma_way_leads(top: Seq<Seq<char>>, to: Seq<Seq<char>>)
    requires
        is_clean(top),
        forall|i: int| 0 <= i < to.len() ==> is_name(#[trigger] to[i]),
    ensures
        names_of(normalized(top + way(names_of(top), to))) == to,
{
    let from = names_of(top);
    let c = shared(from, to);
    let k = from.len() - c;
    let down = to.skip(c);
    lemma_shared(from, to);
    lemma_root_is_no_name();
    lemma_steps_taken(top, k);
    let front = top + steps_up(k);
    assert(parent_part().len() == 2 && !parent_part().contains('/'));
    assert(are_pieces(front)) by {
        assert forall|i: int| 0 <= i < front.len() implies is_piece(#[trigger] front[i]) || (i == 0
            && front[i] == root_part()) by {
            if i < top.len() {
                assert(front[i] == top[i]);
            } else {
                assert(front[i] == parent_part());
            }
        }
    }
    lemma_normalized_onwards(front, down);
    assert(top + way(from, to) =~= front + down);
    let t = top.take(top.len() - k);
    let r = t + down;
    assert(is_clean(r)) by {
        assert forall|i: int| 0 <= i < r.len() implies is_name(#[trigger] r[i]) || (i == 0 && r[i]
            == root_part()) by {
            if i < t.len() {
                assert(r[i] == top[i]);
            } else {
                assert(r[i] == to[c + (i - t.len())]);
            }
        }
    }
    clean_parts_are_normalized(r);
    assert(to.take(c) + down =~= to);
    if top.len() > 0 && top[0] == root_part() {
        assert(r[0] == root_part());
        assert(r.skip(1) =~= from.take(c) + down);
    } else {
        assert(r =~= from.take(c) + down);
        if r.len() > 0 {
            assert(r[0] == to[0]);
        }
    }
}

/// The path within a project leads from the project root to the file, wherever the
/// file is.
pub proof fn paths_lead_to_their_files(file: Seq<char>, root: Seq<char>)
    ensures
        names_of(normalized(path_parts(path_below(path_within(file, root), root)))) == names_of(
            full_parts(file, root),
        ),
{
    let p = path_within(file, root);
    let top = path_parts(root);
    paths_within_are_relative(file, root);
    lemma_full_parts(file, root);
    lemma_names(full_parts(file, root));
    lemma_path_parts(root);
    lemma_way_leads(normalized(top), names_of(full_parts(file, root)));
    lemma_normalized_onwards(top, pieces_of(p));
    if root.len() > 0 {
        lemma_parts_below(p, root);
    } else {
        assert(root + p =~= p);
        assert(split_text(root, '/') =~= seq![Seq::<char>::empty()]);
        let e = Seq::<char>::empty();
        assert forall|i: int| 0 <= i < seq![e].len() implies !#[trigger] counts()(seq![e][i]) by {}
        seq![e].lemma_all_neg_filter_empty(counts());
        assert(top =~= seq![]);
        assert(top + pieces_of(p) =~= path_parts(p));
    }
}

/// Going to the full path and back gives the path within the project again.
pub proof fn full_path_and_back(file: Seq<char>, root: Seq<char>)
    requires
        is_absolute(root),
    ensures
        path_within(path_below(path_within(file, root), root), root) == path_within(file, root),
{
    paths_within_are_relative(file, root);
    lemma_parts_below(path_within(file, root), root);
    paths_lead_to_their_files(file, root);
}

/// A path without detours, taken from a project root without detours: its path
/// within the project stands for the two joined, however many separators stand
/// between the parts of either text.
pub proof fn joined_path_comes_back(path: Seq<char>, root: Seq<char>)
    requires
        is_absolute(root),
        is_clean(path_parts(root)),
        !is_absolute(path),
        is_clean(path_parts(path)),
    ensures
        path_parts(path_below(path_within(path, root), root)) == path_parts(
            path_below(path, root),
        ),
        path_parts(path_below(path, root)) == path_parts(root) + path_parts(path),
        path_within(path_below(path_within(path, root), root), root) == path_within(path, root),
{
    let top = path_parts(root);
    let more = path_parts(path);
    lemma_root_is_no_name();
    lemma_path_parts(path);
    let all = top + more;
    assert(is_clean(all)) by {
        assert forall|i: int| 0 <= i < all.len() implies is_name(#[trigger] all[i]) || (i == 0
            && all[i] == root_part()) by {
            if i < top.len() {
                assert(all[i] == top[i]);
            } else {
                assert(all[i] == more[i - top.len()]);
                assert(is_piece(more[i - top.len()]));
            }
        }
    }
    clean_parts_are_normalized(top);
    clean_parts_are_normalized(all);
    paths_within_are_relative(path, root);
    assert(top[0] == root_part());
    lemma_way_below(top.skip(1), more);
    assert(names_of(all) =~= top.skip(1) + more);
    lemma_parts_below(path_within(path, root), root);
    lemma_parts_below(path, root);
    assert(pieces_of(path) =~= more) by {
        if split_text(path, '/')[0] == current_part() {
            assert(more[0] == current_part());
            assert(is_piece(more[0]));
        }
    }
    full_path_and_back(path, root);
}

/// A file below the project root has its path from there as its path within the
/// project, whether it is given from there or in full. Going from the path within
/// the project to the full path gives the full path.
pub proof fn paths_below_the_root(root: Seq<Seq<char>>, path: Seq<Seq<char>>)
    requires
        is_clean(root),
        root.len() > 0,
        root[0] == root_part(),
        is_clean(path),
        path.len() > 0,
        path[0] != root_part(),
    ensures
        path_within(path_text(path), path_text(root)) == path_text(path),
        path_within(path_text(root + path), path_text(root)) == path_text(path),
        path_below(path_text(path), path_text(root)) == path_text(root + path),
{
    let all = root + path;
    assert forall|i: int| 0 <= i < all.len() implies is_name(#[trigger] all[i]) || (i == 0
        && all[i] == root_part()) by {
        if i < root.len() {
            assert(all[i] == root[i]);
        } else {
            assert(all[i] == path[i - root.len()]);
        }
    }
    path_text_has_its_parts(root);
    path_text_has_its_parts(path);
    path_text_has_its_parts(all);
    clean_parts_are_normalized(all);
    clean_parts_are_normalized(root);
    lemma_root_is_no_name();
    lemma_way_below(root.skip(1), path);
    assert(names_of(all) =~= root.skip(1) + path);
    // The text of the whole is that of the root, a separator and that of the rest.
    let r = root.skip(1);
    assert(all.skip(1) =~= r + path);
    if r.len() == 0 {
        assert(r + path =~= path);
        assert(joined_text(r, '/') =~= Seq::empty());
        assert(path_text(root) =~= root_part());
        assert(path_below(path_text(path), path_text(root)) =~= path_text(all));
    } else {
        lemma_joined_twice(r, path);
        assert(r[r.len() - 1] == root[root.len() - 1]);
        lemma_joined_ends(r);
        assert(is_name(r.last()));
        assert(path_text(root).last() == r.last().last());
        assert(r.last().contains(r.last().last())) by {
            assert(r.last()[r.last().len() - 1] == r.last().last());
        }
        assert(path_below(path_text(path), path_text(root)) =~= path_text(all));
    }
}

proof fn lemma_joined_twice(a: Seq<Seq<char>>, b: Seq<Seq<char>>)
    requires
        a.len() > 0,
        b.len() > 0,
    ensures
        joined_text(a + b, '/') == joined_text(a, '/').push('/') + joined_text(b, '/'),
    decreases b.len(),
{
    assert((a + b).drop_last() =~= a + b.drop_last());
    assert((a + b).last() == b.last());
    if b.len() == 1 {
        assert(a + b.drop_last() =~= a);
    } else {
        lemma_joined_twice(a, b.drop_last());
        assert(joined_text(a + b, '/') =~= joined_text(a, '/').push('/') + joined_text(b, '/'));
    }
}

proof fn lemma_joined_ends(s: Seq<Seq<char>>)
    requires
        s.len() > 0,
        s.last().len() > 0,
    ensures
        joined_text(s, '/').len() > 0,
        joined_text(s, '/').last() == s.last().last(),
{
}

} // verus!
