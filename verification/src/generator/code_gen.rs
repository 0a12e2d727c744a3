//! Turning the parts of a document into source text.

use vstd::prelude::*;

pub mod basic;
pub mod definition;
pub mod document;
pub mod errors;
pub mod field;
pub mod functions;
pub mod types;

use vstd::string::*;

use crate::generator::code_gen::basic::{path_text, to_path};
use crate::text::{chars_of, string_of};
use crate::thrift_parser::{lemma_deep_empty, lemma_deep_push};

verus! {

/// The pieces of a text between its separators, found from left to
/// right, behind the pieces in `acc`. A separator is a point or `::`.
/// `start` is where the current piece begins and `pos` how far it has
/// been read.
pub open spec fn split_from(s: Seq<char>, pos: int, start: int, acc: Seq<Seq<char>>) -> Seq<
    Seq<char>,
>
    decreases s.len() - pos,
{
    if pos < 0 || start < 0 || start > pos || pos > s.len() {
        acc
    } else if pos + 1 < s.len() && s[pos] == ':' && s[pos + 1] == ':' {
        split_from(s, pos + 2, pos + 2, acc.push(s.subrange(start, pos)))
    } else if pos < s.len() && s[pos] == '.' {
        split_from(s, pos + 1, pos + 1, acc.push(s.subrange(start, pos)))
    } else if pos < s.len() {
        split_from(s, pos + 1, start, acc)
    } else {
        acc.push(s.subrange(start, pos))
    }
}

/// The pieces of a text between its separators, each a point or `::`:
/// `a.b.c` and `a::b::c` are both `[a, b, c]`.
pub open spec fn split_path(s: Seq<char>) -> Seq<Seq<char>> {
    split_from(s, 0, 0, Seq::empty())
}

/// The pieces with `::` between them.
pub open spec fn joined(parts: Seq<Seq<char>>) -> Seq<char>
    decreases parts.len(),
{
    if parts.len() == 0 {
        Seq::empty()
    } else if parts.len() == 1 {
        parts[0]
    } else {
        joined(parts.drop_last()) + seq![':', ':'] + parts.last()
    }
}

/// What stands before the next piece: the pieces so far, each with `::`
/// behind it.
pub open spec fn joined_before(parts: Seq<Seq<char>>) -> Seq<char> {
    if parts.len() == 0 {
        Seq::empty()
    } else {
        joined(parts) + seq![':', ':']
    }
}

/// The text holds no point.
pub open spec fn pointless(s: Seq<char>) -> bool {
    forall|i: int| 0 <= i < s.len() ==> s[i] != '.'
}

/// The path of two texts in a row is the two paths in a row.
pub proof fn lemma_path_text_concat(a: Seq<char>, b: Seq<char>)
    ensures
        path_text(a + b) == path_text(a) + path_text(b),
    decreases b.len(),
{
    if b.len() == 0 {
        assert(a + b =~= a);
        assert(path_text(a) + path_text(b) =~= path_text(a));
    } else {
        assert((a + b).drop_last() =~= a + b.drop_last());
        assert((a + b).last() == b.last());
        lemma_path_text_concat(a, b.drop_last());
        if b.last() == '.' {
            assert(path_text(a) + path_text(b.drop_last()) + seq![':', ':'] =~= path_text(a) + (
            path_text(b.drop_last()) + seq![':', ':']));
        } else {
            assert((path_text(a) + path_text(b.drop_last())).push(b.last()) =~= path_text(a)
                + path_text(b.drop_last()).push(b.last()));
        }
    }
}

/// A text without a point is its own path.
pub proof fn lemma_path_text_plain(a: Seq<char>)
    requires
        pointless(a),
    ensures
        path_text(a) == a,
    decreases a.len(),
{
    if a.len() == 0 {
        assert(a =~= Seq::<char>::empty());
    } else {
        assert(a.last() == a[a.len() - 1]);
        assert(pointless(a.drop_last())) by {
            assert forall|i: int| 0 <= i < a.drop_last().len() implies a.drop_last()[i] != '.' by {
                assert(a.drop_last()[i] == a[i]);
            }
        }
        lemma_path_text_plain(a.drop_last());
        assert(a.drop_last().push(a.last()) =~= a);
    }
}

/// One more piece stands behind what was joined before.
pub proof fn lemma_joined_push(parts: Seq<Seq<char>>, piece: Seq<char>)
    ensures
        joined(parts.push(piece)) == joined_before(parts) + piece,
{
    let all = parts.push(piece);
    assert(all.drop_last() =~= parts);
    assert(all.last() == piece);
    if parts.len() == 0 {
        assert(all[0] == piece);
        assert(Seq::<char>::empty() + piece =~= piece);
    }
}

/// From any point of the cutting on, the pieces joined are what was
/// joined before and the path of the rest of the text.
pub proof fn lemma_split_joins(s: Seq<char>, pos: int, start: int, acc: Seq<Seq<char>>)
    requires
        0 <= start <= pos <= s.len(),
        pointless(s.subrange(start, pos)),
    ensures
        joined(split_from(s, pos, start, acc)) == joined_before(acc) + path_text(
            s.subrange(start, s.len() as int),
        ),
    decreases s.len() - pos,
{
    let piece = s.subrange(start, pos);
    let end = s.len() as int;
    if pos + 1 < s.len() && s[pos] == ':' && s[pos + 1] == ':' {
        let next = acc.push(piece);
        assert(s.subrange(pos + 2, pos + 2) =~= Seq::<char>::empty());
        lemma_split_joins(s, pos + 2, pos + 2, next);
        lemma_joined_push(acc, piece);
        let colons = s.subrange(pos, pos + 2);
        assert(colons =~= seq![':', ':']);
        assert(pointless(colons));
        lemma_path_text_plain(colons);
        lemma_path_text_plain(piece);
        let rest = s.subrange(pos + 2, end);
        assert(s.subrange(start, end) =~= piece + colons + rest);
        lemma_path_text_concat(piece + colons, rest);
        lemma_path_text_concat(piece, colons);
        assert(joined_before(next) + path_text(rest) =~= joined_before(acc) + (piece + colons
            + path_text(rest)));
    } else if pos < s.len() && s[pos] == '.' {
        let next = acc.push(piece);
        assert(s.subrange(pos + 1, pos + 1) =~= Seq::<char>::empty());
        lemma_split_joins(s, pos + 1, pos + 1, next);
        lemma_joined_push(acc, piece);
        let point = s.subrange(pos, pos + 1);
        assert(point =~= seq!['.']);
        assert(point.last() == '.');
        assert(point.drop_last() =~= Seq::<char>::empty());
        assert(path_text(Seq::<char>::empty()) =~= Seq::<char>::empty());
        assert(path_text(point) =~= seq![':', ':']);
        lemma_path_text_plain(piece);
        let rest = s.subrange(pos + 1, end);
        assert(s.subrange(start, end) =~= piece + point + rest);
        lemma_path_text_concat(piece + point, rest);
        lemma_path_text_concat(piece, point);
        assert(joined_before(next) + path_text(rest) =~= joined_before(acc) + (piece + seq![
            ':',
            ':',
        ] + path_text(rest)));
    } else if pos < s.len() {
        let longer = s.subrange(start, pos + 1);
        assert(pointless(longer)) by {
            assert forall|i: int| 0 <= i < longer.len() implies #[trigger] longer[i] != '.' by {
                if i < pos - start {
                    assert(s.subrange(start, pos)[i] == s[start + i]);
                }
            }
        }
        lemma_split_joins(s, pos + 1, start, acc);
    } else {
        lemma_joined_push(acc, piece);
        lemma_path_text_plain(piece);
    }
}

/// The modules of a namespace, joined by `::`, are the path under which
/// a document that includes it names it: the document stands where its
/// re-export leads.
pub proof fn lemma_modules_are_the_path(namespace: Seq<char>)
    ensures
        joined(split_path(namespace)) == path_text(namespace),
{
    assert(namespace.subrange(0, 0) =~= Seq::<char>::empty());
    lemma_split_joins(namespace, 0, 0, Seq::empty());
    assert(namespace.subrange(0, namespace.len() as int) =~= namespace);
    assert(Seq::<char>::empty() + path_text(namespace) =~= path_text(namespace));
}

/// Each text as a path: `::` in place of each point.
pub open spec fn paths_of(includes: Seq<Seq<char>>) -> Seq<Seq<char>> {
    Seq::new(includes.len(), |i: int| path_text(includes[i]))
}

/// What a document is generated under: the namespaces of the documents
/// that it includes, as paths, and the modules of its own namespace.
#[derive(Debug)]
pub struct CodeGenContext {
    /// Namespaces of all files that it contains, such as `a::b::c`.
    pub includes: Vec<String>,
    /// Modules of the namespace, outermost first: `a.b.c` is `[a, b, c]`.
    pub namespaces: Vec<String>,
}

impl Default for CodeGenContext {
    fn default() -> (r: Self)
        ensures
            r.includes.deep_view() == Seq::<Seq<char>>::empty(),
            r.namespaces.deep_view() == Seq::<Seq<char>>::empty(),
    {
        let r = CodeGenContext { includes: Vec::new(), namespaces: Vec::new() };
        proof {
            lemma_deep_empty(r.includes);
            lemma_deep_empty(r.namespaces);
        }
        r
    }
}

impl CodeGenContext {
    /// The context of a document with namespace `namespaces` that
    /// includes documents with the namespaces `includes`. The points of
    /// the included namespaces become `::`; the own namespace is cut at
    /// each point and at each `::` into the modules that nest, so that the
    /// document stands where the path of an include of it leads.
    pub fn new(includes: Vec<String>, namespaces: String) -> (r: Self)
        ensures
            r.includes.deep_view() == paths_of(includes.deep_view()),
            r.namespaces.deep_view() == split_path(namespaces@),
    {
        let mut paths: Vec<String> = Vec::new();
        let mut i: usize = 0;
        proof {
            lemma_deep_empty(paths);
        }
        while i < includes.len()
            invariant
                i <= includes.len(),
                paths.len() == i,
                paths.deep_view() == paths_of(includes.deep_view()).take(i as int),
            decreases includes.len() - i,
        {
            let p = to_path(includes[i].as_str());
            let ghost before = paths;
            paths.push(p);
            proof {
                lemma_deep_push(before, paths, p);
                assert(paths.deep_view() =~= paths_of(includes.deep_view()).take(i + 1));
            }
            i = i + 1;
        }
        assert(paths_of(includes.deep_view()).take(includes.len() as int) =~= paths_of(
            includes.deep_view(),
        ));
        let chars = chars_of(namespaces.as_str());
        let n = chars.len();
        let mut parts: Vec<String> = Vec::new();
        let mut pos: usize = 0;
        let mut start: usize = 0;
        proof {
            lemma_deep_empty(parts);
        }
        while pos < n
            invariant
                start <= pos <= n,
                n == chars@.len(),
                chars@ == namespaces@,
                split_from(chars@, pos as int, start as int, parts.deep_view()) == split_path(
                    chars@,
                ),
            decreases n - pos,
        {
            if pos + 1 < n && chars[pos] == ':' && chars[pos + 1] == ':' {
                let piece = string_of(chars.as_slice(), start, pos);
                let ghost before = parts;
                parts.push(piece);
                proof {
                    lemma_deep_push(before, parts, piece);
                }
                pos = pos + 2;
                start = pos;
            } else if chars[pos] == '.' {
                let piece = string_of(chars.as_slice(), start, pos);
                let ghost before = parts;
                parts.push(piece);
                proof {
                    lemma_deep_push(before, parts, piece);
                }
                pos = pos + 1;
                start = pos;
            } else {
                pos = pos + 1;
            }
        }
        let piece = string_of(chars.as_slice(), start, pos);
        let ghost before = parts;
        parts.push(piece);
        proof {
            lemma_deep_push(before, parts, piece);
        }
        Self { includes: paths, namespaces: parts }
    }
}

} // verus!
