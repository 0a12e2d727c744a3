//! What is written as a descriptor is read back: the text of a type
//! spells that type.

use vstd::prelude::*;

use crate::text::{after_blanks, is_blank};
use crate::types::{
    base_type, closing, descriptor_at, descriptor_of, descriptor_text, is_word_char, word_end,
    TypeModel,
};

verus! {

/// A word: not empty, and of word characters only.
pub open spec fn is_word(w: Seq<char>) -> bool {
    w.len() > 0 && forall|i: int| 0 <= i < w.len() ==> is_word_char(#[trigger] w[i])
}

/// Every name in the descriptor is a word.
pub open spec fn well_named(t: TypeModel) -> bool
    decreases t,
{
    match t {
        TypeModel::Ident(name) => is_word(name),
        TypeModel::List(e) => well_named(*e),
        TypeModel::SetOf(e) => well_named(*e),
        TypeModel::MapOf(k, v) => well_named(*k) && well_named(*v),
        _ => true,
    }
}

/// A type without arguments.
pub open spec fn is_base(t: TypeModel) -> bool {
    match t {
        TypeModel::Ident(_) => false,
        TypeModel::List(_) => false,
        TypeModel::SetOf(_) => false,
        TypeModel::MapOf(_, _) => false,
        _ => true,
    }
}

/// Where no blank stands, no blank is passed over.
pub proof fn lemma_after_blanks_here(s: Seq<char>, p: int)
    requires
        0 <= p <= s.len(),
        p == s.len() || !is_blank(s[p]),
    ensures
        after_blanks(s, p) == p,
{
}

/// A run of word characters that ends before another character, or with
/// the text, is a word that ends there.
pub proof fn lemma_word_end_run(s: Seq<char>, from: int, to: int)
    requires
        0 <= from <= to <= s.len(),
        forall|i: int| from <= i < to ==> is_word_char(#[trigger] s[i]),
        to == s.len() || !is_word_char(s[to]),
    ensures
        word_end(s, from) == to,
    decreases to - from,
{
    if from < to {
        assert(is_word_char(s[from]));
        lemma_word_end_run(s, from + 1, to);
    }
}

/// The text of a type without arguments is a word that names the type.
pub proof fn lemma_base_text(t: TypeModel)
    requires
        is_base(t),
    ensures
        is_word(descriptor_text(t)),
        base_type(descriptor_text(t)) == Some(t),
{
    reveal_strlit("string");
    reveal_strlit("bool");
    reveal_strlit("i8");
    reveal_strlit("i16");
    reveal_strlit("i32");
    reveal_strlit("i64");
    reveal_strlit("double");
    reveal_strlit("byte");
    reveal_strlit("void");
    reveal_strlit("binary");
    let text = descriptor_text(t);
    match t {
        TypeModel::String => {
            assert(text =~= seq!['s', 't', 'r', 'i', 'n', 'g']);
        },
        TypeModel::Bool => {
            assert(text =~= seq!['b', 'o', 'o', 'l']);
        },
        TypeModel::I8 => {
            assert(text =~= seq!['i', '8']);
        },
        TypeModel::I16 => {
            assert(text =~= seq!['i', '1', '6']);
            assert(text[1] != "i32"@[1]);
            assert(text[1] != "i64"@[1]);
        },
        TypeModel::I32 => {
            assert(text =~= seq!['i', '3', '2']);
            assert(text[1] != "i16"@[1]);
            assert(text[1] != "i64"@[1]);
        },
        TypeModel::I64 => {
            assert(text =~= seq!['i', '6', '4']);
            assert(text[1] != "i16"@[1]);
            assert(text[1] != "i32"@[1]);
        },
        TypeModel::Double => {
            assert(text =~= seq!['d', 'o', 'u', 'b', 'l', 'e']);
            assert(text[0] != "string"@[0]);
            assert(text[0] != "binary"@[0]);
        },
        TypeModel::Byte => {
            assert(text =~= seq!['b', 'y', 't', 'e']);
            assert(text[1] != "bool"@[1]);
            assert(text[0] != "void"@[0]);
        },
        TypeModel::Void => {
            assert(text =~= seq!['v', 'o', 'i', 'd']);
            assert(text[0] != "bool"@[0]);
            assert(text[0] != "byte"@[0]);
        },
        TypeModel::Binary => {
            assert(text =~= seq!['b', 'i', 'n', 'a', 'r', 'y']);
            assert(text[0] != "string"@[0]);
            assert(text[0] != "double"@[0]);
        },
        _ => {},
    }
}

/// The text of a type is not empty and starts with a word character.
pub proof fn lemma_text_starts(t: TypeModel)
    requires
        well_named(t),
    ensures
        descriptor_text(t).len() > 0,
        is_word_char(descriptor_text(t)[0]),
{
    reveal_strlit("ident(");
    reveal_strlit("list(");
    reveal_strlit("set(");
    reveal_strlit("map(");
    if is_base(t) {
        lemma_base_text(t);
    }
}

/// A type without arguments is read where its text stands before the end
/// of the text, a closing bracket or a comma.
pub proof fn lemma_read_base(s: Seq<char>, pos: int, at: int, end: int, t: TypeModel)
    requires
        is_base(t),
        0 <= pos <= at,
        at + descriptor_text(t).len() == end <= s.len(),
        s.subrange(at, end) == descriptor_text(t),
        after_blanks(s, pos) == at,
        end == s.len() || s[end] == ')' || s[end] == ',',
    ensures
        descriptor_at(s, pos) == Some((t, end)),
{
    lemma_base_text(t);
    let text = descriptor_text(t);
    assert forall|i: int| at <= i < end implies is_word_char(#[trigger] s[i]) by {
        assert(s[i] == s.subrange(at, end)[i - at]);
    }
    lemma_word_end_run(s, at, end);
    lemma_after_blanks_here(s, end);
}

/// A named type is read where its text stands.
pub proof fn lemma_read_ident(s: Seq<char>, pos: int, at: int, end: int, name: Seq<char>)
    requires
        is_word(name),
        0 <= pos <= at,
        at + descriptor_text(TypeModel::Ident(name)).len() == end <= s.len(),
        s.subrange(at, end) == descriptor_text(TypeModel::Ident(name)),
        after_blanks(s, pos) == at,
    ensures
        descriptor_at(s, pos) == Some((TypeModel::Ident(name), end)),
{
    reveal_strlit("ident(");
    reveal_strlit("ident");
    reveal_strlit(")");
    let text = descriptor_text(TypeModel::Ident(name));
    assert(text.len() == 6 + name.len() + 1);
    assert forall|i: int| 0 <= i < text.len() implies s[at + i] == #[trigger] text[i] by {
        assert(s[at + i] == s.subrange(at, end)[i]);
    }
    assert(text[0] == 'i' && text[1] == 'd' && text[2] == 'e' && text[3] == 'n' && text[4] == 't'
        && text[5] == '(');
    assert forall|i: int| at <= i < at + 5 implies is_word_char(#[trigger] s[i]) by {
        assert(s[i] == text[i - at]);
    }
    assert(s[at + 5] == text[5]);
    lemma_word_end_run(s, at, at + 5);
    lemma_after_blanks_here(s, at + 5);
    assert(s.subrange(at, at + 5) =~= "ident"@) by {
        assert forall|i: int| 0 <= i < 5 implies s.subrange(at, at + 5)[i] == "ident"@[i] by {
            assert(s[at + i] == text[i]);
        }
    }
    let a = at + 6;
    let e = a + name.len();
    assert(text[6] == name[0]);
    assert(s[a] == text[6]);
    assert(is_word_char(name[0]));
    lemma_after_blanks_here(s, a);
    assert forall|i: int| a <= i < e implies is_word_char(#[trigger] s[i]) by {
        assert(s[i] == text[i - at]);
        assert(text[i - at] == name[i - a]);
    }
    assert(s[e] == text[e - at]);
    assert(text[e - at] == ')');
    lemma_word_end_run(s, a, e);
    lemma_after_blanks_here(s, e);
    assert(s.subrange(a, e) =~= name) by {
        assert forall|i: int| 0 <= i < name.len() implies s.subrange(a, e)[i] == name[i] by {
            assert(s[a + i] == text[6 + i]);
        }
    }
    assert(closing(s, e) == Some(e + 1));
}

/// A type that is named well is read where its text stands before the
/// end of the text, a closing bracket or a comma.
pub proof fn lemma_read_text(s: Seq<char>, pos: int, at: int, end: int, t: TypeModel)
    requires
        well_named(t),
        0 <= pos <= at,
        at + descriptor_text(t).len() == end <= s.len(),
        s.subrange(at, end) == descriptor_text(t),
        after_blanks(s, pos) == at,
        end == s.len() || s[end] == ')' || s[end] == ',',
    ensures
        descriptor_at(s, pos) == Some((t, end)),
    decreases t,
{
    let text = descriptor_text(t);
    assert forall|i: int| 0 <= i < text.len() implies s[at + i] == #[trigger] text[i] by {
        assert(s[at + i] == s.subrange(at, end)[i]);
    }
    match t {
        TypeModel::Ident(name) => {
            lemma_read_ident(s, pos, at, end, name);
        },
        TypeModel::List(inner) => {
            reveal_strlit("list(");
            reveal_strlit(")");
            let it = descriptor_text(*inner);
            lemma_text_starts(*inner);
            assert(s.subrange(at + 5, end - 1) =~= it) by {
                assert forall|i: int| 0 <= i < it.len() implies s.subrange(at + 5, end - 1)[i]
                    == it[i] by {
                    assert(s[at + 5 + i] == text[5 + i]);
                }
            }
            assert(s[at + 5] == text[5]);
            assert(s[end - 1] == text[text.len() - 1]);
            lemma_after_blanks_here(s, at + 5);
            lemma_read_text(s, at + 5, at + 5, end - 1, *inner);
            lemma_read_unary(s, pos, at, end, t);
        },
        TypeModel::SetOf(inner) => {
            reveal_strlit("set(");
            reveal_strlit(")");
            let it = descriptor_text(*inner);
            lemma_text_starts(*inner);
            assert(s.subrange(at + 4, end - 1) =~= it) by {
                assert forall|i: int| 0 <= i < it.len() implies s.subrange(at + 4, end - 1)[i]
                    == it[i] by {
                    assert(s[at + 4 + i] == text[4 + i]);
                }
            }
            assert(s[at + 4] == text[4]);
            assert(s[end - 1] == text[text.len() - 1]);
            lemma_after_blanks_here(s, at + 4);
            lemma_read_text(s, at + 4, at + 4, end - 1, *inner);
            lemma_read_unary(s, pos, at, end, t);
        },
        TypeModel::MapOf(k, v) => {
            reveal_strlit("map(");
            reveal_strlit(", ");
            reveal_strlit(")");
            let kt = descriptor_text(*k);
            let vt = descriptor_text(*v);
            lemma_text_starts(*k);
            lemma_text_starts(*v);
            let comma = at + 4 + kt.len();
            assert(text.len() == 4 + kt.len() + 2 + vt.len() + 1);
            assert(s.subrange(at + 4, comma) =~= kt) by {
                assert forall|i: int| 0 <= i < kt.len() implies s.subrange(at + 4, comma)[i]
                    == kt[i] by {
                    assert(s[at + 4 + i] == text[4 + i]);
                }
            }
            assert(s.subrange(comma + 2, end - 1) =~= vt) by {
                assert forall|i: int| 0 <= i < vt.len() implies s.subrange(comma + 2, end - 1)[i]
                    == vt[i] by {
                    assert(s[comma + 2 + i] == text[4 + kt.len() + 2 + i]);
                }
            }
            assert(s[at + 4] == text[4]);
            assert(s[comma] == text[comma - at]);
            assert(s[comma + 1] == text[comma + 1 - at]);
            assert(s[comma + 2] == text[comma + 2 - at]);
            assert(s[end - 1] == text[text.len() - 1]);
            lemma_after_blanks_here(s, at + 4);
            lemma_read_text(s, at + 4, at + 4, comma, *k);
            lemma_after_blanks_here(s, comma + 2);
            assert(after_blanks(s, comma + 1) == comma + 2);
            lemma_read_text(s, comma + 1, comma + 2, end - 1, *v);
            lemma_read_map(s, pos, at, end, *k, *v);
        },
        _ => {
            lemma_read_base(s, pos, at, end, t);
        },
    }
}

/// A list or a set is read where its text stands, once its element is
/// read within the brackets.
pub proof fn lemma_read_unary(s: Seq<char>, pos: int, at: int, end: int, t: TypeModel)
    requires
        t is List || t is SetOf,
        0 <= pos <= at,
        at + descriptor_text(t).len() == end <= s.len(),
        s.subrange(at, end) == descriptor_text(t),
        after_blanks(s, pos) == at,
        ({
            let (inner, open) = match t {
                TypeModel::List(e) => (*e, at + 4),
                TypeModel::SetOf(e) => (*e, at + 3),
                _ => (t, at),
            };
            descriptor_at(s, open + 1) == Some((inner, end - 1))
        }),
    ensures
        descriptor_at(s, pos) == Some((t, end)),
{
    reveal_strlit("ident");
    reveal_strlit("list(");
    reveal_strlit("list");
    reveal_strlit("set(");
    reveal_strlit("set");
    reveal_strlit(")");
    let text = descriptor_text(t);
    assert forall|i: int| 0 <= i < text.len() implies s[at + i] == #[trigger] text[i] by {
        assert(s[at + i] == s.subrange(at, end)[i]);
    }
    let n: int = if t is List {
        4
    } else {
        3
    };
    assert forall|i: int| at <= i < at + n implies is_word_char(#[trigger] s[i]) by {
        assert(s[i] == text[i - at]);
    }
    assert(s[at + n] == text[n]);
    assert(text[n] == '(');
    lemma_word_end_run(s, at, at + n);
    lemma_after_blanks_here(s, at + n);
    let word = s.subrange(at, at + n);
    if t is List {
        assert(word =~= "list"@) by {
            assert forall|i: int| 0 <= i < 4 implies word[i] == "list"@[i] by {
                assert(s[at + i] == text[i]);
            }
        }
    } else {
        assert(word =~= "set"@) by {
            assert forall|i: int| 0 <= i < 3 implies word[i] == "set"@[i] by {
                assert(s[at + i] == text[i]);
            }
        }
    }
    assert(word != "ident"@);
    assert(s[end - 1] == text[text.len() - 1]);
    lemma_after_blanks_here(s, end - 1);
    assert(closing(s, end - 1) == Some(end));
}

/// A map is read where its text stands, once its key and its value are
/// read within the brackets.
pub proof fn lemma_read_map(
    s: Seq<char>,
    pos: int,
    at: int,
    end: int,
    k: TypeModel,
    v: TypeModel,
)
    requires
        0 <= pos <= at,
        at + descriptor_text(TypeModel::MapOf(Box::new(k), Box::new(v))).len() == end <= s.len(),
        s.subrange(at, end) == descriptor_text(TypeModel::MapOf(Box::new(k), Box::new(v))),
        after_blanks(s, pos) == at,
        descriptor_at(s, at + 4) == Some((k, at + 4 + descriptor_text(k).len())),
        descriptor_at(s, at + 4 + descriptor_text(k).len() + 1) == Some((v, end - 1)),
    ensures
        descriptor_at(s, pos) == Some((TypeModel::MapOf(Box::new(k), Box::new(v)), end)),
{
    reveal_strlit("ident");
    reveal_strlit("list");
    reveal_strlit("set");
    reveal_strlit("map(");
    reveal_strlit("map");
    reveal_strlit(", ");
    reveal_strlit(")");
    let t = TypeModel::MapOf(Box::new(k), Box::new(v));
    let text = descriptor_text(t);
    let kt = descriptor_text(k);
    let vt = descriptor_text(v);
    assert(text.len() == 4 + kt.len() + 2 + vt.len() + 1);
    assert forall|i: int| 0 <= i < text.len() implies s[at + i] == #[trigger] text[i] by {
        assert(s[at + i] == s.subrange(at, end)[i]);
    }
    assert forall|i: int| at <= i < at + 3 implies is_word_char(#[trigger] s[i]) by {
        assert(s[i] == text[i - at]);
    }
    assert(s[at + 3] == text[3]);
    assert(text[3] == '(');
    lemma_word_end_run(s, at, at + 3);
    lemma_after_blanks_here(s, at + 3);
    let word = s.subrange(at, at + 3);
    assert(word =~= "map"@) by {
        assert forall|i: int| 0 <= i < 3 implies word[i] == "map"@[i] by {
            assert(s[at + i] == text[i]);
        }
    }
    assert(word != "ident"@);
    assert(word != "list"@);
    assert(word[0] != "set"@[0]);
    let comma = at + 4 + kt.len();
    assert(s[comma] == text[comma - at]);
    assert(text[comma - at] == ',');
    lemma_after_blanks_here(s, comma);
    assert(s[end - 1] == text[text.len() - 1]);
    lemma_after_blanks_here(s, end - 1);
    assert(closing(s, end - 1) == Some(end));
}

/// The text of a type whose names are words spells that type.
pub proof fn lemma_descriptor_roundtrip(t: TypeModel)
    requires
        well_named(t),
    ensures
        descriptor_of(descriptor_text(t)) == Some(t),
{
    let s = descriptor_text(t);
    lemma_text_starts(t);
    lemma_after_blanks_here(s, 0);
    assert(s.subrange(0, s.len() as int) =~= s);
    lemma_read_text(s, 0, 0, s.len() as int, t);
    lemma_after_blanks_here(s, s.len() as int);
}

} // verus!
