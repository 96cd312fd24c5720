//! Mapping of arbitrary episode titles to filesystem-safe names.
use vstd::prelude::*;
use crate::text::push_char;

verus! {

/// Characters that are not allowed in a file name on common filesystems.
pub open spec fn is_reserved(c: char) -> bool {
    c == '<' || c == '>' || c == ':' || c == '"' || c == '/' || c == '\\' || c == '|'
        || c == '?' || c == '*'
}

/// Characters with the Unicode `White_Space` property.
pub open spec fn white_space(c: char) -> bool {
    ('\t' <= c && c <= '\r') || c == ' ' || c == '\u{85}' || c == '\u{A0}' || c == '\u{1680}'
        || ('\u{2000}' <= c && c <= '\u{200A}') || c == '\u{2028}' || c == '\u{2029}'
        || c == '\u{202F}' || c == '\u{205F}' || c == '\u{3000}'
}

/// Per-character cleaning: reserved characters become `_`, control
/// whitespace becomes a plain space.
pub open spec fn clean_char(c: char) -> char {
    if is_reserved(c) {
        '_'
    } else if c == '\t' || c == '\n' || c == '\r' {
        ' '
    } else {
        c
    }
}

pub open spec fn cleaned(s: Seq<char>) -> Seq<char> {
    s.map_values(|c: char| clean_char(c))
}

/// The words of `s` (maximal runs without whitespace) joined by single spaces.
pub open spec fn collapse(s: Seq<char>) -> Seq<char>
    decreases s.len(),
{
    if s.len() == 0 {
        s
    } else {
        let p = s.drop_last();
        let c = s.last();
        let q = collapse(p);
        if white_space(c) {
            q
        } else if q.len() == 0 {
            seq![c]
        } else if white_space(p.last()) {
            q + seq![' ', c]
        } else {
            q.push(c)
        }
    }
}

/// What `sanitize_filename` returns for a title.
pub open spec fn sanitized(s: Seq<char>) -> Seq<char> {
    collapse(cleaned(s))
}

/// A sequence in collapsed form: every whitespace character is a plain
/// space with a non-whitespace character on each side.
pub open spec fn is_collapsed(t: Seq<char>) -> bool {
    forall|i: int|
        0 <= i < t.len() && white_space(#[trigger] t[i]) ==> t[i] == ' ' && 0 < i && i + 1 < t.len()
            && !white_space(t[i - 1]) && !white_space(t[i + 1])
}

pub fn is_white_space(c: char) -> (r: bool)
    ensures
        r == white_space(c),
{
    ('\t' <= c && c <= '\r') || c == ' ' || c == '\u{85}' || c == '\u{A0}' || c == '\u{1680}'
        || ('\u{2000}' <= c && c <= '\u{200A}') || c == '\u{2028}' || c == '\u{2029}'
        || c == '\u{202F}' || c == '\u{205F}' || c == '\u{3000}'
}

pub fn clean_character(c: char) -> (r: char)
    ensures
        r == clean_char(c),
{
    if c == '<' || c == '>' || c == ':' || c == '"' || c == '/' || c == '\\' || c == '|' || c
        == '?' || c == '*' {
        '_'
    } else if c == '\t' || c == '\n' || c == '\r' {
        ' '
    } else {
        c
    }
}

/// Maps a title to a filesystem-safe name: reserved characters become `_`,
/// runs of whitespace become one space, and leading and trailing whitespace
/// is removed.
pub fn sanitize_filename(title: &str) -> (r: String)
    ensures
        r@ == sanitized(title@),
{
    let n = title.unicode_len();
    let ghost m = cleaned(title@);
    let mut out = String::new();
    let mut has_word = false;
    let mut prev_ws = false;
    let mut i: usize = 0;
    while i < n
        invariant
            n == title@.len(),
            i <= n,
            m == cleaned(title@),
            out@ == collapse(m.take(i as int)),
            has_word == (out@.len() > 0),
            prev_ws == (i > 0 && white_space(m[i - 1])),
        decreases n - i,
    {
        let c = clean_character(title.get_char(i));
        let ws = is_white_space(c);
        proof {
            assert(m.take(i + 1).drop_last() =~= m.take(i as int));
            assert(m.take(i + 1).last() == c);
        }
        if !ws {
            if has_word && prev_ws {
                push_char(&mut out, ' ');
            }
            push_char(&mut out, c);
            has_word = true;
        }
        prev_ws = ws;
        i = i + 1;
    }
    proof {
        assert(m.take(n as int) =~= m);
    }
    out
}

/// A character that cleaning leaves unchanged.
pub open spec fn is_plain(c: char) -> bool {
    !is_reserved(c) && c != '\t' && c != '\n' && c != '\r'
}

proof fn lemma_collapse_keeps_plain(s: Seq<char>)
    requires
        forall|i: int| 0 <= i < s.len() ==> is_plain(#[trigger] s[i]),
    ensures
        forall|k: int| 0 <= k < collapse(s).len() ==> is_plain(#[trigger] collapse(s)[k]),
    decreases s.len(),
{
    if s.len() > 0 {
        let p = s.drop_last();
        assert forall|i: int| 0 <= i < p.len() implies is_plain(#[trigger] p[i]) by {
            assert(p[i] == s[i]);
        }
        lemma_collapse_keeps_plain(p);
        let q = collapse(p);
        let c = s.last();
        assert(is_plain(c));
        if !white_space(c) && q.len() > 0 {
            if white_space(p.last()) {
                let r = q + seq![' ', c];
                assert forall|k: int| 0 <= k < r.len() implies is_plain(#[trigger] r[k]) by {
                    if k < q.len() {
                        assert(r[k] == q[k]);
                    }
                }
            } else {
                let r = q.push(c);
                assert forall|k: int| 0 <= k < r.len() implies is_plain(#[trigger] r[k]) by {
                    if k < q.len() {
                        assert(r[k] == q[k]);
                    }
                }
            }
        }
    }
}

proof fn lemma_collapse_is_collapsed(s: Seq<char>)
    ensures
        is_collapsed(collapse(s)),
    decreases s.len(),
{
    if s.len() > 0 {
        let p = s.drop_last();
        lemma_collapse_is_collapsed(p);
        let q = collapse(p);
        let c = s.last();
        if !white_space(c) {
            if q.len() == 0 {
                let r = seq![c];
                assert(r[0] == c);
            } else if white_space(p.last()) {
                let r = q + seq![' ', c];
                assert(!white_space(q[q.len() - 1]));
                assert forall|i: int|
                    0 <= i < r.len() && white_space(#[trigger] r[i]) implies r[i] == ' ' && 0 < i
                    && i + 1 < r.len() && !white_space(r[i - 1]) && !white_space(r[i + 1]) by {
                    if i < q.len() {
                        assert(r[i] == q[i]);
                        assert(r[i - 1] == q[i - 1]);
                        if i + 1 < q.len() {
                            assert(r[i + 1] == q[i + 1]);
                        }
                    } else {
                        assert(r[q.len() as int] == ' ');
                        assert(r[q.len() as int + 1] == c);
                    }
                }
            } else {
                let r = q.push(c);
                assert(!white_space(q[q.len() - 1]));
                assert forall|i: int|
                    0 <= i < r.len() && white_space(#[trigger] r[i]) implies r[i] == ' ' && 0 < i
                    && i + 1 < r.len() && !white_space(r[i - 1]) && !white_space(r[i + 1]) by {
                    if i < q.len() {
                        assert(r[i] == q[i]);
                        assert(r[i - 1] == q[i - 1]);
                        if i + 1 < q.len() {
                            assert(r[i + 1] == q[i + 1]);
                        }
                    }
                }
            }
        }
    }
}

proof fn lemma_collapse_of_collapsed_prefix(t: Seq<char>)
    requires
        forall|i: int|
            0 <= i < t.len() && white_space(#[trigger] t[i]) ==> t[i] == ' ' && 0 < i && !white_space(
                t[i - 1],
            ) && (i + 1 < t.len() ==> !white_space(t[i + 1])),
    ensures
        collapse(t) == (if t.len() > 0 && white_space(t.last()) {
            t.drop_last()
        } else {
            t
        }),
    decreases t.len(),
{
    if t.len() > 0 {
        let u = t.drop_last();
        let c = t.last();
        assert forall|i: int|
            0 <= i < u.len() && white_space(#[trigger] u[i]) implies u[i] == ' ' && 0 < i
            && !white_space(u[i - 1]) && (i + 1 < u.len() ==> !white_space(u[i + 1])) by {
            assert(t[i] == u[i]);
            assert(t[i - 1] == u[i - 1]);
            if i + 1 < u.len() {
                assert(t[i + 1] == u[i + 1]);
            }
        }
        lemma_collapse_of_collapsed_prefix(u);
        if white_space(c) {
            assert(!white_space(t[t.len() - 2]));
            assert(u.last() == t[t.len() - 2]);
        } else if u.len() == 0 {
            assert(t =~= seq![c]);
        } else if white_space(u.last()) {
            assert(u.last() == t[u.len() - 1]);
            assert(u.len() >= 2);
            assert(collapse(u) == u.drop_last());
            assert(u.drop_last() + seq![' ', c] =~= t);
        } else {
            assert(u.push(c) =~= t);
        }
    }
}

/// Sanitized names never hold a reserved character.
pub proof fn lemma_sanitized_has_no_reserved(s: Seq<char>)
    ensures
        forall|k: int| 0 <= k < sanitized(s).len() ==> !is_reserved(#[trigger] sanitized(s)[k]),
{
    let m = cleaned(s);
    assert forall|i: int| 0 <= i < m.len() implies is_plain(#[trigger] m[i]) by {}
    lemma_collapse_keeps_plain(m);
}

/// Sanitizing is idempotent: a sanitized name is its own sanitized form.
pub proof fn lemma_sanitize_idempotent(s: Seq<char>)
    ensures
        sanitized(sanitized(s)) == sanitized(s),
{
    let t = sanitized(s);
    let m = cleaned(s);
    assert forall|i: int| 0 <= i < m.len() implies is_plain(#[trigger] m[i]) by {}
    lemma_collapse_keeps_plain(m);
    assert(cleaned(t) =~= t) by {
        assert forall|i: int| 0 <= i < t.len() implies cleaned(t)[i] == t[i] by {
            assert(is_plain(t[i]));
        }
    }
    lemma_collapse_is_collapsed(m);
    lemma_collapse_of_collapsed_prefix(t);
}

} // verus!
