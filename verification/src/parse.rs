//! The grammar of a directive argument: a parenthesized path.
//!
//! The `invoke` and `cycle` directives carry their target as a parenthesized
//! path, written `(segment)` or `(segment :: segment :: ...)` with optional
//! spaces between tokens.  [`parse_paren_path`] reads that text into the
//! path's segments and is proved equivalent to the spec-level grammar
//! [`spec_parse_paren_path`]; any other text is malformed.

use vstd::prelude::*;
use vstd::string::*;

verus! {

/// A character that may open an identifier.
pub open spec fn is_ident_start_char(c: char) -> bool {
    ('a' as u32) <= (c as u32) && (c as u32) <= ('z' as u32)
        || ('A' as u32) <= (c as u32) && (c as u32) <= ('Z' as u32)
        || c == '_'
}

/// A character that may continue an identifier.
pub open spec fn is_ident_char(c: char) -> bool {
    is_ident_start_char(c) || ('0' as u32) <= (c as u32) && (c as u32) <= ('9' as u32)
}

/// The first position at or after `i` that does not hold a space.
pub open spec fn ws_end(s: Seq<char>, i: int) -> int
    decreases s.len() - i,
{
    if 0 <= i < s.len() && s[i] == ' ' {
        ws_end(s, i + 1)
    } else {
        i
    }
}

/// The first position at or after `i` that does not hold an identifier
/// character.
pub open spec fn ident_end(s: Seq<char>, i: int) -> int
    decreases s.len() - i,
{
    if 0 <= i < s.len() && is_ident_char(s[i]) {
        ident_end(s, i + 1)
    } else {
        i
    }
}

pub proof fn lemma_ws_end(s: Seq<char>, i: int)
    requires
        0 <= i <= s.len(),
    ensures
        i <= ws_end(s, i) <= s.len(),
    decreases s.len() - i,
{
    if i < s.len() && s[i] == ' ' {
        lemma_ws_end(s, i + 1);
    }
}

pub proof fn lemma_ident_end(s: Seq<char>, i: int)
    requires
        0 <= i <= s.len(),
    ensures
        i <= ident_end(s, i) <= s.len(),
        forall|j: int| i <= j < ident_end(s, i) ==> is_ident_char(#[trigger] s[j]),
    decreases s.len() - i,
{
    if i < s.len() && is_ident_char(s[i]) {
        lemma_ident_end(s, i + 1);
    }
}

/// Whitespace skipping stops immediately on a non-space.
pub proof fn lemma_ws_end_at(s: Seq<char>, i: int)
    requires
        0 <= i <= s.len(),
        i == s.len() || s[i] != ' ',
    ensures
        ws_end(s, i) == i,
{
}

/// Identifier reading stops exactly at the first non-identifier character.
pub proof fn lemma_ident_end_exact(s: Seq<char>, i: int, e: int)
    requires
        0 <= i <= e <= s.len(),
        forall|j: int| i <= j < e ==> is_ident_char(#[trigger] s[j]),
        e == s.len() || !is_ident_char(s[e]),
    ensures
        ident_end(s, i) == e,
    decreases e - i,
{
    if i < e {
        lemma_ident_end_exact(s, i + 1, e);
    }
}

/// Parses the remainder of a parenthesized path, after the segments in
/// `segs` have been read and position `i` stands right after the last one:
/// either the closing parenthesis (followed only by spaces), or `::` and a
/// further segment.
pub open spec fn spec_parse_tail(s: Seq<char>, i: int, segs: Seq<Seq<char>>) -> Option<
    Seq<Seq<char>>,
>
    decreases s.len() - i,
        when 0 <= i <= s.len()
{
    let j = ws_end(s, i);
    proof {
        lemma_ws_end(s, i);
    }
    if j < s.len() && s[j] == ')' {
        if ws_end(s, j + 1) == s.len() {
            Some(segs)
        } else {
            None
        }
    } else if j < s.len() && s[j] == ':' && j + 1 < s.len() && s[j + 1] == ':' {
        let k = ws_end(s, j + 2);
        proof {
            lemma_ws_end(s, j + 2);
        }
        if k < s.len() && is_ident_start_char(s[k]) {
            let e = ident_end(s, k);
            proof {
                lemma_ident_end(s, k);
            }
            spec_parse_tail(s, e, segs.push(s.subrange(k, e)))
        } else {
            None
        }
    } else {
        None
    }
}

/// The grammar of a directive argument: `'('` path `')'`, where path is one
/// or more identifier segments separated by `::`, with spaces allowed
/// between tokens.  Returns the segments, or `None` for malformed text.
pub open spec fn spec_parse_paren_path(s: Seq<char>) -> Option<Seq<Seq<char>>> {
    let i = ws_end(s, 0);
    if i < s.len() && s[i] == '(' {
        let k = ws_end(s, i + 1);
        if k < s.len() && is_ident_start_char(s[k]) {
            let e = ident_end(s, k);
            spec_parse_tail(s, e, seq![s.subrange(k, e)])
        } else {
            None
        }
    } else {
        None
    }
}

/// Exec form of [`is_ident_start_char`].
pub fn ident_start_char(c: char) -> (r: bool)
    ensures
        r == is_ident_start_char(c),
{
    ('a' as u32) <= (c as u32) && (c as u32) <= ('z' as u32)
        || ('A' as u32) <= (c as u32) && (c as u32) <= ('Z' as u32)
        || c == '_'
}

/// Exec form of [`is_ident_char`].
pub fn ident_char(c: char) -> (r: bool)
    ensures
        r == is_ident_char(c),
{
    ident_start_char(c) || ('0' as u32) <= (c as u32) && (c as u32) <= ('9' as u32)
}

/// Advances `i` past any spaces.
fn skip_ws(s: &str, i: usize, n: usize) -> (r: usize)
    requires
        i <= n,
        n == s@.len(),
    ensures
        r == ws_end(s@, i as int),
        i <= r <= n,
{
    let mut j = i;
    loop
        invariant
            i <= j <= n,
            n == s@.len(),
            ws_end(s@, i as int) == ws_end(s@, j as int),
        decreases n - j,
    {
        if j < n && s.get_char(j) == ' ' {
            j = j + 1;
        } else {
            return j;
        }
    }
}

/// Advances `i` past any identifier characters.
fn skip_ident(s: &str, i: usize, n: usize) -> (r: usize)
    requires
        i <= n,
        n == s@.len(),
    ensures
        r == ident_end(s@, i as int),
        i <= r <= n,
{
    let mut j = i;
    loop
        invariant
            i <= j <= n,
            n == s@.len(),
            ident_end(s@, i as int) == ident_end(s@, j as int),
        decreases n - j,
    {
        if j < n && ident_char(s.get_char(j)) {
            j = j + 1;
        } else {
            return j;
        }
    }
}

/// Reads a parenthesized path into its segments; `None` on malformed text.
pub fn parse_paren_path(s: &str) -> (r: Option<Vec<String>>)
    ensures
        r.deep_view() == spec_parse_paren_path(s@),
{
    let n = s.unicode_len();
    let i = skip_ws(s, 0, n);
    if !(i < n && s.get_char(i) == '(') {
        return None;
    }
    let k = skip_ws(s, i + 1, n);
    if !(k < n && ident_start_char(s.get_char(k))) {
        return None;
    }
    let e = skip_ident(s, k, n);
    let mut segs: Vec<String> = Vec::new();
    segs.push(s.substring_char(k, e).to_owned());
    let mut pos = e;
    assert(segs.deep_view() =~= seq![s@.subrange(k as int, e as int)]);
    loop
        invariant
            pos <= n,
            n == s@.len(),
            spec_parse_paren_path(s@) == spec_parse_tail(s@, pos as int, segs.deep_view()),
        decreases n - pos,
    {
        let j = skip_ws(s, pos, n);
        if j < n && s.get_char(j) == ')' {
            if skip_ws(s, j + 1, n) == n {
                return Some(segs);
            } else {
                return None;
            }
        } else if j < n && s.get_char(j) == ':' && j + 1 < n && s.get_char(j + 1) == ':' {
            let k2 = skip_ws(s, j + 2, n);
            if k2 < n && ident_start_char(s.get_char(k2)) {
                let e2 = skip_ident(s, k2, n);
                let ghost old_segs = segs.deep_view();
                segs.push(s.substring_char(k2, e2).to_owned());
                assert(segs.deep_view() =~= old_segs.push(s@.subrange(k2 as int, e2 as int)));
                pos = e2;
            } else {
                return None;
            }
        } else {
            return None;
        }
    }
}

} // verus!
