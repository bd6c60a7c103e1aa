//! Page-text normalization: the canonical fingerprint used for change
//! detection.
//!
//! A page's raw HTML is reduced to the text of every element under `body`
//! except `script` elements, joined in document order with single spaces;
//! that text is then lowercased (ASCII) and every whitespace run is collapsed
//! to one space, with the ends trimmed. The HTML text extraction is done by
//! the `scraper` crate behind a trusted wrapper; the normalization itself is
//! verified against `normalized` below.

use vstd::prelude::*;

verus! {

/// Whether `c` has the Unicode `White_Space` property, the set that
/// whitespace splitting goes by.
pub open spec fn is_space_char(c: char) -> bool {
    c == '\u{0009}' || c == '\u{000A}' || c == '\u{000B}' || c == '\u{000C}' || c == '\u{000D}'
        || c == ' ' || c == '\u{0085}' || c == '\u{00A0}' || c == '\u{1680}' || c == '\u{2000}'
        || c == '\u{2001}' || c == '\u{2002}' || c == '\u{2003}' || c == '\u{2004}'
        || c == '\u{2005}' || c == '\u{2006}' || c == '\u{2007}' || c == '\u{2008}'
        || c == '\u{2009}' || c == '\u{200A}' || c == '\u{2028}' || c == '\u{2029}'
        || c == '\u{202F}' || c == '\u{205F}' || c == '\u{3000}'
}

fn is_space(c: char) -> (r: bool)
    ensures
        r == is_space_char(c),
{
    c == '\u{0009}' || c == '\u{000A}' || c == '\u{000B}' || c == '\u{000C}' || c == '\u{000D}'
        || c == ' ' || c == '\u{0085}' || c == '\u{00A0}' || c == '\u{1680}' || c == '\u{2000}'
        || c == '\u{2001}' || c == '\u{2002}' || c == '\u{2003}' || c == '\u{2004}'
        || c == '\u{2005}' || c == '\u{2006}' || c == '\u{2007}' || c == '\u{2008}'
        || c == '\u{2009}' || c == '\u{200A}' || c == '\u{2028}' || c == '\u{2029}'
        || c == '\u{202F}' || c == '\u{205F}' || c == '\u{3000}'
}

/// ASCII lowercasing of one character; every other character is unchanged.
pub open spec fn lower_char(c: char) -> char {
    if c == 'A' {
        'a'
    } else if c == 'B' {
        'b'
    } else if c == 'C' {
        'c'
    } else if c == 'D' {
        'd'
    } else if c == 'E' {
        'e'
    } else if c == 'F' {
        'f'
    } else if c == 'G' {
        'g'
    } else if c == 'H' {
        'h'
    } else if c == 'I' {
        'i'
    } else if c == 'J' {
        'j'
    } else if c == 'K' {
        'k'
    } else if c == 'L' {
        'l'
    } else if c == 'M' {
        'm'
    } else if c == 'N' {
        'n'
    } else if c == 'O' {
        'o'
    } else if c == 'P' {
        'p'
    } else if c == 'Q' {
        'q'
    } else if c == 'R' {
        'r'
    } else if c == 'S' {
        's'
    } else if c == 'T' {
        't'
    } else if c == 'U' {
        'u'
    } else if c == 'V' {
        'v'
    } else if c == 'W' {
        'w'
    } else if c == 'X' {
        'x'
    } else if c == 'Y' {
        'y'
    } else if c == 'Z' {
        'z'
    } else {
        c
    }
}

fn to_lower(c: char) -> (r: char)
    ensures
        r == lower_char(c),
{
    match c {
        'A' => 'a',
        'B' => 'b',
        'C' => 'c',
        'D' => 'd',
        'E' => 'e',
        'F' => 'f',
        'G' => 'g',
        'H' => 'h',
        'I' => 'i',
        'J' => 'j',
        'K' => 'k',
        'L' => 'l',
        'M' => 'm',
        'N' => 'n',
        'O' => 'o',
        'P' => 'p',
        'Q' => 'q',
        'R' => 'r',
        'S' => 's',
        'T' => 't',
        'U' => 'u',
        'V' => 'v',
        'W' => 'w',
        'X' => 'x',
        'Y' => 'y',
        'Z' => 'z',
        _ => c,
    }
}

/// One normalization step: a whitespace character only arms a pending
/// separator (and only once some text came before); any other character
/// flushes the separator and is appended lowercased.
pub open spec fn norm_step(acc: Seq<char>, pending: bool, c: char) -> (Seq<char>, bool) {
    if is_space_char(c) {
        (acc, acc.len() > 0)
    } else if pending {
        (acc + seq![' ', lower_char(c)], false)
    } else {
        (acc.push(lower_char(c)), false)
    }
}

pub open spec fn norm_steps(s: Seq<char>) -> (Seq<char>, bool)
    decreases s.len(),
{
    if s.len() == 0 {
        (Seq::empty(), false)
    } else {
        let p = norm_steps(s.drop_last());
        norm_step(p.0, p.1, s.last())
    }
}

/// The normalized form of `s`: lowercased, whitespace runs collapsed to
/// single spaces, ends trimmed.
pub open spec fn normalized(s: Seq<char>) -> Seq<char> {
    norm_steps(s).0
}

/// Relies on `String::push`: appends one character at the end.
#[verifier::external_body]
fn push_char(s: &mut String, c: char)
    ensures
        final(s)@ == old(s)@.push(c),
{
    s.push(c);
}

/// Lowercases `s` and collapses every whitespace run into one ASCII space,
/// trimming both ends.
pub fn normalize_text(s: &str) -> (r: String)
    ensures
        r@ == normalized(s@),
{
    let n = s.unicode_len();
    let mut out = String::new();
    let mut pending = false;
    let mut i: usize = 0;
    while i < n
        invariant
            i <= n,
            n == s@.len(),
            out@ == norm_steps(s@.subrange(0, i as int)).0,
            pending == norm_steps(s@.subrange(0, i as int)).1,
        decreases n - i,
    {
        let ghost pre = s@.subrange(0, i as int);
        let c = s.get_char(i);
        if is_space(c) {
            pending = out.as_str().unicode_len() > 0;
        } else {
            if pending {
                push_char(&mut out, ' ');
            }
            push_char(&mut out, to_lower(c));
            pending = false;
        }
        proof {
            let post = s@.subrange(0, i + 1);
            assert(post.drop_last() =~= pre);
            assert(post.last() == s@[i as int]);
            assert(out@ =~= norm_steps(post).0);
        }
        i += 1;
    }
    proof {
        assert(s@.subrange(0, n as int) =~= s@);
    }
    out
}

/// The shape every `norm_steps` result has: only plain spaces as whitespace,
/// already lowercase, no leading space, no space followed by whitespace, no
/// trailing whitespace; the pending flag only arms once text exists.
pub open spec fn collapsed(acc: Seq<char>) -> bool {
    &&& forall|i: int| 0 <= i < acc.len() ==> lower_char(#[trigger] acc[i]) == acc[i]
    &&& forall|i: int| 0 <= i < acc.len() && is_space_char(#[trigger] acc[i]) ==> acc[i] == ' '
    &&& (acc.len() > 0 ==> acc[0] != ' ')
    &&& forall|i: int| 0 <= i < acc.len() - 1 && #[trigger] acc[i] == ' ' ==> !is_space_char(acc[i + 1])
    &&& (acc.len() > 0 ==> !is_space_char(acc.last()))
}

proof fn lemma_norm_steps_collapsed(s: Seq<char>)
    ensures
        collapsed(norm_steps(s).0),
        norm_steps(s).1 ==> norm_steps(s).0.len() > 0,
    decreases s.len(),
{
    if s.len() > 0 {
        lemma_norm_steps_collapsed(s.drop_last());
        let acc = norm_steps(s.drop_last()).0;
        let pending = norm_steps(s.drop_last()).1;
        let c = s.last();
        let acc2 = norm_steps(s).0;
        if is_space_char(c) {
        } else if pending {
            assert(acc2 =~= acc + seq![' ', lower_char(c)]);
            assert(acc2[acc.len() as int] == ' ');
            assert(acc2[acc.len() as int + 1] == lower_char(c));
            assert(!is_space_char(lower_char(c)));
            assert(forall|i: int| 0 <= i < acc.len() ==> acc2[i] == acc[i]);
        } else {
            assert(acc2 =~= acc.push(lower_char(c)));
            assert(!is_space_char(lower_char(c)));
            assert(forall|i: int| 0 <= i < acc.len() ==> acc2[i] == acc[i]);
        }
    }
}

proof fn lemma_norm_steps_fixed(s: Seq<char>)
    requires
        collapsed(s),
    ensures
        norm_steps(s) == (s, false),
    decreases s.len(),
{
    if s.len() > 0 {
        let t = s.drop_last();
        let c = s.last();
        if c == ' ' {
            // the last character of a collapsed sequence is never whitespace
            assert(is_space_char(s.last()));
            assert(false);
        }
        if t.len() > 0 && t.last() == ' ' {
            // a space inside s is followed by the non-space c, so t without
            // its trailing space is collapsed and rebuilding appends " c"
            let u = t.drop_last();
            assert forall|i: int| 0 <= i < u.len() - 1 && #[trigger] u[i] == ' ' implies
                !is_space_char(u[i + 1]) by {
                assert(u[i] == s[i] && u[i + 1] == s[i + 1]);
            }
            assert(u.len() > 0 ==> !is_space_char(u.last())) by {
                if u.len() > 0 && u.last() == ' ' {
                    assert(s[u.len() - 1] == ' ' && s[u.len() as int] == ' ');
                }
                if u.len() > 0 && is_space_char(u.last()) {
                    assert(u.last() == s[u.len() - 1]);
                }
            }
            assert(collapsed(u));
            lemma_norm_steps_fixed(u);
            assert(t =~= u.push(' '));
            assert(t.drop_last() =~= u);
            assert(norm_steps(t) == (u, true));
            assert(!is_space_char(c));
            assert(lower_char(c) == c);
            assert(norm_steps(s).0 =~= s);
        } else {
            assert forall|i: int| 0 <= i < t.len() - 1 && #[trigger] t[i] == ' ' implies
                !is_space_char(t[i + 1]) by {
                assert(t[i] == s[i] && t[i + 1] == s[i + 1]);
            }
            assert(t.len() > 0 ==> !is_space_char(t.last())) by {
                if t.len() > 0 && is_space_char(t.last()) {
                    assert(t.last() == s[t.len() - 1]);
                    assert(t.last() == ' ');
                }
            }
            assert(collapsed(t));
            lemma_norm_steps_fixed(t);
            assert(!is_space_char(c)) by {
                if is_space_char(c) {
                    assert(c == ' ');
                }
            }
            assert(lower_char(c) == c);
            assert(norm_steps(s).0 =~= s);
        }
    }
}

/// Normalization is idempotent: normalizing already-normalized text yields
/// the same text, so the fingerprint of a page is stable however often it is
/// recomputed.
pub proof fn lemma_normalize_idempotent(s: Seq<char>)
    ensures
        normalized(normalized(s)) == normalized(s),
{
    lemma_norm_steps_collapsed(s);
    lemma_norm_steps_fixed(normalized(s));
}

/// What the HTML text extraction returns for a given document: the text
/// fragments of every element under `body` except `script` elements, in
/// document order; a function of the input text alone.
pub uninterp spec fn extracted_parts(html: Seq<char>) -> Seq<Seq<char>>;

/// Relies on `scraper::Html::parse_document`, `scraper::Selector::parse` and
/// `ElementRef::text`: parses the document, selects every element under
/// `body` except `script` elements, and lists their text fragments in
/// document order. The parse never fails (it recovers from any malformed
/// input), the constant selector always parses, and the result is
/// deterministic in the input text.
#[verifier::external_body]
fn extract_body_parts(html: &str) -> (r: Vec<String>)
    ensures
        r.deep_view() == extracted_parts(html@),
{
    let document = scraper::Html::parse_document(html);
    let selector = scraper::Selector::parse("body *:not(script)").unwrap();
    document.select(&selector).flat_map(|e| e.text()).map(|t| t.to_string()).collect()
}

/// The fragments joined with single spaces.
pub open spec fn spec_join_spaces(parts: Seq<Seq<char>>) -> Seq<char>
    decreases parts.len(),
{
    if parts.len() == 0 {
        Seq::empty()
    } else if parts.len() == 1 {
        parts[0]
    } else {
        spec_join_spaces(parts.drop_last()) + seq![' '] + parts.last()
    }
}

/// The extracted body text of a document: its fragments, space-separated.
pub open spec fn extracted_text(html: Seq<char>) -> Seq<char> {
    spec_join_spaces(extracted_parts(html))
}

/// Joins text fragments with single spaces.
fn join_spaces(parts: &Vec<String>) -> (r: String)
    ensures
        r@ == spec_join_spaces(parts.deep_view()),
{
    let n = parts.len();
    let mut out = String::new();
    let mut i: usize = 0;
    proof {
        assert(parts.deep_view().subrange(0, 0) =~= Seq::<Seq<char>>::empty());
    }
    while i < n
        invariant
            i <= n == parts@.len(),
            n == parts.deep_view().len(),
            out@ == spec_join_spaces(parts.deep_view().subrange(0, i as int)),
            forall|j: int| 0 <= j < n ==> parts.deep_view()[j] == #[trigger] parts@[j]@,
        decreases n - i,
    {
        let ghost pre = parts.deep_view().subrange(0, i as int);
        if i > 0 {
            push_char(&mut out, ' ');
        }
        out.append(parts[i].as_str());
        proof {
            let post = parts.deep_view().subrange(0, i + 1);
            assert(post.drop_last() =~= pre);
            assert(post.last() == parts.deep_view()[i as int]);
            if i == 0 {
                assert(post.len() == 1);
                assert(out@ =~= spec_join_spaces(post));
            } else {
                assert(out@ =~= spec_join_spaces(post));
            }
        }
        i += 1;
    }
    proof {
        assert(parts.deep_view().subrange(0, n as int) =~= parts.deep_view());
    }
    out
}

/// Reduces raw HTML to its normalized body text, the page's change-detection
/// fingerprint: the selected elements' text fragments, space-separated, then
/// normalized.
pub fn parse_html_text(html: &str) -> (r: String)
    ensures
        r@ == normalized(extracted_text(html@)),
{
    let parts = extract_body_parts(html);
    let t = join_spaces(&parts);
    normalize_text(t.as_str())
}

} // verus!
