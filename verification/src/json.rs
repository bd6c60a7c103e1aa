//! The serialized form of a subscription record, as it is stored in the
//! registry: a JSON object of the four fields, in declaration order, with
//! quote and backslash escaped in field values.
//!
//! Both directions are verified: the writer against `spec_sub_json`, the
//! parser against `spec_parse_sub`, and parsing a written record gives the
//! record back (`lemma_sub_json_roundtrip`).

use vstd::prelude::*;

use crate::Subscription;
use crate::encode::push_char;
use crate::kv::spec_has_prefix;

verus! {

/// How one character appears inside a JSON string value.
pub open spec fn esc_char(c: char) -> Seq<char> {
    if c == '"' || c == '\\' {
        seq!['\\', c]
    } else {
        seq![c]
    }
}

/// A field value with quote and backslash escaped.
pub open spec fn esc(s: Seq<char>) -> Seq<char>
    decreases s.len(),
{
    if s.len() == 0 {
        Seq::empty()
    } else {
        esc_char(s[0]) + esc(s.skip(1))
    }
}

proof fn lemma_esc_push(s: Seq<char>, c: char)
    ensures
        esc(s.push(c)) == esc(s) + esc_char(c),
    decreases s.len(),
{
    if s.len() == 0 {
        assert(s.push(c)[0] == c);
        assert(s.push(c).skip(1) =~= Seq::<char>::empty());
        assert(esc(s.push(c)) == esc_char(c) + esc(Seq::<char>::empty()));
        assert(esc_char(c) + Seq::<char>::empty() =~= esc_char(c));
        assert(esc(s) + esc_char(c) =~= esc_char(c));
    } else {
        assert(s.push(c)[0] == s[0]);
        assert(s.push(c).skip(1) =~= s.skip(1).push(c));
        lemma_esc_push(s.skip(1), c);
        assert(esc(s.push(c)) =~= esc(s) + esc_char(c));
    }
}

/// The stored record text for the four subscription fields.
pub open spec fn spec_sub_json(
    diff: Seq<char>,
    endpoint: Seq<char>,
    auth: Seq<char>,
    p256dh: Seq<char>,
) -> Seq<char> {
    "{\"diff\":\""@ + esc(diff) + "\",\"endpoint\":\""@ + esc(endpoint) + "\",\"auth\":\""@ + esc(
        auth,
    ) + "\",\"p256dh\":\""@ + esc(p256dh) + "\"}"@
}

/// Appends `esc(s@)` to `out`.
pub(crate) fn append_escaped(out: &mut String, s: &str)
    ensures
        final(out)@ == old(out)@ + esc(s@),
{
    let n = s.unicode_len();
    let mut i: usize = 0;
    proof {
        assert(out@ =~= old(out)@ + esc(s@.subrange(0, 0)));
    }
    while i < n
        invariant
            i <= n,
            n == s@.len(),
            out@ == old(out)@ + esc(s@.subrange(0, i as int)),
        decreases n - i,
    {
        let ghost pre = s@.subrange(0, i as int);
        let c = s.get_char(i);
        if c == '"' || c == '\\' {
            push_char(out, '\\');
            push_char(out, c);
        } else {
            push_char(out, c);
        }
        proof {
            assert(s@.subrange(0, i + 1) =~= pre.push(s@[i as int]));
            lemma_esc_push(pre, s@[i as int]);
            assert(out@ =~= old(out)@ + esc(s@.subrange(0, i + 1)));
        }
        i += 1;
    }
    proof {
        assert(s@.subrange(0, n as int) =~= s@);
    }
}

/// Serializes a subscription to its stored record text.
pub fn write_sub_json(sub: &Subscription) -> (r: String)
    ensures
        r@ == spec_sub_json(sub.diff@, sub.endpoint@, sub.auth@, sub.p256dh@),
{
    let mut out = String::from_str("{\"diff\":\"");
    append_escaped(&mut out, sub.diff.as_str());
    out.append("\",\"endpoint\":\"");
    append_escaped(&mut out, sub.endpoint.as_str());
    out.append("\",\"auth\":\"");
    append_escaped(&mut out, sub.auth.as_str());
    out.append("\",\"p256dh\":\"");
    append_escaped(&mut out, sub.p256dh.as_str());
    out.append("\"}");
    proof {
        assert(out@ =~= spec_sub_json(sub.diff@, sub.endpoint@, sub.auth@, sub.p256dh@));
    }
    out
}

/// Reads one escaped string value up to and including its closing quote;
/// yields the unescaped content and the rest of the input.
pub open spec fn spec_scan_string(s: Seq<char>) -> Option<(Seq<char>, Seq<char>)>
    decreases s.len(),
{
    if s.len() == 0 {
        None
    } else if s[0] == '"' {
        Some((Seq::empty(), s.skip(1)))
    } else if s[0] == '\\' {
        if s.len() >= 2 && (s[1] == '"' || s[1] == '\\') {
            match spec_scan_string(s.skip(2)) {
                Some(p) => Some((seq![s[1]] + p.0, p.1)),
                None => None,
            }
        } else {
            None
        }
    } else {
        match spec_scan_string(s.skip(1)) {
            Some(p) => Some((seq![s[0]] + p.0, p.1)),
            None => None,
        }
    }
}

/// Scanning an escaped value consumes exactly its encoding.
proof fn lemma_scan_esc(x: Seq<char>, rest: Seq<char>)
    ensures
        spec_scan_string(esc(x) + rest) == match spec_scan_string(rest) {
            Some(p) => Some((x + p.0, p.1)),
            None => None::<(Seq<char>, Seq<char>)>,
        },
    decreases x.len(),
{
    if x.len() == 0 {
        assert(esc(x) + rest =~= rest);
        match spec_scan_string(rest) {
            Some(p) => {
                assert(x + p.0 =~= p.0);
            },
            None => {},
        }
    } else {
        let e = esc(x) + rest;
        lemma_scan_esc(x.skip(1), rest);
        if x[0] == '"' || x[0] == '\\' {
            assert(e[0] == '\\');
            assert(e[1] == x[0]);
            assert(e.skip(2) =~= esc(x.skip(1)) + rest);
            match spec_scan_string(esc(x.skip(1)) + rest) {
                Some(p) => {
                    assert(seq![x[0]] + (x.skip(1) + p.0) =~= x + p.0);
                },
                None => {},
            }
        } else {
            assert(e[0] == x[0]);
            assert(e[0] != '"' && e[0] != '\\');
            assert(e.skip(1) =~= esc(x.skip(1)) + rest);
            match spec_scan_string(esc(x.skip(1)) + rest) {
                Some(p) => {
                    assert(seq![x[0]] + (x.skip(1) + p.0) =~= x + p.0);
                },
                None => {},
            }
        }
    }
}

/// The record parse: each literal in turn, a scanned value after each
/// opening quote, and nothing but the closing brace at the end.
pub open spec fn spec_parse_sub(s: Seq<char>) -> Option<(Seq<char>, Seq<char>, Seq<char>, Seq<char>)> {
    if !spec_has_prefix(s, "{\"diff\":\""@) {
        None
    } else {
        match spec_scan_string(s.skip("{\"diff\":\""@.len() as int)) {
            None => None,
            Some(d) => if !spec_has_prefix(d.1, ",\"endpoint\":\""@) {
                None
            } else {
                match spec_scan_string(d.1.skip(",\"endpoint\":\""@.len() as int)) {
                    None => None,
                    Some(e) => if !spec_has_prefix(e.1, ",\"auth\":\""@) {
                        None
                    } else {
                        match spec_scan_string(e.1.skip(",\"auth\":\""@.len() as int)) {
                            None => None,
                            Some(a) => if !spec_has_prefix(a.1, ",\"p256dh\":\""@) {
                                None
                            } else {
                                match spec_scan_string(a.1.skip(",\"p256dh\":\""@.len() as int)) {
                                    None => None,
                                    Some(p) => if p.1 == "}"@ {
                                        Some((d.0, e.0, a.0, p.0))
                                    } else {
                                        None
                                    },
                                }
                            },
                        }
                    },
                }
            },
        }
    }
}

/// Parsing a written record yields exactly the record's fields.
#[verifier::rlimit(100)]
pub proof fn lemma_sub_json_roundtrip(
    diff: Seq<char>,
    endpoint: Seq<char>,
    auth: Seq<char>,
    p256dh: Seq<char>,
)
    ensures
        spec_parse_sub(spec_sub_json(diff, endpoint, auth, p256dh)) == Some(
            (diff, endpoint, auth, p256dh),
        ),
{
    let s = spec_sub_json(diff, endpoint, auth, p256dh);
    reveal_strlit("{\"diff\":\"");
    reveal_strlit("\",\"endpoint\":\"");
    reveal_strlit("\",\"auth\":\"");
    reveal_strlit("\",\"p256dh\":\"");
    reveal_strlit("\"}");
    reveal_strlit(",\"endpoint\":\"");
    reveal_strlit(",\"auth\":\"");
    reveal_strlit(",\"p256dh\":\"");
    reveal_strlit("}");
    let r1 = "\",\"endpoint\":\""@ + esc(endpoint) + "\",\"auth\":\""@ + esc(auth)
        + "\",\"p256dh\":\""@ + esc(p256dh) + "\"}"@;
    let r2 = "\",\"auth\":\""@ + esc(auth) + "\",\"p256dh\":\""@ + esc(p256dh) + "\"}"@;
    let r3 = "\",\"p256dh\":\""@ + esc(p256dh) + "\"}"@;
    let r4 = "\"}"@;
    assert(spec_has_prefix(s, "{\"diff\":\""@)) by {
        assert(s.subrange(0, 9) =~= "{\"diff\":\""@);
    }
    assert(s.skip(9) =~= esc(diff) + (seq!['"'] + (",\"endpoint\":\""@ + esc(endpoint)
        + "\",\"auth\":\""@ + esc(auth) + "\",\"p256dh\":\""@ + esc(p256dh) + "\"}"@)));
    lemma_scan_esc(diff, seq!['"'] + (",\"endpoint\":\""@ + esc(endpoint) + "\",\"auth\":\""@
        + esc(auth) + "\",\"p256dh\":\""@ + esc(p256dh) + "\"}"@));
    let t1 = ",\"endpoint\":\""@ + esc(endpoint) + "\",\"auth\":\""@ + esc(auth)
        + "\",\"p256dh\":\""@ + esc(p256dh) + "\"}"@;
    assert((seq!['"'] + t1)[0] == '"');
    assert((seq!['"'] + t1).skip(1) =~= t1);
    assert(spec_scan_string(s.skip(9)) == Some((diff, t1)));
    assert(spec_has_prefix(t1, ",\"endpoint\":\""@)) by {
        assert(t1.subrange(0, 13) =~= ",\"endpoint\":\""@);
    }
    let t2 = ",\"auth\":\""@ + esc(auth) + "\",\"p256dh\":\""@ + esc(p256dh) + "\"}"@;
    assert(t1.skip(13) =~= esc(endpoint) + (seq!['"'] + t2));
    lemma_scan_esc(endpoint, seq!['"'] + t2);
    assert((seq!['"'] + t2)[0] == '"');
    assert((seq!['"'] + t2).skip(1) =~= t2);
    assert(spec_scan_string(t1.skip(13)) == Some((endpoint, t2)));
    assert(spec_has_prefix(t2, ",\"auth\":\""@)) by {
        assert(t2.subrange(0, 9) =~= ",\"auth\":\""@);
    }
    let t3 = ",\"p256dh\":\""@ + esc(p256dh) + "\"}"@;
    assert(t2.skip(9) =~= esc(auth) + (seq!['"'] + t3));
    lemma_scan_esc(auth, seq!['"'] + t3);
    assert((seq!['"'] + t3)[0] == '"');
    assert((seq!['"'] + t3).skip(1) =~= t3);
    assert(spec_scan_string(t2.skip(9)) == Some((auth, t3)));
    assert(spec_has_prefix(t3, ",\"p256dh\":\""@)) by {
        assert(t3.subrange(0, 11) =~= ",\"p256dh\":\""@);
    }
    let t4 = "}"@;
    assert(t3.skip(11) =~= esc(p256dh) + (seq!['"'] + t4));
    lemma_scan_esc(p256dh, seq!['"'] + t4);
    assert((seq!['"'] + t4)[0] == '"');
    assert((seq!['"'] + t4).skip(1) =~= t4);
    assert(spec_scan_string(t3.skip(11)) == Some((p256dh, t4)));
}

/// True where `s@` continues with `lit@` at position `i`.
fn lit_at(s: &str, i: usize, lit: &str) -> (r: bool)
    requires
        i <= s@.len(),
    ensures
        r == spec_has_prefix(s@.skip(i as int), lit@),
{
    let n = s.unicode_len();
    let m = lit.unicode_len();
    if m > n - i {
        return false;
    }
    let mut k: usize = 0;
    while k < m
        invariant
            k <= m,
            i + m <= n,
            n == s@.len(),
            m == lit@.len(),
            forall|j: int| 0 <= j < k ==> s@[i + j] == lit@[j],
        decreases m - k,
    {
        if s.get_char(i + k) != lit.get_char(k) {
            return false;
        }
        k += 1;
    }
    proof {
        assert(s@.skip(i as int).subrange(0, lit@.len() as int) =~= lit@);
    }
    true
}

/// Reads one escaped string value starting at `i`; on success yields the
/// content and the index just past the closing quote.
fn scan_string(s: &str, i: usize) -> (r: Option<(String, usize)>)
    requires
        i <= s@.len(),
    ensures
        r is Some <==> spec_scan_string(s@.skip(i as int)) is Some,
        r matches Some(p) ==> i <= p.1 <= s@.len() && spec_scan_string(s@.skip(i as int)) == Some(
            (p.0@, s@.skip(p.1 as int)),
        ),
{
    let n = s.unicode_len();
    let mut out = String::new();
    let mut j: usize = i;
    loop
        invariant
            i <= j <= n,
            n == s@.len(),
            s@.subrange(i as int, j as int) == esc(out@),
        decreases n - j,
    {
        proof {
            lemma_scan_esc(out@, s@.skip(j as int));
            assert(esc(out@) + s@.skip(j as int) =~= s@.skip(i as int));
        }
        if j >= n {
            return None;
        }
        let c = s.get_char(j);
        if c == '"' {
            proof {
                assert(s@.skip(j as int)[0] == '"');
                assert(s@.skip(j as int).skip(1) =~= s@.skip(j + 1));
                assert(out@ + Seq::<char>::empty() =~= out@);
            }
            return Some((out, j + 1));
        } else if c == '\\' {
            if j + 1 >= n {
                proof {
                    assert(s@.skip(j as int).len() == 1);
                }
                return None;
            }
            let e = s.get_char(j + 1);
            if e == '"' || e == '\\' {
                let ghost pre = out@;
                push_char(&mut out, e);
                proof {
                    lemma_esc_push(pre, e);
                    assert(s@.subrange(i as int, j + 2) =~= s@.subrange(i as int, j as int)
                        + seq!['\\', e]);
                    assert(esc(out@) =~= esc(pre) + seq!['\\', e]);
                    assert(s@.subrange(i as int, j + 2) == esc(out@));
                }
                j += 2;
            } else {
                proof {
                    assert(s@.skip(j as int)[0] == '\\');
                    assert(s@.skip(j as int)[1] == e);
                }
                return None;
            }
        } else {
            let ghost pre = out@;
            push_char(&mut out, c);
            proof {
                lemma_esc_push(pre, c);
                assert(s@.subrange(i as int, j + 1) =~= s@.subrange(i as int, j as int) + seq![c]);
                assert(esc_char(c) =~= seq![c]);
                assert(esc(out@) =~= esc(pre) + seq![c]);
                assert(s@.subrange(i as int, j + 1) == esc(out@));
            }
            j += 1;
        }
    }
}

/// Parses a stored record; succeeds exactly on the texts `spec_parse_sub`
/// accepts, and yields its fields.
#[verifier::rlimit(100)]
pub fn parse_sub_json(s: &str) -> (r: Option<Subscription>)
    ensures
        r is Some <==> spec_parse_sub(s@) is Some,
        r matches Some(sub) ==> spec_parse_sub(s@) == Some(
            (sub.diff@, sub.endpoint@, sub.auth@, sub.p256dh@),
        ),
{
    let n = s.unicode_len();
    if !lit_at(s, 0, "{\"diff\":\"") {
        proof {
            assert(s@.skip(0) =~= s@);
        }
        return None;
    }
    proof {
        reveal_strlit("{\"diff\":\"");
        assert(s@.skip(0) =~= s@);
    }
    let d = match scan_string(s, 9) {
        None => {
            return None;
        },
        Some(p) => p,
    };
    if !lit_at(s, d.1, ",\"endpoint\":\"") {
        return None;
    }
    proof {
        reveal_strlit(",\"endpoint\":\"");
        assert(s@.skip(d.1 as int).skip(13) =~= s@.skip(d.1 + 13));
    }
    let e = match scan_string(s, d.1 + 13) {
        None => {
            return None;
        },
        Some(p) => p,
    };
    if !lit_at(s, e.1, ",\"auth\":\"") {
        return None;
    }
    proof {
        reveal_strlit(",\"auth\":\"");
        assert(s@.skip(e.1 as int).skip(9) =~= s@.skip(e.1 + 9));
    }
    let a = match scan_string(s, e.1 + 9) {
        None => {
            return None;
        },
        Some(p) => p,
    };
    if !lit_at(s, a.1, ",\"p256dh\":\"") {
        return None;
    }
    proof {
        reveal_strlit(",\"p256dh\":\"");
        assert(s@.skip(a.1 as int).skip(11) =~= s@.skip(a.1 + 11));
    }
    let p = match scan_string(s, a.1 + 11) {
        None => {
            return None;
        },
        Some(q) => q,
    };
    if !(p.1 < n && p.1 + 1 == n && lit_at(s, p.1, "}")) {
        proof {
            reveal_strlit("}");
            if spec_has_prefix(s@.skip(p.1 as int), "}"@) && s@.skip(p.1 as int).len() == 1 {
                assert(s@.skip(p.1 as int) =~= "}"@);
            }
            if s@.skip(p.1 as int) == "}"@ {
                assert(s@.skip(p.1 as int).len() == 1);
                assert(spec_has_prefix(s@.skip(p.1 as int), "}"@)) by {
                    assert(s@.skip(p.1 as int).subrange(0, 1) =~= "}"@);
                }
            }
        }
        return None;
    }
    proof {
        reveal_strlit("}");
        assert(s@.skip(p.1 as int) =~= "}"@);
    }
    Some(Subscription { diff: d.0, endpoint: e.0, auth: a.0, p256dh: p.0 })
}

} // verus!
