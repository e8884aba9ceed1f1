//! Core text machinery for the wire codec.
//!
//! Every protocol message travels as one line of structured text.  String
//! payloads are quoted, with backslash escapes for the three characters
//! that would break quoting or framing (`\\`, `"`, and the line
//! delimiter).  The spec functions here define the encoding; the exec
//! functions produce it and parse it back, and their contracts say that
//! parsing accepts exactly the encodings and nothing else.
use vstd::prelude::*;

verus! {

/// Characters that must be escaped inside a quoted payload.
pub open spec fn is_special(c: char) -> bool {
    c == '\\' || c == '"' || c == '\n'
}

/// Escape of a single payload character.
pub open spec fn esc_char(c: char) -> Seq<char> {
    if c == '\\' {
        seq!['\\', '\\']
    } else if c == '"' {
        seq!['\\', '"']
    } else if c == '\n' {
        seq!['\\', 'n']
    } else {
        seq![c]
    }
}

/// Escape of a whole payload string.
pub open spec fn esc(s: Seq<char>) -> Seq<char>
    decreases s.len(),
{
    if s.len() == 0 {
        Seq::empty()
    } else {
        esc_char(s[0]) + esc(s.skip(1))
    }
}

/// A quoted payload string as it stands on the wire.
pub open spec fn quote(s: Seq<char>) -> Seq<char> {
    seq!['"'] + esc(s) + seq!['"']
}

/// The quoted form of `v` occurs in `s` at position `i`.
pub open spec fn qstr_at(s: Seq<char>, i: int, v: Seq<char>) -> bool {
    &&& 0 <= i
    &&& i + quote(v).len() <= s.len()
    &&& s.subrange(i, i + quote(v).len() as int) == quote(v)
}

/// Wire form of a boolean.
pub open spec fn enc_bool(b: bool) -> Seq<char> {
    if b {
        seq!['t', 'r', 'u', 'e']
    } else {
        seq!['f', 'a', 'l', 's', 'e']
    }
}

/// The wire form of `b` occurs in `s` at position `i`.
pub open spec fn bool_at(s: Seq<char>, i: int, b: bool) -> bool {
    &&& 0 <= i
    &&& i + enc_bool(b).len() <= s.len()
    &&& s.subrange(i, i + enc_bool(b).len() as int) == enc_bool(b)
}

/// Views of a sequence of strings, for talking about lists of payloads.
pub open spec fn strs_view(l: Seq<String>) -> Seq<Seq<char>> {
    l.map_values(|x: String| x@)
}

/// The view list is as long as the string list.
pub broadcast proof fn lemma_strs_view_len(l: Seq<String>)
    ensures
        #[trigger] strs_view(l).len() == l.len(),
{
}

/// Each entry of the view list is the view of the string there.
pub broadcast proof fn lemma_strs_view_index(l: Seq<String>, i: int)
    requires
        0 <= i < l.len(),
    ensures
        #[trigger] strs_view(l)[i] == l[i]@,
{
}

/// Wire form of the second and later elements of a list: `,"x"` each.
pub open spec fn enc_list_items(l: Seq<Seq<char>>) -> Seq<char>
    decreases l.len(),
{
    if l.len() == 0 {
        Seq::empty()
    } else {
        seq![','] + quote(l[0]) + enc_list_items(l.skip(1))
    }
}

/// Wire form of a list of strings: `[]` or `["a","b"]`.
pub open spec fn enc_list(l: Seq<Seq<char>>) -> Seq<char> {
    if l.len() == 0 {
        seq!['[', ']']
    } else {
        seq!['['] + quote(l[0]) + enc_list_items(l.skip(1)) + seq![']']
    }
}

/// The wire form of list `l` occurs in `s` at position `i`.
pub open spec fn list_at(s: Seq<char>, i: int, l: Seq<Seq<char>>) -> bool {
    &&& 0 <= i
    &&& i + enc_list(l).len() <= s.len()
    &&& s.subrange(i, i + enc_list(l).len() as int) == enc_list(l)
}

/// The tail of a list (`,"x"` repeated, then `]`) occurs at position `i`.
pub open spec fn list_items_at(s: Seq<char>, i: int, l: Seq<Seq<char>>) -> bool {
    &&& 0 <= i
    &&& i + enc_list_items(l).len() + 1 <= s.len()
    &&& s.subrange(i, i + enc_list_items(l).len() + 1) == enc_list_items(l) + seq![']']
}

/// The escaped body of a quoted string, with its closing quote, occurs at `i`.
pub open spec fn qstr_tail_at(s: Seq<char>, i: int, v: Seq<char>) -> bool {
    &&& 0 <= i
    &&& i + esc(v).len() + 1 <= s.len()
    &&& s.subrange(i, i + esc(v).len() + 1) == esc(v) + seq!['"']
}

/// Basic shape facts about an escaped string.
pub proof fn lemma_esc_props(v: Seq<char>)
    ensures
        v.len() == 0 ==> esc(v) == Seq::<char>::empty(),
        v.len() > 0 ==> esc(v) == esc_char(v[0]) + esc(v.skip(1)),
        v.len() > 0 ==> esc(v).len() >= 1,
        v.len() > 0 ==> esc(v)[0] != '"' && esc(v)[0] != '\n',
        v.len() > 0 ==> (esc(v)[0] == '\\' <==> is_special(v[0])),
        v.len() > 0 && !is_special(v[0]) ==> esc(v)[0] == v[0],
{
    if v.len() > 0 {
        assert(esc(v) == esc_char(v[0]) + esc(v.skip(1)));
        assert(esc(v)[0] == esc_char(v[0])[0]);
    }
}

/// Escaping distributes over appending one character.
pub proof fn lemma_esc_snoc(v: Seq<char>, c: char)
    ensures
        esc(v.push(c)) == esc(v) + esc_char(c),
    decreases v.len(),
{
    if v.len() == 0 {
        assert(v.push(c)[0] == c);
        assert(v.push(c).skip(1) =~= Seq::<char>::empty());
        assert(esc(v.push(c)) == esc_char(c) + esc(v.push(c).skip(1)));
        assert(esc(v.push(c)) =~= esc_char(c));
        assert(esc(v) + esc_char(c) =~= esc_char(c));
    } else {
        assert(v.push(c)[0] == v[0]);
        assert(v.push(c).skip(1) =~= v.skip(1).push(c));
        lemma_esc_snoc(v.skip(1), c);
        assert(esc(v.push(c)) =~= esc(v) + esc_char(c));
    }
}

/// What the first characters of an escaped body with its closing quote
/// force about the payload, and where the rest of the payload stands.
pub proof fn lemma_qstr_tail_shape(s: Seq<char>, k: int, v: Seq<char>)
    requires
        qstr_tail_at(s, k, v),
    ensures
        k < s.len(),
        v.len() == 0 ==> s[k] == '"',
        v.len() > 0 ==> s[k] == esc(v)[0] && s[k] != '"' && s[k] != '\n',
        v.len() > 0 ==> (s[k] == '\\' <==> is_special(v[0])),
        v.len() > 0 && !is_special(v[0]) ==> s[k] == v[0],
        v.len() > 0 && is_special(v[0]) ==> k + 2 <= s.len() && s[k + 1] == esc_char(v[0])[1]
            && (s[k + 1] == '\\' || s[k + 1] == '"' || s[k + 1] == 'n') && (s[k + 1] == '\\'
            ==> v[0] == '\\') && (s[k + 1] == '"' ==> v[0] == '"') && (s[k + 1] == 'n' ==> v[0]
            == '\n'),
        v.len() > 0 ==> qstr_tail_at(s, k + esc_char(v[0]).len(), v.skip(1)),
{
    broadcast use vstd::seq::group_seq_lemmas_expensive;

    lemma_esc_props(v);
    let w = esc(v) + seq!['"'];
    let e = k + esc(v).len() + 1;
    assert(s.subrange(k, e) == w);
    assert(s[k] == s.subrange(k, e)[0]);
    if v.len() > 0 {
        let d = esc_char(v[0]).len();
        assert(1 <= d <= 2);
        assert(esc(v) == esc_char(v[0]) + esc(v.skip(1)));
        if is_special(v[0]) {
            assert(d == 2);
            assert(s[k + 1] == s.subrange(k, e)[1]);
            assert(s[k + 1] == esc_char(v[0])[1]);
        }
        assert(s.subrange(k + d, e) =~= esc(v.skip(1)) + seq!['"']);
        assert(qstr_tail_at(s, k + d, v.skip(1)));
    }
}

/// Determinism of the quoted-string grammar: if the same text reads as the
/// escaped body of `v1` and of `v2`, both followed by a closing quote, then
/// the bodies and the remainders agree.
#[verifier::rlimit(50)]
pub proof fn lemma_esc_ext(v1: Seq<char>, v2: Seq<char>, r1: Seq<char>, r2: Seq<char>)
    requires
        esc(v1) + seq!['"'] + r1 == esc(v2) + seq!['"'] + r2,
    ensures
        v1 == v2,
        r1 == r2,
    decreases v1.len(),
{
    broadcast use vstd::seq::group_seq_lemmas_expensive;

    let s = esc(v1) + seq!['"'] + r1;
    lemma_esc_props(v1);
    lemma_esc_props(v2);
    if v1.len() == 0 {
        assert(s[0] == '"');
        if v2.len() > 0 {
            assert(s[0] == esc(v2)[0]);
            assert(false);
        }
        assert(r1 =~= r2);
        assert(v1 =~= v2);
    } else if v2.len() == 0 {
        assert(s[0] == esc(v1)[0]);
        assert(s[0] == '"');
        assert(false);
    } else {
        let c1 = v1[0];
        let c2 = v2[0];
        assert(s[0] == esc_char(c1)[0]);
        assert(s[0] == esc_char(c2)[0]);
        if is_special(c1) {
            assert(esc_char(c1)[0] == '\\');
            assert(is_special(c2));
            assert(s[1] == esc_char(c1)[1]);
            assert(s[1] == esc_char(c2)[1]);
            assert(c1 == c2);
        } else {
            if is_special(c2) {
                assert(esc_char(c2)[0] == '\\');
                assert(esc_char(c1)[0] == c1);
                assert(c1 == '\\');
                assert(false);
            }
            assert(c1 == c2);
        }
        let d = esc_char(c1).len();
        assert(esc(v1.skip(1)) + seq!['"'] + r1 =~= s.skip(d as int));
        assert(esc(v2.skip(1)) + seq!['"'] + r2 =~= s.skip(d as int));
        lemma_esc_ext(v1.skip(1), v2.skip(1), r1, r2);
        assert(v1 =~= seq![c1] + v1.skip(1));
        assert(v2 =~= seq![c2] + v2.skip(1));
    }
}

/// Determinism of a full quoted string followed by arbitrary text.
pub proof fn lemma_quote_ext(v1: Seq<char>, v2: Seq<char>, r1: Seq<char>, r2: Seq<char>)
    requires
        quote(v1) + r1 == quote(v2) + r2,
    ensures
        v1 == v2,
        r1 == r2,
{
    let s = quote(v1) + r1;
    assert(esc(v1) + seq!['"'] + r1 =~= s.skip(1));
    assert(esc(v2) + seq!['"'] + r2 =~= s.skip(1));
    lemma_esc_ext(v1, v2, r1, r2);
}

/// Two quoted strings read at the same position are the same string.
pub proof fn lemma_qstr_at_unique(s: Seq<char>, i: int, v1: Seq<char>, v2: Seq<char>)
    requires
        qstr_at(s, i, v1),
        qstr_at(s, i, v2),
    ensures
        v1 == v2,
{
    let r1 = s.subrange(i + quote(v1).len() as int, s.len() as int);
    let r2 = s.subrange(i + quote(v2).len() as int, s.len() as int);
    assert(quote(v1) + r1 =~= s.subrange(i, s.len() as int));
    assert(quote(v2) + r2 =~= s.subrange(i, s.len() as int));
    lemma_quote_ext(v1, v2, r1, r2);
}

/// Copies the characters of a string slice into a vector.
pub fn str_to_chars(s: &str) -> (r: Vec<char>)
    ensures
        r@ == s@,
{
    let n: usize = s.unicode_len();
    let mut r: Vec<char> = Vec::new();
    let mut i: usize = 0;
    while i < n
        invariant
            i <= n,
            n == s@.len(),
            r@ == s@.subrange(0, i as int),
        decreases n - i,
    {
        r.push(s.get_char(i));
        i = i + 1;
        proof {
            assert(r@ =~= s@.subrange(0, i as int));
        }
    }
    proof {
        assert(r@ =~= s@);
    }
    r
}

/// Gathers a vector of characters back into a `String`.
///
/// Relies on `String`'s `FromIterator<char>` implementation: collecting
/// characters yields the string of exactly those characters in order.
#[verifier::external_body]
pub fn chars_to_string(v: &Vec<char>) -> (r: String)
    ensures
        r@ == v@,
{
    v.iter().collect()
}

/// Appends the escape of one character.
pub fn push_esc_char(out: &mut Vec<char>, c: char)
    ensures
        final(out)@ == old(out)@ + esc_char(c),
{
    if c == '\\' {
        out.push('\\');
        out.push('\\');
    } else if c == '"' {
        out.push('\\');
        out.push('"');
    } else if c == '\n' {
        out.push('\\');
        out.push('n');
    } else {
        out.push(c);
    }
    proof {
        assert(out@ =~= old(out)@ + esc_char(c));
    }
}

/// Appends the quoted form of `s`.
pub fn push_qstr(out: &mut Vec<char>, s: &str)
    ensures
        final(out)@ == old(out)@ + quote(s@),
{
    let n: usize = s.unicode_len();
    out.push('"');
    let mut i: usize = 0;
    while i < n
        invariant
            i <= n,
            n == s@.len(),
            out@ == old(out)@ + seq!['"'] + esc(s@.subrange(0, i as int)),
        decreases n - i,
    {
        let c = s.get_char(i);
        push_esc_char(out, c);
        proof {
            lemma_esc_snoc(s@.subrange(0, i as int), c);
            assert(s@.subrange(0, i as int).push(c) =~= s@.subrange(0, i + 1 as int));
        }
        i = i + 1;
    }
    out.push('"');
    proof {
        assert(s@.subrange(0, n as int) =~= s@);
        assert(out@ =~= old(out)@ + quote(s@));
    }
}

/// The list-tail encoding distributes over appending one element.
pub proof fn lemma_enc_list_items_snoc(l: Seq<Seq<char>>, x: Seq<char>)
    ensures
        enc_list_items(l.push(x)) == enc_list_items(l) + seq![','] + quote(x),
    decreases l.len(),
{
    broadcast use vstd::seq::group_seq_lemmas_expensive;

    if l.len() == 0 {
        assert(l.push(x)[0] == x);
        assert(l.push(x).skip(1) =~= Seq::<Seq<char>>::empty());
        assert(enc_list_items(l.push(x)) == seq![','] + quote(x) + enc_list_items(
            l.push(x).skip(1),
        ));
        assert(enc_list_items(l.push(x).skip(1)) == Seq::<char>::empty());
        assert(enc_list_items(l) == Seq::<char>::empty());
        assert(enc_list_items(l.push(x)) =~= enc_list_items(l) + seq![','] + quote(x));
    } else {
        assert(l.push(x)[0] == l[0]);
        assert(l.push(x).skip(1) =~= l.skip(1).push(x));
        lemma_enc_list_items_snoc(l.skip(1), x);
        assert(enc_list_items(l.push(x)) == seq![','] + quote(l[0]) + enc_list_items(
            l.skip(1).push(x),
        ));
        assert(enc_list_items(l.push(x)) == seq![','] + quote(l[0]) + (enc_list_items(l.skip(1))
            + seq![','] + quote(x)));
        assert(enc_list_items(l) == seq![','] + quote(l[0]) + enc_list_items(l.skip(1)));
        vstd::seq_lib::lemma_concat_associative(
            seq![','] + quote(l[0]),
            enc_list_items(l.skip(1)) + seq![','],
            quote(x),
        );
        vstd::seq_lib::lemma_concat_associative(
            seq![','] + quote(l[0]),
            enc_list_items(l.skip(1)),
            seq![','],
        );
        assert(seq![','] + quote(l[0]) + (enc_list_items(l.skip(1)) + seq![',']) == (seq![',']
            + quote(l[0]) + enc_list_items(l.skip(1))) + seq![',']);
        assert(enc_list_items(l.push(x)) == (seq![','] + quote(l[0]) + enc_list_items(l.skip(1)))
            + seq![','] + quote(x));
        assert(enc_list_items(l.push(x)) == enc_list_items(l) + seq![','] + quote(x));
    }
}

/// Appends the wire form of a list of strings.
pub fn push_list(out: &mut Vec<char>, items: &Vec<String>)
    ensures
        final(out)@ == old(out)@ + enc_list(strs_view(items@)),
{
    out.push('[');
    if items.len() == 0 {
        out.push(']');
        proof {
            assert(strs_view(items@).len() == 0);
            assert(out@ =~= old(out)@ + enc_list(strs_view(items@)));
        }
        return ;
    }
    push_qstr(out, items[0].as_str());
    let mut k: usize = 1;
    while k < items.len()
        invariant
            1 <= k <= items@.len(),
            strs_view(items@).len() == items@.len(),
            out@ == old(out)@ + seq!['['] + quote(items@[0]@) + enc_list_items(
                strs_view(items@).subrange(1, k as int),
            ),
        decreases items@.len() - k,
    {
        out.push(',');
        push_qstr(out, items[k].as_str());
        proof {
            lemma_enc_list_items_snoc(strs_view(items@).subrange(1, k as int), items@[k as int]@);
            assert(strs_view(items@).subrange(1, k as int).push(items@[k as int]@)
                =~= strs_view(items@).subrange(1, k + 1 as int));
            assert(out@ =~= old(out)@ + seq!['['] + quote(items@[0]@) + enc_list_items(
                strs_view(items@).subrange(1, k + 1 as int),
            ));
        }
        k = k + 1;
    }
    out.push(']');
    proof {
        let lv = strs_view(items@);
        assert(lv.subrange(1, items@.len() as int) =~= lv.skip(1));
        assert(lv[0] == items@[0]@);
        assert(out@ =~= old(out)@ + enc_list(lv));
    }
}

/// Appends the wire form of a boolean.
pub fn push_bool(out: &mut Vec<char>, b: bool)
    ensures
        final(out)@ == old(out)@ + enc_bool(b),
{
    if b {
        out.push('t');
        out.push('r');
        out.push('u');
        out.push('e');
    } else {
        out.push('f');
        out.push('a');
        out.push('l');
        out.push('s');
        out.push('e');
    }
    proof {
        assert(out@ =~= old(out)@ + enc_bool(b));
    }
}

/// Does the fixed text `pat` occur in `s` at position `i`?
pub fn parse_exact(s: &Vec<char>, i: usize, pat: &Vec<char>) -> (r: bool)
    requires
        i <= s@.len(),
    ensures
        r <==> (i + pat@.len() <= s@.len() && s@.subrange(
            i as int,
            i + pat@.len() as int,
        ) == pat@),
{
    let n: usize = s.len();
    let m: usize = pat.len();
    if n - i < m {
        proof {
            assert(!(i + pat@.len() <= s@.len()));
        }
        return false;
    }
    let mut k: usize = 0;
    while k < m
        invariant
            k <= m,
            m == pat@.len(),
            n == s@.len(),
            i + m <= n,
            forall|t: int| 0 <= t < k ==> s@[i + t] == pat@[t],
        decreases m - k,
    {
        if s[i + k] != pat[k] {
            proof {
                assert(s@.subrange(i as int, i + pat@.len() as int)[k as int] == s@[i + k]);
                assert(s@.subrange(i as int, i + pat@.len() as int) != pat@);
            }
            return false;
        }
        k = k + 1;
    }
    proof {
        assert(s@.subrange(i as int, i + pat@.len() as int) =~= pat@);
    }
    true
}

/// Reads the escaped body and closing quote of a quoted string starting at
/// `k`; returns the decoded payload and the position after the closing
/// quote.  Fails exactly when no payload's encoding stands there.
pub fn parse_qstr_tail(s: &Vec<char>, k: usize) -> (r: Option<(Vec<char>, usize)>)
    requires
        k <= s@.len(),
    ensures
        match r {
            Some(p) => {
                &&& k < p.1 <= s@.len()
                &&& p.1 - k == esc(p.0@).len() + 1
                &&& s@.subrange(k as int, p.1 as int) == esc(p.0@) + seq!['"']
            },
            None => forall|v: Seq<char>| !qstr_tail_at(s@, k as int, v),
        },
    decreases s@.len() - k,
{
    if k >= s.len() {
        proof {
            assert forall|v: Seq<char>| !qstr_tail_at(s@, k as int, v) by {
                if qstr_tail_at(s@, k as int, v) {
                    lemma_qstr_tail_shape(s@, k as int, v);
                }
            }
        }
        return None;
    }
    let c = s[k];
    if c == '"' {
        let v: Vec<char> = Vec::new();
        proof {
            assert(s@.subrange(k as int, k + 1 as int) =~= esc(v@) + seq!['"']);
        }
        return Some((v, k + 1));
    }
    if c == '\\' {
        if k + 1 >= s.len() {
            proof {
                assert forall|v: Seq<char>| !qstr_tail_at(s@, k as int, v) by {
                    if qstr_tail_at(s@, k as int, v) {
                        lemma_qstr_tail_shape(s@, k as int, v);
                    }
                }
            }
            return None;
        }
        let e = s[k + 1];
        let dec: char = if e == '\\' {
            '\\'
        } else if e == '"' {
            '"'
        } else if e == 'n' {
            '\n'
        } else {
            proof {
                assert forall|v: Seq<char>| !qstr_tail_at(s@, k as int, v) by {
                    if qstr_tail_at(s@, k as int, v) {
                        lemma_qstr_tail_shape(s@, k as int, v);
                    }
                }
            }
            return None;
        };
        match parse_qstr_tail(s, k + 2) {
            Some((mut v, j)) => {
                let ghost ov = v@;
                v.insert(0, dec);
                proof {
                    let w = v@;
                    assert(w[0] == dec);
                    assert(w.skip(1) =~= ov);
                    assert(esc(w) == esc_char(dec) + esc(w.skip(1)));
                    assert(s@.subrange(k as int, k + 2 as int) =~= esc_char(dec));
                    assert(s@.subrange(k as int, j as int) =~= s@.subrange(k as int, k + 2 as int)
                        + s@.subrange(k + 2 as int, j as int));
                    assert(s@.subrange(k as int, j as int) =~= esc(w) + seq!['"']);
                }
                Some((v, j))
            },
            None => {
                proof {
                    assert forall|v: Seq<char>| !qstr_tail_at(s@, k as int, v) by {
                        if qstr_tail_at(s@, k as int, v) {
                            lemma_qstr_tail_shape(s@, k as int, v);
                            assert(v.len() > 0 && is_special(v[0]) && v[0] == dec);
                            assert(qstr_tail_at(s@, k + 2 as int, v.skip(1)));
                        }
                    }
                }
                None
            },
        }
    } else if c == '\n' {
        proof {
            assert forall|v: Seq<char>| !qstr_tail_at(s@, k as int, v) by {
                if qstr_tail_at(s@, k as int, v) {
                    lemma_qstr_tail_shape(s@, k as int, v);
                }
            }
        }
        None
    } else {
        match parse_qstr_tail(s, k + 1) {
            Some((mut v, j)) => {
                let ghost ov = v@;
                v.insert(0, c);
                proof {
                    let w = v@;
                    assert(w[0] == c);
                    assert(w.skip(1) =~= ov);
                    assert(!is_special(c));
                    assert(esc_char(c) =~= seq![c]);
                    assert(esc(w) == esc_char(c) + esc(w.skip(1)));
                    assert(s@.subrange(k as int, k + 1 as int) =~= esc_char(c));
                    assert(s@.subrange(k as int, j as int) =~= s@.subrange(k as int, k + 1 as int)
                        + s@.subrange(k + 1 as int, j as int));
                    assert(s@.subrange(k as int, j as int) =~= esc(w) + seq!['"']);
                }
                Some((v, j))
            },
            None => {
                proof {
                    assert forall|v: Seq<char>| !qstr_tail_at(s@, k as int, v) by {
                        if qstr_tail_at(s@, k as int, v) {
                            lemma_qstr_tail_shape(s@, k as int, v);
                            assert(v.len() > 0 && !is_special(v[0]) && v[0] == c);
                            assert(qstr_tail_at(s@, k + 1 as int, v.skip(1)));
                        }
                    }
                }
                None
            },
        }
    }
}

/// A quoted string at `i` opens with a quote and carries its escaped body
/// right after it.
pub proof fn lemma_qstr_at_tail(s: Seq<char>, i: int, v: Seq<char>)
    requires
        qstr_at(s, i, v),
    ensures
        i < s.len(),
        s[i] == '"',
        qstr_tail_at(s, i + 1, v),
{
    broadcast use vstd::seq::group_seq_lemmas_expensive;

    let q = quote(v);
    assert(s.subrange(i, i + q.len() as int) == q);
    assert forall|t: int| 0 <= t < q.len() implies s[i + t] == q[t] by {
        assert(q[t] == s.subrange(i, i + q.len() as int)[t]);
    }
    assert(s[i] == q[0]);
    assert(s.subrange(i + 1, i + q.len() as int) =~= esc(v) + seq!['"']);
}

/// Reads a full quoted string at position `i`: opening quote, escaped body,
/// closing quote.  Fails exactly when no quoted string stands there.
pub fn parse_qstr(s: &Vec<char>, i: usize) -> (r: Option<(Vec<char>, usize)>)
    requires
        i <= s@.len(),
    ensures
        match r {
            Some(p) => {
                &&& i < p.1 <= s@.len()
                &&& p.1 - i == quote(p.0@).len()
                &&& s@.subrange(i as int, p.1 as int) == quote(p.0@)
            },
            None => forall|v: Seq<char>| !qstr_at(s@, i as int, v),
        },
{
    if i >= s.len() || s[i] != '"' {
        proof {
            assert forall|v: Seq<char>| !qstr_at(s@, i as int, v) by {
                if qstr_at(s@, i as int, v) {
                    lemma_qstr_at_tail(s@, i as int, v);
                }
            }
        }
        return None;
    }
    match parse_qstr_tail(s, i + 1) {
        Some((v, j)) => {
            proof {
                assert(s@.subrange(i as int, i + 1 as int) =~= seq!['"']);
                assert(s@.subrange(i as int, j as int) =~= s@.subrange(i as int, i + 1 as int)
                    + s@.subrange(i + 1 as int, j as int));
                assert(s@.subrange(i as int, j as int) =~= quote(v@));
            }
            Some((v, j))
        },
        None => {
            proof {
                assert forall|v: Seq<char>| !qstr_at(s@, i as int, v) by {
                    if qstr_at(s@, i as int, v) {
                        lemma_qstr_at_tail(s@, i as int, v);
                    }
                }
            }
            None
        },
    }
}

/// What the first characters of an encoded list tail force about the list,
/// and where the rest of the list stands.
pub proof fn lemma_list_items_shape(s: Seq<char>, k: int, l: Seq<Seq<char>>)
    requires
        list_items_at(s, k, l),
    ensures
        k < s.len(),
        l.len() == 0 ==> s[k] == ']',
        l.len() > 0 ==> s[k] == ',' && qstr_at(s, k + 1, l[0]) && list_items_at(
            s,
            k + 1 + quote(l[0]).len(),
            l.skip(1),
        ),
{
    broadcast use vstd::seq::group_seq_lemmas_expensive;

    let w = enc_list_items(l) + seq![']'];
    let e = k + enc_list_items(l).len() + 1;
    assert(s.subrange(k, e) == w);
    assert forall|t: int| 0 <= t < w.len() implies s[k + t] == w[t] by {
        assert(w[t] == s.subrange(k, e)[t]);
    }
    if l.len() == 0 {
        assert(s[k] == w[0]);
    } else {
        assert(enc_list_items(l) == seq![','] + quote(l[0]) + enc_list_items(l.skip(1)));
        assert(s[k] == w[0]);
        let q = quote(l[0]);
        assert(s.subrange(k + 1, k + 1 + q.len() as int) =~= q);
        assert(qstr_at(s, k + 1, l[0]));
        assert(s.subrange(k + 1 + q.len(), e) =~= enc_list_items(l.skip(1)) + seq![']']);
        assert(list_items_at(s, k + 1 + q.len(), l.skip(1)));
    }
}

/// Two encoded list tails read at the same position are the same list.
pub proof fn lemma_list_items_at_unique(s: Seq<char>, k: int, l1: Seq<Seq<char>>, l2: Seq<
    Seq<char>,
>)
    requires
        list_items_at(s, k, l1),
        list_items_at(s, k, l2),
    ensures
        l1 == l2,
    decreases l1.len(),
{
    lemma_list_items_shape(s, k, l1);
    lemma_list_items_shape(s, k, l2);
    if l1.len() == 0 {
        if l2.len() > 0 {
            assert(s[k] == ']');
        }
        assert(l1 =~= l2);
    } else if l2.len() == 0 {
        assert(s[k] == ']');
        assert(false);
    } else {
        lemma_qstr_at_unique(s, k + 1, l1[0], l2[0]);
        lemma_list_items_at_unique(s, k + 1 + quote(l1[0]).len(), l1.skip(1), l2.skip(1));
        assert(l1 =~= seq![l1[0]] + l1.skip(1));
        assert(l2 =~= seq![l2[0]] + l2.skip(1));
    }
}

/// What the first characters of an encoded list force about the list.
#[verifier::rlimit(60)]
pub proof fn lemma_list_shape(s: Seq<char>, i: int, l: Seq<Seq<char>>)
    requires
        list_at(s, i, l),
    ensures
        i + 2 <= s.len(),
        s[i] == '[',
        l.len() == 0 ==> s[i + 1] == ']',
        l.len() > 0 ==> s[i + 1] == '"' && qstr_at(s, i + 1, l[0]) && list_items_at(
            s,
            i + 1 + quote(l[0]).len(),
            l.skip(1),
        ),
{
    broadcast use vstd::seq::group_seq_lemmas_expensive;

    let w = enc_list(l);
    let e = i + w.len() as int;
    assert(s.subrange(i, e) == w);
    assert forall|t: int| 0 <= t < w.len() implies s[i + t] == w[t] by {
        assert(w[t] == s.subrange(i, e)[t]);
    }
    if l.len() == 0 {
        assert(s[i] == w[0]);
        assert(s[i + 1] == w[1]);
    } else {
        let q = quote(l[0]);
        assert(s[i] == w[0]);
        assert(s[i + 1] == w[1]);
        assert(q[0] == '"');
        assert(s.subrange(i + 1, i + 1 + q.len() as int) =~= q);
        assert(qstr_at(s, i + 1, l[0]));
        assert(s.subrange(i + 1 + q.len(), e) =~= enc_list_items(l.skip(1)) + seq![']']);
        assert(list_items_at(s, i + 1 + q.len(), l.skip(1)));
    }
}

/// Two encoded lists read at the same position are the same list.
pub proof fn lemma_list_at_unique(s: Seq<char>, i: int, l1: Seq<Seq<char>>, l2: Seq<Seq<char>>)
    requires
        list_at(s, i, l1),
        list_at(s, i, l2),
    ensures
        l1 == l2,
{
    lemma_list_shape(s, i, l1);
    lemma_list_shape(s, i, l2);
    if l1.len() == 0 {
        if l2.len() > 0 {
            assert(false);
        }
        assert(l1 =~= l2);
    } else if l2.len() == 0 {
        assert(false);
    } else {
        lemma_qstr_at_unique(s, i + 1, l1[0], l2[0]);
        lemma_list_items_at_unique(s, i + 1 + quote(l1[0]).len(), l1.skip(1), l2.skip(1));
        assert(l1 =~= seq![l1[0]] + l1.skip(1));
        assert(l2 =~= seq![l2[0]] + l2.skip(1));
    }
}

/// Two encoded booleans read at the same position are the same boolean.
pub proof fn lemma_bool_at_unique(s: Seq<char>, i: int, b1: bool, b2: bool)
    requires
        bool_at(s, i, b1),
        bool_at(s, i, b2),
    ensures
        b1 == b2,
{
    broadcast use vstd::seq::group_seq_lemmas_expensive;

    if b1 != b2 {
        assert(s[i] == s.subrange(i, i + enc_bool(b1).len() as int)[0]);
        assert(s[i] == s.subrange(i, i + enc_bool(b2).len() as int)[0]);
        assert(enc_bool(true)[0] == 't');
        assert(enc_bool(false)[0] == 'f');
        assert(false);
    }
}

/// Reads the second and later elements of a list, and its closing bracket,
/// starting at `k`.  Fails exactly when no list tail stands there.
#[verifier::rlimit(80)]
pub fn parse_list_items(s: &Vec<char>, k: usize) -> (r: Option<(Vec<String>, usize)>)
    requires
        k <= s@.len(),
    ensures
        match r {
            Some(p) => {
                &&& k < p.1 <= s@.len()
                &&& p.1 - k == enc_list_items(strs_view(p.0@)).len() + 1
                &&& s@.subrange(k as int, p.1 as int) == enc_list_items(strs_view(p.0@))
                    + seq![']']
            },
            None => forall|l: Seq<Seq<char>>| !list_items_at(s@, k as int, l),
        },
    decreases s@.len() - k,
{
    if k >= s.len() {
        proof {
            assert forall|l: Seq<Seq<char>>| !list_items_at(s@, k as int, l) by {
                if list_items_at(s@, k as int, l) {
                    lemma_list_items_shape(s@, k as int, l);
                }
            }
        }
        return None;
    }
    let c = s[k];
    if c == ']' {
        let items: Vec<String> = Vec::new();
        proof {
            assert(strs_view(items@) =~= Seq::<Seq<char>>::empty());
            assert(s@.subrange(k as int, k + 1 as int) =~= enc_list_items(strs_view(items@))
                + seq![']']);
        }
        return Some((items, k + 1));
    }
    if c != ',' {
        proof {
            assert forall|l: Seq<Seq<char>>| !list_items_at(s@, k as int, l) by {
                if list_items_at(s@, k as int, l) {
                    lemma_list_items_shape(s@, k as int, l);
                }
            }
        }
        return None;
    }
    match parse_qstr(s, k + 1) {
        Some((v, j)) => {
            match parse_list_items(s, j) {
                Some((mut items, j2)) => {
                    let ghost oi = items@;
                    let head = chars_to_string(&v);
                    items.insert(0, head);
                    proof {
                        broadcast use vstd::seq::group_seq_lemmas_expensive;

                        let lv = strs_view(items@);
                        assert(items@.skip(1) =~= oi);
                        assert(lv.len() == items@.len());
                        assert(lv[0] == v@);
                        assert(lv.skip(1) =~= strs_view(oi));
                        let a = seq![','] + quote(v@);
                        let x = enc_list_items(strs_view(oi));
                        let e = seq![']'];
                        assert(enc_list_items(lv) == a + x);
                        assert(s@.subrange(k as int, k + 1 as int) =~= seq![',']);
                        assert(s@.subrange(k as int, j2 as int) =~= s@.subrange(
                            k as int,
                            k + 1 as int,
                        ) + s@.subrange(k + 1 as int, j as int) + s@.subrange(
                            j as int,
                            j2 as int,
                        ));
                        assert(s@.subrange(k as int, j2 as int) == a + (x + e));
                        vstd::seq_lib::lemma_concat_associative(a, x, e);
                        assert(s@.subrange(k as int, j2 as int) == enc_list_items(lv)
                            + seq![']']);
                    }
                    Some((items, j2))
                },
                None => {
                    proof {
                        assert forall|l: Seq<Seq<char>>| !list_items_at(s@, k as int, l) by {
                            if list_items_at(s@, k as int, l) {
                                lemma_list_items_shape(s@, k as int, l);
                                lemma_qstr_at_unique(s@, k + 1 as int, l[0], v@);
                                assert(list_items_at(s@, j as int, l.skip(1)));
                            }
                        }
                    }
                    None
                },
            }
        },
        None => {
            proof {
                assert forall|l: Seq<Seq<char>>| !list_items_at(s@, k as int, l) by {
                    if list_items_at(s@, k as int, l) {
                        lemma_list_items_shape(s@, k as int, l);
                        assert(qstr_at(s@, k + 1 as int, l[0]));
                    }
                }
            }
            None
        },
    }
}

/// Reads a full encoded list at position `i`.  Fails exactly when no
/// encoded list stands there.
#[verifier::rlimit(80)]
pub fn parse_list(s: &Vec<char>, i: usize) -> (r: Option<(Vec<String>, usize)>)
    requires
        i <= s@.len(),
    ensures
        match r {
            Some(p) => {
                &&& i < p.1 <= s@.len()
                &&& p.1 - i == enc_list(strs_view(p.0@)).len()
                &&& s@.subrange(i as int, p.1 as int) == enc_list(strs_view(p.0@))
            },
            None => forall|l: Seq<Seq<char>>| !list_at(s@, i as int, l),
        },
{
    if i >= s.len() || s[i] != '[' {
        proof {
            assert forall|l: Seq<Seq<char>>| !list_at(s@, i as int, l) by {
                if list_at(s@, i as int, l) {
                    lemma_list_shape(s@, i as int, l);
                }
            }
        }
        return None;
    }
    if i + 1 < s.len() && s[i + 1] == ']' {
        let items: Vec<String> = Vec::new();
        proof {
            assert(strs_view(items@) =~= Seq::<Seq<char>>::empty());
            assert(s@.subrange(i as int, i + 2 as int) =~= enc_list(strs_view(items@)));
        }
        return Some((items, i + 2));
    }
    match parse_qstr(s, i + 1) {
        Some((v, j)) => {
            match parse_list_items(s, j) {
                Some((mut items, j2)) => {
                    let ghost oi = items@;
                    let head = chars_to_string(&v);
                    items.insert(0, head);
                    proof {
                        broadcast use vstd::seq::group_seq_lemmas_expensive;

                        let lv = strs_view(items@);
                        assert(items@.skip(1) =~= oi);
                        assert(lv.len() == items@.len());
                        assert(lv[0] == v@);
                        assert(lv.skip(1) =~= strs_view(oi));
                        let a = seq!['['] + quote(v@);
                        let x = enc_list_items(strs_view(oi));
                        let e = seq![']'];
                        assert(enc_list(lv) == (a + x) + e);
                        assert(s@.subrange(i as int, i + 1 as int) =~= seq!['[']);
                        assert(s@.subrange(i as int, j2 as int) =~= s@.subrange(
                            i as int,
                            i + 1 as int,
                        ) + s@.subrange(i + 1 as int, j as int) + s@.subrange(
                            j as int,
                            j2 as int,
                        ));
                        assert(s@.subrange(i as int, j2 as int) == a + (x + e));
                        vstd::seq_lib::lemma_concat_associative(a, x, e);
                        assert(s@.subrange(i as int, j2 as int) == enc_list(lv));
                    }
                    Some((items, j2))
                },
                None => {
                    proof {
                        assert forall|l: Seq<Seq<char>>| !list_at(s@, i as int, l) by {
                            if list_at(s@, i as int, l) {
                                lemma_list_shape(s@, i as int, l);
                                if l.len() == 0 {
                                    assert(s@[i + 1] == ']');
                                } else {
                                    lemma_qstr_at_unique(s@, i + 1 as int, l[0], v@);
                                    assert(list_items_at(s@, j as int, l.skip(1)));
                                }
                            }
                        }
                    }
                    None
                },
            }
        },
        None => {
            proof {
                assert forall|l: Seq<Seq<char>>| !list_at(s@, i as int, l) by {
                    if list_at(s@, i as int, l) {
                        lemma_list_shape(s@, i as int, l);
                        if l.len() == 0 {
                            assert(s@[i + 1] == ']');
                        } else {
                            assert(qstr_at(s@, i + 1 as int, l[0]));
                        }
                    }
                }
            }
            None
        },
    }
}

/// Builds the wire form of `true` as a vector.
pub fn lit_true() -> (r: Vec<char>)
    ensures
        r@ == enc_bool(true),
{
    let mut r: Vec<char> = Vec::new();
    r.push('t');
    r.push('r');
    r.push('u');
    r.push('e');
    proof {
        assert(r@ =~= enc_bool(true));
    }
    r
}

/// Builds the wire form of `false` as a vector.
pub fn lit_false() -> (r: Vec<char>)
    ensures
        r@ == enc_bool(false),
{
    let mut r: Vec<char> = Vec::new();
    r.push('f');
    r.push('a');
    r.push('l');
    r.push('s');
    r.push('e');
    proof {
        assert(r@ =~= enc_bool(false));
    }
    r
}

/// Reads an encoded boolean at position `i`.  Fails exactly when neither
/// boolean's wire form stands there.
pub fn parse_bool(s: &Vec<char>, i: usize) -> (r: Option<(bool, usize)>)
    requires
        i <= s@.len(),
    ensures
        match r {
            Some(p) => {
                &&& i < p.1 <= s@.len()
                &&& p.1 - i == enc_bool(p.0).len()
                &&& s@.subrange(i as int, p.1 as int) == enc_bool(p.0)
            },
            None => forall|b: bool| !bool_at(s@, i as int, b),
        },
{
    let n: usize = s.len();
    let t = lit_true();
    if parse_exact(s, i, &t) {
        proof {
            assert(t@.len() == 4);
            assert(i + 4 <= n);
        }
        return Some((true, i + 4));
    }
    let f = lit_false();
    if parse_exact(s, i, &f) {
        proof {
            assert(f@.len() == 5);
            assert(i + 5 <= n);
        }
        return Some((false, i + 5));
    }
    proof {
        assert(!bool_at(s@, i as int, true));
        assert(!bool_at(s@, i as int, false));
        assert forall|b: bool| !bool_at(s@, i as int, b) by {
            if b {
                assert(!bool_at(s@, i as int, true));
            } else {
                assert(!bool_at(s@, i as int, false));
            }
        }
    }
    None
}

} // verus!
