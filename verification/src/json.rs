use vstd::prelude::*;
use vstd::string::StrSliceExecFns;
use vstd::string::StringExecFns;
use crate::payload::LicensePayload;
use crate::payload::PayloadView;
use crate::text::chars_of;
use crate::text::push_char;

verus! {

/// The lowercase hex digit for a value below 16.
pub open spec fn hex_digit(n: int) -> char {
    if n == 0 { '0' } else if n == 1 { '1' } else if n == 2 { '2' } else if n == 3 { '3' }
    else if n == 4 { '4' } else if n == 5 { '5' } else if n == 6 { '6' } else if n == 7 { '7' }
    else if n == 8 { '8' } else if n == 9 { '9' } else if n == 10 { 'a' } else if n == 11 { 'b' }
    else if n == 12 { 'c' } else if n == 13 { 'd' } else if n == 14 { 'e' } else if n == 15 { 'f' }
    else { '0' }
}

/// The value of a lowercase hex digit, or -1 for any other character.
pub open spec fn hex_val(c: char) -> int {
    if c == '0' { 0 } else if c == '1' { 1 } else if c == '2' { 2 } else if c == '3' { 3 }
    else if c == '4' { 4 } else if c == '5' { 5 } else if c == '6' { 6 } else if c == '7' { 7 }
    else if c == '8' { 8 } else if c == '9' { 9 } else if c == 'a' { 10 } else if c == 'b' { 11 }
    else if c == 'c' { 12 } else if c == 'd' { 13 } else if c == 'e' { 14 } else if c == 'f' { 15 }
    else { -1 }
}

/// The character with a given code below 32.
pub open spec fn char_of_code(v: int) -> char {
    (v as u8) as char
}

/// How one character is written inside a canonical JSON string: quotes
/// and backslashes get a backslash escape, control characters a
/// `\u00..` escape, and every other character stands as itself.
pub open spec fn esc_char(c: char) -> Seq<char> {
    if c == '"' {
        seq!['\\', '"']
    } else if c == '\\' {
        seq!['\\', '\\']
    } else if (c as u32) < 32 {
        seq!['\\', 'u', '0', '0', hex_digit((c as u32) as int / 16), hex_digit((c as u32) as int % 16)]
    } else {
        seq![c]
    }
}

/// The canonical JSON writing of a whole string (without the enclosing
/// quotes).
pub open spec fn esc(s: Seq<char>) -> Seq<char>
    decreases s.len(),
{
    if s.len() == 0 {
        Seq::<char>::empty()
    } else {
        esc_char(s[0]) + esc(s.skip(1))
    }
}

pub open spec fn lit_obj_email() -> Seq<char> {
    seq!['{', '"', 'e', 'm', 'a', 'i', 'l', '"', ':', '"']
}

pub open spec fn lit_product_id() -> Seq<char> {
    seq![',', '"', 'p', 'r', 'o', 'd', 'u', 'c', 't', '_', 'i', 'd', '"', ':', '"']
}

pub open spec fn lit_plan() -> Seq<char> {
    seq![',', '"', 'p', 'l', 'a', 'n', '"', ':', '"']
}

pub open spec fn lit_issued_at() -> Seq<char> {
    seq![',', '"', 'i', 's', 's', 'u', 'e', 'd', '_', 'a', 't', '"', ':', '"']
}

pub open spec fn lit_expires_at() -> Seq<char> {
    seq![',', '"', 'e', 'x', 'p', 'i', 'r', 'e', 's', '_', 'a', 't', '"', ':']
}

pub open spec fn lit_null_end() -> Seq<char> {
    seq!['n', 'u', 'l', 'l', '}']
}

/// The tail of the canonical form after the `expires_at` key: `null` for
/// a license that never expires, else the quoted stamp.
pub open spec fn exp_tail(e: Option<Seq<char>>) -> Seq<char> {
    match e {
        None => lit_null_end(),
        Some(x) => seq!['"'] + esc(x) + seq!['"', '}'],
    }
}

/// The canonical JSON form of a payload: one object, fields in
/// declaration order, no whitespace, strings escaped by `esc`. This
/// exact character sequence is what gets base64-encoded and signed.
pub open spec fn canonical_json(p: PayloadView) -> Seq<char> {
    lit_obj_email() + esc(p.email) + seq!['"']
        + lit_product_id() + esc(p.product_id) + seq!['"']
        + lit_plan() + esc(p.plan) + seq!['"']
        + lit_issued_at() + esc(p.issued_at) + seq!['"']
        + lit_expires_at() + exp_tail(p.expires_at)
}

/// `exp_tail`, grouped so that each parsing step peels one syntactic
/// piece.
pub open spec fn exp_tail_nested(e: Option<Seq<char>>) -> Seq<char> {
    match e {
        None => lit_null_end(),
        Some(x) => seq!['"'] + (esc(x) + seq!['"'] + seq!['}']),
    }
}

/// `canonical_json`, grouped so that each parsing step peels one
/// syntactic piece.
pub open spec fn canonical_nested(p: PayloadView) -> Seq<char> {
    lit_obj_email() + (esc(p.email) + seq!['"'] + (lit_product_id() + (esc(p.product_id)
        + seq!['"'] + (lit_plan() + (esc(p.plan) + seq!['"'] + (lit_issued_at() + (esc(
        p.issued_at,
    ) + seq!['"'] + (lit_expires_at() + exp_tail_nested(p.expires_at)))))))))
}

/// The two groupings write the same characters.
#[verifier::rlimit(100)]
#[verifier::spinoff_prover]
pub proof fn lemma_canonical_nested(p: PayloadView)
    ensures
        canonical_json(p) == canonical_nested(p),
{
    assert(canonical_json(p) =~= canonical_nested(p));
}

/// Splitting a string into two concatenates their escaped forms.
pub proof fn lemma_esc_concat(a: Seq<char>, b: Seq<char>)
    ensures
        esc(a + b) == esc(a) + esc(b),
    decreases a.len(),
{
    if a.len() == 0 {
        assert(a + b =~= b);
        assert(esc(a) =~= Seq::<char>::empty());
        assert(esc(a) + esc(b) =~= esc(b));
    } else {
        assert((a + b).len() > 0);
        assert((a + b)[0] == a[0]);
        assert((a + b).skip(1) =~= a.skip(1) + b);
        lemma_esc_concat(a.skip(1), b);
        assert(esc(a + b) =~= esc_char(a[0]) + (esc(a.skip(1)) + esc(b)));
        assert(esc_char(a[0]) + (esc(a.skip(1)) + esc(b)) =~= (esc_char(a[0]) + esc(a.skip(1))) + esc(b));
    }
}

/// Writing one more character appends its escape.
pub proof fn lemma_esc_snoc(s: Seq<char>, i: int)
    requires
        0 <= i < s.len(),
    ensures
        esc(s.take(i + 1)) == esc(s.take(i)) + esc_char(s[i]),
{
    assert(s.take(i + 1) =~= s.take(i) + seq![s[i]]);
    lemma_esc_concat(s.take(i), seq![s[i]]);
    assert(seq![s[i]].skip(1) =~= Seq::<char>::empty());
    assert(esc(Seq::<char>::empty()) =~= Seq::<char>::empty());
    assert(esc(seq![s[i]]) == esc_char(s[i]) + esc(seq![s[i]].skip(1)));
    assert(esc_char(s[i]) + Seq::<char>::empty() =~= esc_char(s[i]));
    assert(esc(seq![s[i]]) =~= esc_char(s[i]));
}

/// Appends `esc(s@)` to `out`.
fn append_escaped(out: &mut String, s: &str)
    ensures
        final(out)@ == old(out)@ + esc(s@),
{
    let n: usize = s.unicode_len();
    let mut i: usize = 0;
    while i < n
        invariant
            n == s@.len(),
            i <= n,
            out@ == old(out)@ + esc(s@.take(i as int)),
        decreases n - i,
    {
        let c = s.get_char(i);
        proof {
            lemma_esc_snoc(s@, i as int);
        }
        if c == '"' {
            push_char(out, '\\');
            push_char(out, '"');
        } else if c == '\\' {
            push_char(out, '\\');
            push_char(out, '\\');
        } else if (c as u32) < 32 {
            let v: u32 = c as u32;
            push_char(out, '\\');
            push_char(out, 'u');
            push_char(out, '0');
            push_char(out, '0');
            push_char(out, hex_digit_exec((v / 16) as u8));
            push_char(out, hex_digit_exec((v % 16) as u8));
        } else {
            push_char(out, c);
        }
        proof {
            assert(out@ =~= old(out)@ + esc(s@.take(i as int + 1)));
        }
        i += 1;
    }
    proof {
        assert(s@.take(n as int) =~= s@);
    }
}

fn hex_digit_exec(n: u8) -> (c: char)
    requires
        n < 16,
    ensures
        c == hex_digit(n as int),
{
    if n == 0 { '0' } else if n == 1 { '1' } else if n == 2 { '2' } else if n == 3 { '3' }
    else if n == 4 { '4' } else if n == 5 { '5' } else if n == 6 { '6' } else if n == 7 { '7' }
    else if n == 8 { '8' } else if n == 9 { '9' } else if n == 10 { 'a' } else if n == 11 { 'b' }
    else if n == 12 { 'c' } else if n == 13 { 'd' } else if n == 14 { 'e' } else { 'f' }
}

/// Serialize a payload to its canonical JSON form. Deterministic: equal
/// payloads give the identical character sequence, which is what makes
/// the signature bind the claim byte-exactly.
pub fn encode_payload_json(p: &LicensePayload) -> (r: String)
    ensures
        r@ == canonical_json(p@),
{
    let mut out = String::new();
    proof {
        reveal_strlit("{\"email\":\"");
        reveal_strlit("\",\"product_id\":\"");
        reveal_strlit("\",\"plan\":\"");
        reveal_strlit("\",\"issued_at\":\"");
        reveal_strlit("\",\"expires_at\":");
        reveal_strlit("null}");
        reveal_strlit("\"");
        reveal_strlit("\"}");
        assert("{\"email\":\""@ =~= lit_obj_email());
        assert("\",\"product_id\":\""@ =~= seq!['"'] + lit_product_id());
        assert("\",\"plan\":\""@ =~= seq!['"'] + lit_plan());
        assert("\",\"issued_at\":\""@ =~= seq!['"'] + lit_issued_at());
        assert("\",\"expires_at\":"@ =~= seq!['"'] + lit_expires_at());
        assert("null}"@ =~= lit_null_end());
        assert("\""@ =~= seq!['"']);
        assert("\"}"@ =~= seq!['"', '}']);
    }
    out.append("{\"email\":\"");
    append_escaped(&mut out, p.email.as_str());
    out.append("\",\"product_id\":\"");
    append_escaped(&mut out, p.product_id.as_str());
    out.append("\",\"plan\":\"");
    append_escaped(&mut out, p.plan.as_str());
    out.append("\",\"issued_at\":\"");
    append_escaped(&mut out, p.issued_at.as_str());
    out.append("\",\"expires_at\":");
    match &p.expires_at {
        None => {
            out.append("null}");
        },
        Some(e) => {
            out.append("\"");
            append_escaped(&mut out, e.as_str());
            out.append("\"}");
        },
    }
    proof {
        assert(out@ =~= canonical_json(p@));
    }
    out
}

} // verus!

verus! {

/// Parse a canonical JSON string body starting at `i`: the content runs
/// to an unescaped closing quote, with exactly the escapes that `esc`
/// writes. Yields the unescaped content and the position just past the
/// closing quote.
pub open spec fn parse_str_body(s: Seq<char>, i: int) -> Option<(Seq<char>, int)>
    decreases s.len() - i,
{
    if i < 0 || i >= s.len() {
        None
    } else {
        let c: char = s[i];
        if c == '"' {
            Some((Seq::<char>::empty(), i + 1))
        } else if c == '\\' {
            if i + 1 < s.len() {
                let e: char = s[i + 1];
                if e == '"' || e == '\\' {
                    match parse_str_body(s, i + 2) {
                        Some(q) => Some((seq![e] + q.0, q.1)),
                        None => None,
                    }
                } else if e == 'u' {
                    if i + 5 < s.len() && s[i + 2] == '0' && s[i + 3] == '0' && hex_val(s[i + 4])
                        >= 0 && hex_val(s[i + 5]) >= 0 {
                        let v: int = 16 * hex_val(s[i + 4]) + hex_val(s[i + 5]);
                        if v < 32 {
                            match parse_str_body(s, i + 6) {
                                Some(q) => Some((seq![char_of_code(v)] + q.0, q.1)),
                                None => None,
                            }
                        } else {
                            None
                        }
                    } else {
                        None
                    }
                } else {
                    None
                }
            } else {
                None
            }
        } else if (c as u32) < 32 {
            None
        } else {
            match parse_str_body(s, i + 1) {
                Some(q) => Some((seq![c] + q.0, q.1)),
                None => None,
            }
        }
    }
}

/// The literal `l` stands in `s` at position `i`.
pub open spec fn lit_at(s: Seq<char>, i: int, l: Seq<char>) -> bool {
    0 <= i && i + l.len() <= s.len() && s.subrange(i, i + l.len()) == l
}

/// Parse a whole canonical payload object: the exact field order and
/// framing that `canonical_json` writes, and nothing else.
pub open spec fn parse_payload_json(s: Seq<char>) -> Option<PayloadView> {
    if !lit_at(s, 0, lit_obj_email()) {
        None
    } else {
        match parse_str_body(s, lit_obj_email().len() as int) {
            None => None,
            Some(em) => if !lit_at(s, em.1, lit_product_id()) {
                None
            } else {
                match parse_str_body(s, em.1 + lit_product_id().len()) {
                    None => None,
                    Some(pid) => if !lit_at(s, pid.1, lit_plan()) {
                        None
                    } else {
                        match parse_str_body(s, pid.1 + lit_plan().len()) {
                            None => None,
                            Some(pl) => if !lit_at(s, pl.1, lit_issued_at()) {
                                None
                            } else {
                                match parse_str_body(s, pl.1 + lit_issued_at().len()) {
                                    None => None,
                                    Some(isd) => if !lit_at(s, isd.1, lit_expires_at()) {
                                        None
                                    } else {
                                        parse_expires_tail(
                                            s,
                                            isd.1 + lit_expires_at().len(),
                                            PayloadView {
                                                email: em.0,
                                                product_id: pid.0,
                                                plan: pl.0,
                                                issued_at: isd.0,
                                                expires_at: None,
                                            },
                                        )
                                    },
                                }
                            },
                        }
                    },
                }
            },
        }
    }
}

/// Parse what follows the `expires_at` key: `null}` at the very end, or
/// a quoted stamp followed by the closing brace at the very end.
pub open spec fn parse_expires_tail(s: Seq<char>, i: int, base: PayloadView) -> Option<
    PayloadView,
> {
    if lit_at(s, i, lit_null_end()) && i + 5 == s.len() {
        Some(base)
    } else if 0 <= i < s.len() && s[i] == '"' {
        match parse_str_body(s, i + 1) {
            None => None,
            Some(ex) => if ex.1 + 1 == s.len() && ex.1 < s.len() && s[ex.1] == '}' {
                Some(PayloadView { expires_at: Some(ex.0), ..base })
            } else {
                None
            },
        }
    } else {
        None
    }
}

/// A value below 16 written as a hex digit reads back as itself.
proof fn lemma_hex_digit_val(n: int)
    requires
        0 <= n < 16,
    ensures
        hex_val(hex_digit(n)) == n,
{
}

/// Completeness of string-body parsing: wherever the remainder of `s`
/// is an escaped string, its closing quote, and anything after, the
/// parser recovers exactly that string and stops just past the quote.
pub proof fn lemma_parse_body_of_esc(s: Seq<char>, i: int, t: Seq<char>, rest: Seq<char>)
    requires
        0 <= i <= s.len(),
        s.skip(i) == esc(t) + seq!['"'] + rest,
    ensures
        parse_str_body(s, i) == Some((t, i + esc(t).len() + 1)),
    decreases t.len(),
{
    if t.len() == 0 {
        assert(esc(t) =~= Seq::<char>::empty());
        assert(s.skip(i).len() == 1 + rest.len());
        assert(s[i] == s.skip(i)[0]);
        assert(s[i] == '"');
        assert(t =~= Seq::<char>::empty());
    } else {
        let c: char = t[0];
        assert(esc(t) == esc_char(c) + esc(t.skip(1)));
        let e1: Seq<char> = esc_char(c);
        let tr: Seq<char> = esc(t.skip(1)) + seq!['"'] + rest;
        assert(s.skip(i) =~= e1 + tr);
        assert(s.skip(i).len() == e1.len() + tr.len());
        if c == '"' || c == '\\' {
            assert(e1.len() == 2);
            assert(s.skip(i)[0] == s[i]);
            assert((e1 + tr)[0] == e1[0]);
            assert(e1[0] == '\\');
            assert(s.skip(i)[1] == s[i + 1]);
            assert((e1 + tr)[1] == e1[1]);
            assert(e1[1] == c);
            assert forall|k: int| 0 <= k < tr.len() implies s.skip(i + 2)[k] == tr[k] by {
                assert(s.skip(i + 2)[k] == s[i + 2 + k]);
                assert(s.skip(i)[k + 2] == s[i + 2 + k]);
                assert((e1 + tr)[k + 2] == tr[k]);
            }
            assert(s.skip(i + 2) =~= tr);
            lemma_parse_body_of_esc(s, i + 2, t.skip(1), rest);
            assert(seq![c] + t.skip(1) =~= t);
        } else if (c as u32) < 32 {
            assert(e1.len() == 6);
            let v: int = (c as u32) as int;
            assert forall|k: int| 0 <= k < 6 implies s[i + k] == e1[k] by {
                assert(s.skip(i)[k] == s[i + k]);
                assert((e1 + tr)[k] == e1[k]);
            }
            assert(e1[0] == '\\');
            assert(e1[1] == 'u');
            assert(e1[2] == '0');
            assert(e1[3] == '0');
            assert(e1[4] == hex_digit(v / 16));
            assert(e1[5] == hex_digit(v % 16));
            lemma_hex_digit_val(v / 16);
            lemma_hex_digit_val(v % 16);
            assert(16 * (v / 16) + v % 16 == v) by (nonlinear_arith)
                requires
                    0 <= v,
            ;
            let b8: u8 = v as u8;
            assert(b8 as int == v);
            let cc: char = b8 as char;
            assert(cc as u32 == b8 as u32);
            assert(cc as u32 == c as u32);
            vstd::utf8::char_u32_cast(c, c as u32);
            vstd::utf8::char_u32_cast(cc, cc as u32);
            assert(cc == c);
            assert(char_of_code(v) == c);
            assert forall|k: int| 0 <= k < tr.len() implies s.skip(i + 6)[k] == tr[k] by {
                assert(s.skip(i + 6)[k] == s[i + 6 + k]);
                assert(s.skip(i)[k + 6] == s[i + 6 + k]);
                assert((e1 + tr)[k + 6] == tr[k]);
            }
            assert(s.skip(i + 6) =~= tr);
            lemma_parse_body_of_esc(s, i + 6, t.skip(1), rest);
            assert(seq![c] + t.skip(1) =~= t);
        } else {
            assert(e1.len() == 1);
            assert(s.skip(i)[0] == s[i]);
            assert((e1 + tr)[0] == e1[0]);
            assert(e1[0] == c);
            assert forall|k: int| 0 <= k < tr.len() implies s.skip(i + 1)[k] == tr[k] by {
                assert(s.skip(i + 1)[k] == s[i + 1 + k]);
                assert(s.skip(i)[k + 1] == s[i + 1 + k]);
                assert((e1 + tr)[k + 1] == tr[k]);
            }
            assert(s.skip(i + 1) =~= tr);
            lemma_parse_body_of_esc(s, i + 1, t.skip(1), rest);
            assert(seq![c] + t.skip(1) =~= t);
        }
    }
}

} // verus!

verus! {

/// Peeling a known prefix off the remainder of `s`: the prefix stands at
/// `i` as a literal, and the remainder past it is the rest.
proof fn lemma_skip_of_concat(s: Seq<char>, i: int, a: Seq<char>, b: Seq<char>)
    requires
        0 <= i <= s.len(),
        s.skip(i) == a + b,
    ensures
        lit_at(s, i, a),
        i + a.len() <= s.len(),
        s.skip(i + a.len()) == b,
{
    assert(s.skip(i).len() == s.len() - i);
    assert forall|k: int| 0 <= k < a.len() implies s.subrange(i, i + a.len())[k] == a[k] by {
        assert(s.subrange(i, i + a.len())[k] == s[i + k]);
        assert(s.skip(i)[k] == s[i + k]);
        assert((a + b)[k] == a[k]);
    }
    assert(s.subrange(i, i + a.len()) =~= a);
    assert forall|k: int| 0 <= k < b.len() implies s.skip(i + a.len())[k] == b[k] by {
        assert(s.skip(i + a.len())[k] == s[i + a.len() + k]);
        assert(s.skip(i)[a.len() + k] == s[i + a.len() + k]);
        assert((a + b)[a.len() + k] == b[k]);
    }
    assert(s.skip(i + a.len()) =~= b);
}

/// One field of the canonical form: its key literal, then the escaped
/// value and closing quote; peeling it yields the parse of the value.
proof fn lemma_peel_field(s: Seq<char>, i: int, l: Seq<char>, t: Seq<char>, rest: Seq<char>)
    requires
        0 <= i <= s.len(),
        s.skip(i) == l + (esc(t) + seq!['"'] + rest),
    ensures
        lit_at(s, i, l),
        parse_str_body(s, i + l.len()) == Some((t, i + l.len() + esc(t).len() + 1)),
        0 <= i + l.len() + esc(t).len() + 1 <= s.len(),
        s.skip(i + l.len() + esc(t).len() + 1) == rest,
{
    lemma_skip_of_concat(s, i, l, esc(t) + seq!['"'] + rest);
    lemma_parse_body_of_esc(s, i + l.len(), t, rest);
    lemma_skip_of_concat(s, i + l.len(), esc(t) + seq!['"'], rest);
}

/// The payload with its expiry stamp removed.
pub open spec fn strip_exp(p: PayloadView) -> PayloadView {
    PayloadView { expires_at: None, ..p }
}

/// Where the tail after the `expires_at` key starts in the canonical
/// form of `p`.
pub open spec fn tail_pos(p: PayloadView) -> int {
    lit_obj_email().len() as int + esc(p.email).len() as int + 1 + lit_product_id().len() as int
        + esc(p.product_id).len() as int + 1 + lit_plan().len() as int + esc(p.plan).len() as int
        + 1 + lit_issued_at().len() as int + esc(p.issued_at).len() as int + 1 + lit_expires_at().len() as int
}

/// Parsing the canonical form consumes the four leading fields exactly
/// and comes down to the expiry tail.
#[verifier::rlimit(100)]
#[verifier::spinoff_prover]
proof fn lemma_parse_canonical_fields(p: PayloadView)
    ensures
        0 <= tail_pos(p) <= canonical_json(p).len(),
        canonical_json(p).skip(tail_pos(p)) == exp_tail_nested(p.expires_at),
        parse_payload_json(canonical_json(p)) == parse_expires_tail(
            canonical_json(p),
            tail_pos(p),
            strip_exp(p),
        ),
{
    lemma_canonical_nested(p);
    let s = canonical_json(p);
    let t4 = lit_expires_at() + exp_tail_nested(p.expires_at);
    let t3 = lit_issued_at() + (esc(p.issued_at) + seq!['"'] + t4);
    let t2 = lit_plan() + (esc(p.plan) + seq!['"'] + t3);
    let t1 = lit_product_id() + (esc(p.product_id) + seq!['"'] + t2);
    assert(s == lit_obj_email() + (esc(p.email) + seq!['"'] + t1));
    assert(s.skip(0) =~= s);
    lemma_peel_field(s, 0, lit_obj_email(), p.email, t1);
    let i1: int = 0 + lit_obj_email().len() as int + esc(p.email).len() as int + 1;
    lemma_peel_field(s, i1, lit_product_id(), p.product_id, t2);
    let i2: int = i1 + lit_product_id().len() as int + esc(p.product_id).len() as int + 1;
    lemma_peel_field(s, i2, lit_plan(), p.plan, t3);
    let i3: int = i2 + lit_plan().len() as int + esc(p.plan).len() as int + 1;
    lemma_peel_field(s, i3, lit_issued_at(), p.issued_at, t4);
    let i4: int = i3 + lit_issued_at().len() as int + esc(p.issued_at).len() as int + 1;
    assert(s.skip(i4) == t4);
    lemma_skip_of_concat(s, i4, lit_expires_at(), exp_tail_nested(p.expires_at));
    let i5: int = i4 + lit_expires_at().len() as int;
    assert(i5 == tail_pos(p));
    assert(s.skip(i5) == exp_tail_nested(p.expires_at));
}

/// Round trip of the codec: the canonical form of any payload parses
/// back to exactly that payload.
#[verifier::rlimit(100)]
#[verifier::spinoff_prover]
pub proof fn lemma_parse_canonical(p: PayloadView)
    ensures
        parse_payload_json(canonical_json(p)) == Some(p),
{
    lemma_parse_canonical_fields(p);
    let s = canonical_json(p);
    let i5: int = tail_pos(p);
    match p.expires_at {
        None => {
            assert(exp_tail_nested(p.expires_at) == lit_null_end());
            assert(s.skip(i5) =~= lit_null_end() + Seq::<char>::empty());
            lemma_skip_of_concat(s, i5, lit_null_end(), Seq::<char>::empty());
            assert(s.skip(i5 + 5).len() == 0);
            assert(i5 + 5 == s.len());
            assert(strip_exp(p) == p);
        },
        Some(x) => {
            let q: Seq<char> = seq!['"'];
            assert(exp_tail_nested(p.expires_at) == q + (esc(x) + q + seq!['}']));
            assert(s.skip(i5)[0] == s[i5]);
            assert((q + (esc(x) + q + seq!['}']))[0] == '"');
            assert(s[i5] == '"');
            if lit_at(s, i5, lit_null_end()) {
                assert(s.subrange(i5, i5 + 5)[0] == s[i5]);
                assert(lit_null_end()[0] == 'n');
                assert(false);
            }
            lemma_skip_of_concat(s, i5, q, esc(x) + q + seq!['}']);
            lemma_parse_body_of_esc(s, i5 + 1, x, seq!['}']);
            lemma_skip_of_concat(s, i5 + 1, esc(x) + q, seq!['}']);
            let i6: int = i5 + 1 + esc(x).len() as int + 1;
            assert(s.skip(i6) == seq!['}']);
            assert(s.skip(i6)[0] == s[i6]);
            assert(s[i6] == '}');
            assert(s.skip(i6).len() == 1);
            assert(i6 + 1 == s.len());
            assert(PayloadView { expires_at: Some(x), ..strip_exp(p) } == p);
        },
    }
}
fn hex_val_exec(c: char) -> (r: Option<u8>)
    ensures
        r is Some <==> hex_val(c) >= 0,
        r matches Some(v) ==> v as int == hex_val(c),
{
    if c == '0' { Some(0) } else if c == '1' { Some(1) } else if c == '2' { Some(2) }
    else if c == '3' { Some(3) } else if c == '4' { Some(4) } else if c == '5' { Some(5) }
    else if c == '6' { Some(6) } else if c == '7' { Some(7) } else if c == '8' { Some(8) }
    else if c == '9' { Some(9) } else if c == 'a' { Some(10) } else if c == 'b' { Some(11) }
    else if c == 'c' { Some(12) } else if c == 'd' { Some(13) } else if c == 'e' { Some(14) }
    else if c == 'f' { Some(15) } else { None }
}

/// Parse one string body starting at `start`, mirroring
/// `parse_str_body` step for step.
fn parse_string_at(s: &Vec<char>, start: usize) -> (r: Option<(String, usize)>)
    requires
        start <= s@.len(),
    ensures
        r is None ==> parse_str_body(s@, start as int) is None,
        r matches Some(p) ==> parse_str_body(s@, start as int) == Some((p.0@, p.1 as int)),
{
    let mut acc = String::new();
    let mut i: usize = start;
    loop
        invariant
            start <= i <= s@.len(),
            (match parse_str_body(s@, i as int) {
                Some(q) => parse_str_body(s@, start as int) == Some((acc@ + q.0, q.1)),
                None => parse_str_body(s@, start as int) is None,
            }),
        decreases s@.len() - i,
    {
        if i >= s.len() {
            return None;
        }
        let c: char = s[i];
        if c == '"' {
            proof {
                assert(parse_str_body(s@, i as int) == Some((Seq::<char>::empty(), i as int + 1)));
                assert(acc@ + Seq::<char>::empty() =~= acc@);
            }
            return Some((acc, i + 1));
        } else if c == '\\' {
            if i + 1 >= s.len() {
                return None;
            }
            let e: char = s[i + 1];
            if e == '"' || e == '\\' {
                let ghost acc0 = acc@;
                push_char(&mut acc, e);
                proof {
                    if let Some(q) = parse_str_body(s@, i as int + 2) {
                        assert(parse_str_body(s@, i as int) == Some((seq![e] + q.0, q.1)));
                        assert(acc0 + (seq![e] + q.0) =~= (acc0 + seq![e]) + q.0);
                    }
                }
                i = i + 2;
            } else if e == 'u' {
                if s.len() - i < 6 {
                    return None;
                }
                if !(s[i + 2] == '0' && s[i + 3] == '0') {
                    return None;
                }
                let h1 = hex_val_exec(s[i + 4]);
                let h2 = hex_val_exec(s[i + 5]);
                match (h1, h2) {
                    (Some(a), Some(b)) => {
                        let v: u32 = 16 * (a as u32) + (b as u32);
                        if v < 32 {
                            let c2: char = (v as u8) as char;
                            let ghost acc0 = acc@;
                            push_char(&mut acc, c2);
                            proof {
                                assert(c2 == char_of_code(16 * hex_val(s@[i as int + 4]) + hex_val(
                                    s@[i as int + 5],
                                )));
                                if let Some(q) = parse_str_body(s@, i as int + 6) {
                                    assert(parse_str_body(s@, i as int) == Some(
                                        (seq![c2] + q.0, q.1),
                                    ));
                                    assert(acc0 + (seq![c2] + q.0) =~= (acc0 + seq![c2]) + q.0);
                                }
                            }
                            i = i + 6;
                        } else {
                            return None;
                        }
                    },
                    _ => {
                        return None;
                    },
                }
            } else {
                return None;
            }
        } else if (c as u32) < 32 {
            return None;
        } else {
            let ghost acc0 = acc@;
            push_char(&mut acc, c);
            proof {
                if let Some(q) = parse_str_body(s@, i as int + 1) {
                    assert(parse_str_body(s@, i as int) == Some((seq![c] + q.0, q.1)));
                    assert(acc0 + (seq![c] + q.0) =~= (acc0 + seq![c]) + q.0);
                }
            }
            i = i + 1;
        }
    }
}

} // verus!

verus! {

fn lit_match(s: &Vec<char>, i: usize, l: &Vec<char>) -> (r: bool)
    ensures
        r == lit_at(s@, i as int, l@),
{
    let n: usize = s.len();
    if i > n || l.len() > n - i {
        return false;
    }
    let mut k: usize = 0;
    while k < l.len()
        invariant
            n == s@.len(),
            i + l@.len() <= n,
            k <= l@.len(),
            forall|m: int| 0 <= m < k ==> s@[i + m] == l@[m],
        decreases l@.len() - k,
    {
        if s[i + k] != l[k] {
            proof {
                if lit_at(s@, i as int, l@) {
                    assert(s@.subrange(i as int, i as int + l@.len() as int)[k as int] == l@[
                        k as int
                    ]);
                    assert(s@[i + k] == l@[k as int]);
                }
            }
            return false;
        }
        k += 1;
    }
    proof {
        assert(s@.subrange(i as int, i as int + l@.len() as int) =~= l@);
    }
    true
}

/// Parse a character sequence as the canonical JSON form of a payload,
/// mirroring `parse_payload_json` stage for stage.
pub fn parse_payload_chars(s: &Vec<char>) -> (r: Option<LicensePayload>)
    ensures
        r is Some <==> parse_payload_json(s@) is Some,
        r matches Some(p) ==> parse_payload_json(s@) == Some(p@),
{
    let n: usize = s.len();
    let l0 = chars_of("{\"email\":\"");
    let l1 = chars_of(",\"product_id\":\"");
    let l2 = chars_of(",\"plan\":\"");
    let l3 = chars_of(",\"issued_at\":\"");
    let l4 = chars_of(",\"expires_at\":");
    let ln = chars_of("null}");
    proof {
        reveal_strlit("{\"email\":\"");
        reveal_strlit(",\"product_id\":\"");
        reveal_strlit(",\"plan\":\"");
        reveal_strlit(",\"issued_at\":\"");
        reveal_strlit(",\"expires_at\":");
        reveal_strlit("null}");
        assert(l0@ =~= lit_obj_email());
        assert(l1@ =~= lit_product_id());
        assert(l2@ =~= lit_plan());
        assert(l3@ =~= lit_issued_at());
        assert(l4@ =~= lit_expires_at());
        assert(ln@ =~= lit_null_end());
    }
    if !lit_match(s, 0, &l0) {
        return None;
    }
    let (email, j1) = match parse_string_at(s, l0.len()) {
        None => {
            return None;
        },
        Some(x) => x,
    };
    if !lit_match(s, j1, &l1) {
        return None;
    }
    let (product_id, j2) = match parse_string_at(s, j1 + l1.len()) {
        None => {
            return None;
        },
        Some(x) => x,
    };
    if !lit_match(s, j2, &l2) {
        return None;
    }
    let (plan, j3) = match parse_string_at(s, j2 + l2.len()) {
        None => {
            return None;
        },
        Some(x) => x,
    };
    if !lit_match(s, j3, &l3) {
        return None;
    }
    let (issued_at, j4) = match parse_string_at(s, j3 + l3.len()) {
        None => {
            return None;
        },
        Some(x) => x,
    };
    if !lit_match(s, j4, &l4) {
        return None;
    }
    let i5 = j4 + l4.len();
    if lit_match(s, i5, &ln) && i5 + ln.len() == s.len() {
        return Some(LicensePayload {
            email,
            product_id,
            plan,
            issued_at,
            expires_at: None,
        });
    }
    if i5 < s.len() && s[i5] == '"' {
        let (expires, j6) = match parse_string_at(s, i5 + 1) {
            None => {
                return None;
            },
            Some(x) => x,
        };
        if j6 < s.len() && s[j6] == '}' && j6 + 1 == s.len() {
            return Some(LicensePayload {
                email,
                product_id,
                plan,
                issued_at,
                expires_at: Some(expires),
            });
        }
        return None;
    }
    None
}

} // verus!
