//! The session cookie's payload: `SessionData` as a JSON object.
use vstd::prelude::*;
use crate::primitives::{decimal_string, decimal_text, digit_char, push_char};
use crate::role::UserRole;
use crate::session::{Session, SessionData};

verus! {

/// The JSON string name of a role.
pub open spec fn role_name(role: UserRole) -> Seq<char> {
    match role {
        UserRole::Banned => "Banned"@,
        UserRole::Viewer => "Viewer"@,
        UserRole::Author => "Author"@,
        UserRole::Moderator => "Moderator"@,
        UserRole::Admin => "Admin"@,
    }
}

/// The lowercase hexadecimal digit of `n`, for `0 <= n < 16`.
pub open spec fn hex_digit(n: int) -> char {
    if n < 10 { digit_char(n) }
    else if n == 10 { 'a' }
    else if n == 11 { 'b' }
    else if n == 12 { 'c' }
    else if n == 13 { 'd' }
    else if n == 14 { 'e' }
    else { 'f' }
}

/// The value of a lowercase hexadecimal digit.
pub open spec fn hex_value(c: char) -> Option<int> {
    if is_digit(c) { Some(c as int - '0' as int) }
    else if c == 'a' { Some(10) }
    else if c == 'b' { Some(11) }
    else if c == 'c' { Some(12) }
    else if c == 'd' { Some(13) }
    else if c == 'e' { Some(14) }
    else if c == 'f' { Some(15) }
    else { None }
}

/// A control character, which JSON strings must escape.
pub open spec fn is_control(c: char) -> bool {
    (c as u32) < 0x20
}

/// One character inside a JSON string: `"` and `\` get a backslash, control
/// characters are written `\u00XX`, every other character stands as it is.
pub open spec fn escaped_char(c: char) -> Seq<char> {
    if c == '"' || c == '\\' {
        seq!['\\', c]
    } else if is_control(c) {
        seq!['\\', 'u', '0', '0', hex_digit((c as u32 / 16) as int), hex_digit((c as u32 % 16) as int)]
    } else {
        seq![c]
    }
}

/// The characters of a JSON string's body for `s`.
pub open spec fn escaped(s: Seq<char>) -> Seq<char>
    decreases s.len(),
{
    if s.len() == 0 {
        Seq::empty()
    } else {
        escaped(s.drop_last()) + escaped_char(s.last())
    }
}

/// The cookie payload for `d`:
/// `{"user_id":<id>,"session_id":"<id>","role":"<role>"}`.
pub open spec fn cookie_text(d: SessionData) -> Seq<char> {
    "{\"user_id\":"@ + decimal_text(d.user_id as int) + ",\"session_id\":\""@ + escaped(
        d.session_id@,
    ) + "\",\"role\":\""@ + role_name(d.role) + "\"}"@
}

fn role_str(role: UserRole) -> (r: &'static str)
    ensures
        r@ == role_name(role),
{
    match role {
        UserRole::Banned => "Banned",
        UserRole::Viewer => "Viewer",
        UserRole::Author => "Author",
        UserRole::Moderator => "Moderator",
        UserRole::Admin => "Admin",
    }
}

/// The hexadecimal digit of `n`.
fn hex_char(n: u32) -> (r: char)
    requires
        n < 16,
    ensures
        r == hex_digit(n as int),
{
    if n == 0 { '0' }
    else if n == 1 { '1' }
    else if n == 2 { '2' }
    else if n == 3 { '3' }
    else if n == 4 { '4' }
    else if n == 5 { '5' }
    else if n == 6 { '6' }
    else if n == 7 { '7' }
    else if n == 8 { '8' }
    else if n == 9 { '9' }
    else if n == 10 { 'a' }
    else if n == 11 { 'b' }
    else if n == 12 { 'c' }
    else if n == 13 { 'd' }
    else if n == 14 { 'e' }
    else { 'f' }
}

/// The value of a hexadecimal digit, if `c` is one.
fn hex_value_of(c: char) -> (r: Option<u32>)
    ensures
        r matches Some(v) ==> hex_value(c) == Some(v as int) && v < 16,
        r is None ==> hex_value(c) is None,
{
    if '0' <= c && c <= '9' {
        Some(c as u32 - '0' as u32)
    } else if c == 'a' {
        Some(10)
    } else if c == 'b' {
        Some(11)
    } else if c == 'c' {
        Some(12)
    } else if c == 'd' {
        Some(13)
    } else if c == 'e' {
        Some(14)
    } else if c == 'f' {
        Some(15)
    } else {
        None
    }
}

proof fn lemma_hex_round_trip(n: int)
    requires
        0 <= n < 16,
    ensures
        hex_value(hex_digit(n)) == Some(n),
{
    if n < 10 {
        lemma_digit_char(n);
    }
}

/// Appends the JSON string body of `s` to `out`.
fn append_escaped(out: &mut String, s: &str)
    ensures
        final(out)@ == old(out)@ + escaped(s@),
{
    let n = s.unicode_len();
    let mut i: usize = 0;
    while i < n
        invariant
            n == s@.len(),
            i <= n,
            out@ == old(out)@ + escaped(s@.take(i as int)),
        decreases n - i,
    {
        let c = s.get_char(i);
        let ghost before = out@;
        if c == '"' || c == '\\' {
            push_char(out, '\\');
            push_char(out, c);
        } else if (c as u32) < 0x20 {
            push_char(out, '\\');
            push_char(out, 'u');
            push_char(out, '0');
            push_char(out, '0');
            push_char(out, hex_char(c as u32 / 16));
            push_char(out, hex_char(c as u32 % 16));
        } else {
            push_char(out, c);
        }
        proof {
            assert(out@ =~= before + escaped_char(c));
            assert(s@.take(i + 1).drop_last() =~= s@.take(i as int));
        }
        i += 1;
        proof {
            assert(out@ =~= old(out)@ + escaped(s@.take(i as int)));
        }
    }
    proof {
        assert(s@.take(n as int) =~= s@);
    }
}

/// The cookie payload for a session.
pub fn encode(d: &SessionData) -> (r: String)
    ensures
        r@ == cookie_text(*d),
{
    let mut out = String::from_str("{\"user_id\":");
    let id = decimal_string(d.user_id);
    out.append(id.as_str());
    out.append(",\"session_id\":\"");
    append_escaped(&mut out, d.session_id.as_str());
    out.append("\",\"role\":\"");
    out.append(role_str(d.role));
    out.append("\"}");
    out
}

/// A decimal digit.
pub open spec fn is_digit(c: char) -> bool {
    '0' <= c && c <= '9'
}

/// The value of a string of decimal digits.
pub open spec fn digits_value(s: Seq<char>) -> int
    decreases s.len(),
{
    if s.len() == 0 {
        0
    } else {
        digits_value(s.drop_last()) * 10 + (s.last() as int - '0' as int)
    }
}

proof fn lemma_digit_char(d: int)
    requires
        0 <= d < 10,
    ensures
        is_digit(digit_char(d)),
        digit_char(d) as int - '0' as int == d,
{
}

/// The decimal text of a natural number is a non-empty digit string of that value.
proof fn lemma_decimal_digits(n: int)
    requires
        n >= 0,
    ensures
        decimal_text(n).len() >= 1,
        forall|i: int| 0 <= i < decimal_text(n).len() ==> is_digit(#[trigger] decimal_text(n)[i]),
        digits_value(decimal_text(n)) == n,
    decreases n,
{
    if n < 10 {
        lemma_digit_char(n);
        assert(decimal_text(n) == seq![digit_char(n)]);
        assert(decimal_text(n).drop_last() =~= Seq::<char>::empty());
        assert(decimal_text(n).last() == digit_char(n));
        assert(digits_value(decimal_text(n).drop_last()) == 0);
        assert(digits_value(decimal_text(n)) == digits_value(decimal_text(n).drop_last()) * 10 + (
        digit_char(n) as int - '0' as int));
    } else {
        lemma_decimal_digits(n / 10);
        lemma_digit_char(n % 10);
        let t = decimal_text(n);
        assert(t.drop_last() =~= decimal_text(n / 10));
        assert(t.last() == digit_char(n % 10));
        assert((n / 10) * 10 + n % 10 == n);
        assert(digits_value(t) == digits_value(t.drop_last()) * 10 + (digit_char(n % 10) as int
            - '0' as int));
        assert forall|i: int| 0 <= i < t.len() implies is_digit(#[trigger] t[i]) by {
            if i < t.len() - 1 {
                assert(t[i] == decimal_text(n / 10)[i]);
            }
        }
    }
}

/// Digit strings have non-negative values that grow with the prefix taken.
proof fn lemma_digits_prefix(s: Seq<char>, k: int)
    requires
        forall|i: int| 0 <= i < s.len() ==> is_digit(#[trigger] s[i]),
        0 <= k <= s.len(),
    ensures
        0 <= digits_value(s.take(k)) <= digits_value(s),
    decreases s.len(),
{
    if k == s.len() {
        assert(s.take(k) =~= s);
        if s.len() > 0 {
            lemma_digits_prefix(s.drop_last(), k - 1);
            assert(s.drop_last().take(k - 1) =~= s.drop_last());
        }
    } else {
        let r = s.drop_last();
        assert forall|i: int| 0 <= i < r.len() implies is_digit(#[trigger] r[i]) by {
            assert(r[i] == s[i]);
        }
        lemma_digits_prefix(r, k);
        lemma_digits_prefix(r, r.len() as int);
        assert(r.take(k) =~= s.take(k));
        assert(r.take(r.len() as int) =~= r);
    }
}

/// Every character of a decimal text is a digit or a leading minus sign.
proof fn lemma_decimal_chars(n: int)
    ensures
        forall|i: int|
            0 <= i < decimal_text(n).len() ==> is_digit(#[trigger] decimal_text(n)[i]) || (i == 0
                && decimal_text(n)[i] == '-'),
        decimal_text(n).len() >= 1,
        (decimal_text(n)[0] == '-') <==> n < 0,
{
    if n < 0 {
        lemma_decimal_digits(-n);
        let t = decimal_text(n);
        assert forall|i: int| 0 <= i < t.len() implies is_digit(#[trigger] t[i]) || (i == 0 && t[i]
            == '-') by {
            if i > 0 {
                assert(t[i] == decimal_text(-n)[i - 1]);
            }
        }
    } else {
        lemma_decimal_digits(n);
    }
}

/// Distinct integers have distinct decimal texts.
proof fn lemma_decimal_injective(a: int, b: int)
    requires
        decimal_text(a) == decimal_text(b),
    ensures
        a == b,
{
    lemma_decimal_chars(a);
    lemma_decimal_chars(b);
    if a < 0 {
        lemma_decimal_digits(-a);
        lemma_decimal_digits(-b);
        assert(decimal_text(-a) =~= decimal_text(a).skip(1));
        assert(decimal_text(-b) =~= decimal_text(b).skip(1));
    } else {
        lemma_decimal_digits(a);
        lemma_decimal_digits(b);
    }
}

/// Escaping distributes over concatenation.
proof fn lemma_escaped_concat(a: Seq<char>, b: Seq<char>)
    ensures
        escaped(a + b) == escaped(a) + escaped(b),
    decreases b.len(),
{
    if b.len() == 0 {
        assert(a + b =~= a);
        assert(escaped(a) + escaped(b) =~= escaped(a));
    } else {
        assert((a + b).drop_last() =~= a + b.drop_last());
        lemma_escaped_concat(a, b.drop_last());
        assert(escaped(a + b) =~= escaped(a) + escaped(b));
    }
}

/// The escaped form of a non-empty string starts with its first character's.
proof fn lemma_escaped_front(s: Seq<char>)
    requires
        s.len() > 0,
    ensures
        escaped(s) == escaped_char(s[0]) + escaped(s.skip(1)),
{
    assert(s =~= seq![s[0]] + s.skip(1));
    lemma_escaped_concat(seq![s[0]], s.skip(1));
    assert(seq![s[0]].drop_last() =~= Seq::<char>::empty());
    assert(escaped(seq![s[0]]) =~= escaped(Seq::<char>::empty()) + escaped_char(s[0]));
    assert(escaped(Seq::<char>::empty()) + escaped_char(s[0]) =~= escaped_char(s[0]));
}

/// An escaped character is told apart from every other by its text, even
/// with more text after it.
proof fn lemma_escaped_char_prefix(c: char, d: char, u: Seq<char>, w: Seq<char>)
    requires
        escaped_char(c) + u == escaped_char(d) + w,
    ensures
        c == d,
{
    let t = escaped_char(c) + u;
    let ec = escaped_char(c);
    let ed = escaped_char(d);
    assert(t[0] == ec[0]);
    assert(t[0] == (escaped_char(d) + w)[0]);
    if ec.len() > 1 && ed.len() > 1 {
        assert(t[1] == ec[1]);
        assert(t[1] == (escaped_char(d) + w)[1]);
    }
    if ec.len() == 6 && ed.len() == 6 {
        assert(t[4] == ec[4]);
        assert(t[4] == (escaped_char(d) + w)[4]);
        assert(t[5] == ec[5]);
        assert(t[5] == (escaped_char(d) + w)[5]);
        lemma_hex_round_trip((c as u32 / 16) as int);
        lemma_hex_round_trip((c as u32 % 16) as int);
        lemma_hex_round_trip((d as u32 / 16) as int);
        lemma_hex_round_trip((d as u32 % 16) as int);
        assert(c as u32 == 16 * (c as u32 / 16) + c as u32 % 16);
        assert(d as u32 == 16 * (d as u32 / 16) + d as u32 % 16);
        assert(c as u32 == d as u32);
    }
}

/// Where an escaped string ends is marked by the first unescaped quote: two
/// escaped strings each followed by a quote agree if their texts do.
proof fn lemma_escaped_injective(a: Seq<char>, b: Seq<char>, ra: Seq<char>, rb: Seq<char>)
    requires
        escaped(a) + seq!['"'] + ra == escaped(b) + seq!['"'] + rb,
    ensures
        a == b,
        ra == rb,
    decreases a.len() + b.len(),
{
    let ta = escaped(a) + seq!['"'] + ra;
    if a.len() == 0 && b.len() == 0 {
        assert(ta =~= seq!['"'] + ra);
        assert(ra =~= ta.skip(1));
        assert(rb =~= (escaped(b) + seq!['"'] + rb).skip(1));
    } else if a.len() == 0 {
        lemma_escaped_front(b);
        assert(ta[0] == '"');
        assert((escaped(b) + seq!['"'] + rb)[0] == escaped_char(b[0])[0]);
    } else if b.len() == 0 {
        lemma_escaped_front(a);
        assert(ta[0] == escaped_char(a[0])[0]);
        assert((escaped(b) + seq!['"'] + rb)[0] == '"');
    } else {
        lemma_escaped_front(a);
        lemma_escaped_front(b);
        let ea = escaped_char(a[0]);
        let eb = escaped_char(b[0]);
        assert(ta =~= ea + (escaped(a.skip(1)) + seq!['"'] + ra));
        let tb = escaped(b) + seq!['"'] + rb;
        assert(tb =~= eb + (escaped(b.skip(1)) + seq!['"'] + rb));
        lemma_escaped_char_prefix(
            a[0],
            b[0],
            escaped(a.skip(1)) + seq!['"'] + ra,
            escaped(b.skip(1)) + seq!['"'] + rb,
        );
        assert(ea == eb);
        let n = ea.len() as int;
        assert(ta.skip(n) =~= escaped(a.skip(1)) + seq!['"'] + ra);
        assert(tb.skip(n) =~= escaped(b.skip(1)) + seq!['"'] + rb);
        lemma_escaped_injective(a.skip(1), b.skip(1), ra, rb);
        assert(a =~= seq![a[0]] + a.skip(1));
        assert(b =~= seq![b[0]] + b.skip(1));
    }
}

/// Distinct roles have distinct names.
proof fn lemma_role_name_injective(a: UserRole, b: UserRole)
    requires
        role_name(a) == role_name(b),
    ensures
        a == b,
{
    reveal_strlit("Banned");
    reveal_strlit("Viewer");
    reveal_strlit("Author");
    reveal_strlit("Moderator");
    reveal_strlit("Admin");
    assert("Banned"@.len() == 6 && "Banned"@[0] == 'B');
    assert("Viewer"@.len() == 6 && "Viewer"@[0] == 'V');
    assert("Author"@.len() == 6 && "Author"@[0] == 'A');
    assert("Moderator"@.len() == 9);
    assert("Admin"@.len() == 5);
    assert(role_name(a).len() == role_name(b).len());
    assert(role_name(a)[0] == role_name(b)[0]);
}

/// A decimal text followed by a comma can be read back unambiguously.
proof fn lemma_decimal_then_comma(a: int, b: int, ra: Seq<char>, rb: Seq<char>)
    requires
        decimal_text(a) + ra == decimal_text(b) + rb,
        ra.len() > 0 && ra[0] == ',',
        rb.len() > 0 && rb[0] == ',',
    ensures
        a == b,
        ra == rb,
{
    let da = decimal_text(a);
    let db = decimal_text(b);
    lemma_decimal_chars(a);
    lemma_decimal_chars(b);
    let t = da + ra;
    if da.len() < db.len() {
        assert(t[da.len() as int] == ',');
        assert((db + rb)[da.len() as int] == db[da.len() as int]);
    } else if db.len() < da.len() {
        assert((db + rb)[db.len() as int] == ',');
        assert(t[db.len() as int] == da[db.len() as int]);
    }
    assert(da =~= t.take(da.len() as int));
    assert(db =~= (db + rb).take(db.len() as int));
    lemma_decimal_injective(a, b);
    assert(ra =~= t.skip(da.len() as int));
    assert(rb =~= (db + rb).skip(db.len() as int));
}

/// Two sessions with the same payload text agree on every field.
#[verifier::rlimit(60)]
pub proof fn lemma_cookie_text_injective(a: SessionData, b: SessionData)
    requires
        cookie_text(a) == cookie_text(b),
    ensures
        a.user_id == b.user_id,
        a.session_id@ == b.session_id@,
        a.role == b.role,
{
    reveal_strlit("{\"user_id\":");
    reveal_strlit(",\"session_id\":\"");
    reveal_strlit("\",\"role\":\"");
    reveal_strlit("\"}");
    let user_key = "{\"user_id\":"@;
    let session_key = ",\"session_id\":\""@;
    let role_key = "\",\"role\":\""@;
    let closing = "\"}"@;
    let role_key_rest = role_key.skip(1);
    let ta = cookie_text(a);
    let tb = cookie_text(b);
    let ra = session_key + escaped(a.session_id@) + role_key + role_name(a.role) + closing;
    let rb = session_key + escaped(b.session_id@) + role_key + role_name(b.role) + closing;
    assert(ta =~= user_key + (decimal_text(a.user_id as int) + ra));
    assert(tb =~= user_key + (decimal_text(b.user_id as int) + rb));
    assert(ta.skip(user_key.len() as int) =~= decimal_text(a.user_id as int) + ra);
    assert(tb.skip(user_key.len() as int) =~= decimal_text(b.user_id as int) + rb);
    assert(ra[0] == ',');
    assert(rb[0] == ',');
    lemma_decimal_then_comma(a.user_id as int, b.user_id as int, ra, rb);
    let qa = role_key_rest + role_name(a.role) + closing;
    let qb = role_key_rest + role_name(b.role) + closing;
    assert(role_key =~= seq!['"'] + role_key_rest);
    assert(ra.skip(session_key.len() as int) =~= escaped(a.session_id@) + seq!['"'] + qa);
    assert(rb.skip(session_key.len() as int) =~= escaped(b.session_id@) + seq!['"'] + qb);
    lemma_escaped_injective(a.session_id@, b.session_id@, qa, qb);
    assert(qa.skip(role_key_rest.len() as int) =~= role_name(a.role) + closing);
    assert(qb.skip(role_key_rest.len() as int) =~= role_name(b.role) + closing);
    let ua = role_name(a.role) + closing;
    let ub = role_name(b.role) + closing;
    assert(role_name(a.role) =~= ua.take(ua.len() - 2));
    assert(role_name(b.role) =~= ub.take(ub.len() - 2));
    lemma_role_name_injective(a.role, b.role);
}

/// `t` holds the decimal text of natural `m` at `pos`, not followed by a digit.
pub open spec fn natural_at(t: Seq<char>, pos: int, m: int) -> bool {
    let d = decimal_text(m);
    &&& 0 <= m
    &&& 0 <= pos
    &&& pos + d.len() <= t.len()
    &&& t.subrange(pos, pos + d.len()) == d
    &&& (pos + d.len() == t.len() || !is_digit(t[pos + d.len()]))
}

/// `t` holds the decimal text of `m` at `pos`, not followed by a digit.
pub open spec fn integer_at(t: Seq<char>, pos: int, m: int) -> bool {
    let d = decimal_text(m);
    &&& i64::MIN <= m <= i64::MAX
    &&& 0 <= pos
    &&& pos + d.len() <= t.len()
    &&& t.subrange(pos, pos + d.len()) == d
    &&& (pos + d.len() == t.len() || !is_digit(t[pos + d.len()]))
}

/// `t` holds the escaped form of `x` at `pos`, followed by a quote.
pub open spec fn string_at(t: Seq<char>, pos: int, x: Seq<char>) -> bool {
    let e = escaped(x);
    &&& 0 <= pos
    &&& pos + e.len() < t.len()
    &&& t.subrange(pos, pos + e.len()) == e
    &&& t[pos + e.len()] == '"'
}

/// Whether `s` holds `lit` at character position `pos`.
fn has_at(s: &str, pos: usize, lit: &str) -> (r: bool)
    ensures
        r == (pos + lit@.len() <= s@.len() && s@.subrange(pos as int, pos + lit@.len()) == lit@),
{
    let n = s.unicode_len();
    let m = lit.unicode_len();
    if pos > n || m > n - pos {
        return false;
    }
    let mut k: usize = 0;
    while k < m
        invariant
            n == s@.len(),
            m == lit@.len(),
            pos + m <= n,
            k <= m,
            forall|j: int| 0 <= j < k ==> s@[pos + j] == lit@[j],
        decreases m - k,
    {
        if s.get_char(pos + k) != lit.get_char(k) {
            assert(s@.subrange(pos as int, pos + m)[k as int] != lit@[k as int]);
            return false;
        }
        k += 1;
    }
    assert(s@.subrange(pos as int, pos + m) =~= lit@);
    true
}

/// Reads a natural number at `pos`; finds `m` wherever `s` holds it there.
fn parse_natural(s: &str, pos: usize, Ghost(m): Ghost<int>) -> (r: Option<(u64, usize)>)
    ensures
        natural_at(s@, pos as int, m) && m <= 0x8000_0000_0000_0000 ==> r == Some(
            (m as u64, (pos + decimal_text(m).len()) as usize),
        ),
        r matches Some((v, _)) ==> v <= 0x8000_0000_0000_0000,
{
    let ghost h = natural_at(s@, pos as int, m) && m <= 0x8000_0000_0000_0000;
    let ghost d = decimal_text(m);
    let n = s.unicode_len();
    if pos > n {
        return None;
    }
    proof {
        if h {
            lemma_decimal_digits(m);
            assert(d.take(0) =~= Seq::<char>::empty());
        }
    }
    let mut i: usize = pos;
    let mut acc: u64 = 0;
    loop
        invariant
            n == s@.len(),
            pos <= i <= n,
            acc <= 0x8000_0000_0000_0000,
            h == (natural_at(s@, pos as int, m) && m <= 0x8000_0000_0000_0000),
            h ==> d == decimal_text(m) && d.len() >= 1 && forall|j: int|
                0 <= j < d.len() ==> is_digit(#[trigger] d[j]),
            h ==> digits_value(d) == m,
            h ==> i <= pos + d.len() && acc == digits_value(d.take(i - pos)),
        ensures
            pos <= i <= n,
            acc <= 0x8000_0000_0000_0000,
            i >= n || !is_digit(s@[i as int]),
            h ==> i <= pos + d.len() && acc == digits_value(d.take(i - pos)),
        decreases n - i,
    {
        if i >= n {
            break;
        }
        let c = s.get_char(i);
        if !('0' <= c && c <= '9') {
            break;
        }
        let next: u128 = acc as u128 * 10 + (c as u32 - '0' as u32) as u128;
        proof {
            if h {
                if i == pos + d.len() {
                    assert(!is_digit(s@[i as int]));
                }
                let k = i - pos;
                assert(s@[i as int] == s@.subrange(pos as int, pos + d.len())[k]);
                assert(d.take(k + 1).drop_last() =~= d.take(k));
                assert(d.take(k + 1).last() == d[k]);
                assert(digits_value(d.take(k + 1)) == digits_value(d.take(k)) * 10 + (d[k] as int
                    - '0' as int));
                assert(next == digits_value(d.take(k + 1)));
                lemma_digits_prefix(d, k + 1);
            }
        }
        if next > 0x8000_0000_0000_0000 {
            return None;
        }
        acc = next as u64;
        i += 1;
    }
    proof {
        if h {
            if i < pos + d.len() {
                let k = i - pos;
                assert(s@[i as int] == s@.subrange(pos as int, pos + d.len())[k]);
                assert(is_digit(d[k]));
            }
            assert(d.take(d.len() as int) =~= d);
        }
    }
    if i == pos {
        return None;
    }
    Some((acc, i))
}

/// Reads an `i64` in decimal at `pos`; finds `m` wherever `s` holds it there.
fn parse_integer(s: &str, pos: usize, Ghost(m): Ghost<int>) -> (r: Option<(i64, usize)>)
    ensures
        integer_at(s@, pos as int, m) ==> r == Some(
            (m as i64, (pos + decimal_text(m).len()) as usize),
        ),
{
    let ghost h = integer_at(s@, pos as int, m);
    let n = s.unicode_len();
    if pos >= n {
        proof {
            if h {
                lemma_decimal_chars(m);
            }
        }
        return None;
    }
    proof {
        if h {
            lemma_decimal_chars(m);
            assert(s@[pos as int] == s@.subrange(pos as int, pos + decimal_text(m).len())[0]);
            if m < 0 {
                let d = decimal_text(m);
                let e = decimal_text(-m);
                assert(d =~= seq!['-'] + e);
                assert(d.skip(1) =~= e);
                assert(s@.subrange(pos + 1, pos + 1 + e.len()) =~= s@.subrange(
                    pos as int,
                    pos + d.len(),
                ).skip(1));
                assert(natural_at(s@, pos + 1, -m));
            } else {
                lemma_decimal_digits(m);
                assert(natural_at(s@, pos as int, m));
            }
        }
    }
    if s.get_char(pos) == '-' {
        match parse_natural(s, pos + 1, Ghost(-m)) {
            Some((v, end)) => {
                let neg: i128 = 0 - v as i128;
                Some((neg as i64, end))
            },
            None => None,
        }
    } else {
        match parse_natural(s, pos, Ghost(m)) {
            Some((v, end)) => {
                if v > 0x7fff_ffff_ffff_ffff {
                    None
                } else {
                    Some((v as i64, end))
                }
            },
            None => None,
        }
    }
}

/// Reads the body of a JSON string at `pos`, through its closing quote;
/// finds `x` wherever `s` holds its escaped form there.
fn parse_string(s: &str, pos: usize, Ghost(x): Ghost<Seq<char>>) -> (r: Option<(String, usize)>)
    ensures
        string_at(s@, pos as int, x) ==> (r matches Some((o, end)) && o@ == x && end == pos
            + escaped(x).len() + 1),
{
    let ghost h = string_at(s@, pos as int, x);
    let ghost e = escaped(x);
    let n = s.unicode_len();
    let mut out = String::new();
    let mut i: usize = pos;
    let ghost mut k: int = 0;
    proof {
        assert(x.take(0) =~= Seq::<char>::empty());
        assert(out@ =~= x.take(0));
    }
    loop
        invariant
            n == s@.len(),
            pos <= i,
            h == string_at(s@, pos as int, x),
            e == escaped(x),
            h ==> 0 <= k <= x.len() && i == pos + escaped(x.take(k)).len() && out@ == x.take(k),
        decreases n + 2 - i,
    {
        proof {
            if h {
                lemma_escaped_concat(x.take(k), x.skip(k));
                assert(x =~= x.take(k) + x.skip(k));
                if k < x.len() {
                    lemma_escaped_front(x.skip(k));
                    assert(x.skip(k)[0] == x[k]);
                    assert(x.skip(k).skip(1) =~= x.skip(k + 1));
                    let pre = escaped(x.take(k));
                    let ec = escaped_char(x[k]);
                    assert(e =~= pre + ec + escaped(x.skip(k + 1)));
                    assert forall|j: int| 0 <= j < ec.len() implies s@[i + j] == ec[j] by {
                        assert(s@[i + j] == s@.subrange(pos as int, pos + e.len())[pre.len() + j]);
                    }
                    assert(s@[i as int] == ec[0]);
                    if ec.len() > 1 {
                        assert(s@[i + 1] == ec[1]);
                    }
                    if ec.len() == 6 {
                        assert(s@[i + 2] == ec[2]);
                        assert(s@[i + 3] == ec[3]);
                        assert(s@[i + 4] == ec[4]);
                        assert(s@[i + 5] == ec[5]);
                    }
                    if is_control(x[k]) && x[k] != '"' && x[k] != '\\' {
                        lemma_hex_round_trip((x[k] as u32 / 16) as int);
                        lemma_hex_round_trip((x[k] as u32 % 16) as int);
                    }
                    assert(x.take(k + 1).drop_last() =~= x.take(k));
                    assert(x.take(k + 1).last() == x[k]);
                    assert(x.take(k + 1) =~= x.take(k).push(x[k]));
                    assert(escaped(x.take(k + 1)) == pre + ec);
                } else {
                    assert(x.take(k) =~= x);
                }
            }
        }
        if i >= n {
            proof {
                if h {
                    assert(escaped(x.take(k)).len() <= e.len());
                }
            }
            return None;
        }
        let c = s.get_char(i);
        if c == '"' {
            proof {
                if h {
                    assert(k == x.len());
                    assert(x.take(k) =~= x);
                }
            }
            return Some((out, i + 1));
        }
        if c == '\\' {
            if i + 1 >= n {
                return None;
            }
            let esc = s.get_char(i + 1);
            if esc == 'u' {
                if n - i <= 5 {
                    return None;
                }
                if s.get_char(i + 2) != '0' || s.get_char(i + 3) != '0' {
                    return None;
                }
                let hi = match hex_value_of(s.get_char(i + 4)) {
                    Some(v) => v,
                    None => {
                        return None;
                    },
                };
                let lo = match hex_value_of(s.get_char(i + 5)) {
                    Some(v) => v,
                    None => {
                        return None;
                    },
                };
                if hi > 1 {
                    return None;
                }
                let code = (hi * 16 + lo) as u8;
                let ch = code as char;
                proof {
                    if h {
                        assert(x[k] as u32 == 16 * (x[k] as u32 / 16) + x[k] as u32 % 16);
                        assert(ch as u32 == x[k] as u32);
                        vstd::utf8::char_u32_cast(ch, ch as u32);
                        vstd::utf8::char_u32_cast(x[k], x[k] as u32);
                    }
                }
                push_char(&mut out, ch);
                i += 6;
                proof {
                    if h {
                        assert(escaped_char(x[k]).len() == 6);
                        assert(ch == x[k]);
                    }
                }
            } else {
                push_char(&mut out, esc);
                i += 2;
                proof {
                    if h {
                        assert(escaped_char(x[k]).len() == 2);
                        assert(esc == x[k]);
                    }
                }
            }
        } else {
            push_char(&mut out, c);
            i += 1;
            proof {
                if h {
                    assert(escaped_char(x[k]).len() == 1);
                    assert(c == x[k]);
                }
            }
        }
        proof {
            if h {
                k = k + 1;
            }
        }
    }
}

/// Whether `s` ends with `name` followed by `"}` from `pos` on.
fn role_tail_at(s: &str, pos: usize, name: &str) -> (r: bool)
    ensures
        r == (pos + name@.len() + 2 == s@.len() && s@.subrange(pos as int, s@.len() as int) == name@
            + "\"}"@),
{
    let n = s.unicode_len();
    let m = name.unicode_len();
    proof {
        reveal_strlit("\"}");
    }
    if !has_at(s, pos, name) {
        proof {
            if pos + name@.len() + 2 == s@.len() && s@.subrange(pos as int, s@.len() as int) == name@
                + "\"}"@ {
                assert(s@.subrange(pos as int, pos + m) =~= s@.subrange(pos as int, s@.len() as int).take(
                    m as int,
                ));
                assert((name@ + "\"}"@).take(m as int) =~= name@);
            }
        }
        return false;
    }
    let end = has_at(s, pos + m, "\"}");
    proof {
        reveal_strlit("\"}");
        if end && pos + m + 2 == n {
            assert(s@.subrange(pos as int, n as int) =~= s@.subrange(pos as int, pos + m) + s@.subrange(
                pos + m,
                n as int,
            ));
        }
        if pos + name@.len() + 2 == s@.len() && s@.subrange(pos as int, s@.len() as int) == name@
            + "\"}"@ {
            assert(s@.subrange(pos + m, pos + m + 2) =~= s@.subrange(pos as int, s@.len() as int).skip(
                m as int,
            ));
            assert((name@ + "\"}"@).skip(m as int) =~= "\"}"@);
        }
    }
    end && pos + m + 2 == n
}

/// The role whose name, then `"}`, ends `s` from `pos` on.
fn role_at(s: &str, pos: usize) -> (r: Option<UserRole>)
    ensures
        r matches Some(role) ==> pos + role_name(role).len() + 2 == s@.len() && s@.subrange(
            pos as int,
            s@.len() as int,
        ) == role_name(role) + "\"}"@,
        r is None ==> forall|role: UserRole|
            !(pos + role_name(role).len() + 2 == s@.len() && #[trigger] s@.subrange(
                pos as int,
                s@.len() as int,
            ) == role_name(role) + "\"}"@),
{
    if role_tail_at(s, pos, "Banned") {
        Some(UserRole::Banned)
    } else if role_tail_at(s, pos, "Viewer") {
        Some(UserRole::Viewer)
    } else if role_tail_at(s, pos, "Author") {
        Some(UserRole::Author)
    } else if role_tail_at(s, pos, "Moderator") {
        Some(UserRole::Moderator)
    } else if role_tail_at(s, pos, "Admin") {
        Some(UserRole::Admin)
    } else {
        proof {
            assert forall|role: UserRole|
                !(pos + role_name(role).len() + 2 == s@.len() && #[trigger] s@.subrange(
                    pos as int,
                    s@.len() as int,
                ) == role_name(role) + "\"}"@) by {
                match role {
                    UserRole::Banned => assert(role_name(role) == "Banned"@),
                    UserRole::Viewer => assert(role_name(role) == "Viewer"@),
                    UserRole::Author => assert(role_name(role) == "Author"@),
                    UserRole::Moderator => assert(role_name(role) == "Moderator"@),
                    UserRole::Admin => assert(role_name(role) == "Admin"@),
                }
            }
        }
        None
    }
}

/// The session in a cookie payload; `None` for anything that is not the
/// payload of a session. Decoding the payload of `d` gives back `d`.
pub fn decode(s: &str) -> (r: Option<SessionData>)
    ensures
        r matches Some(e) ==> s@ == cookie_text(e),
        forall|d: SessionData|
            #![trigger cookie_text(d)]
            s@ == cookie_text(d) ==> (r matches Some(e) && e.user_id == d.user_id && e.session_id@
                == d.session_id@ && e.role == d.role),
{
    let ghost h = exists|d: SessionData| s@ == cookie_text(d);
    let ghost d = choose|d: SessionData| s@ == cookie_text(d);
    let ghost user_key = "{\"user_id\":"@;
    let ghost session_key = ",\"session_id\":\""@;
    let ghost role_key = "\",\"role\":\""@;
    let ghost role_key_rest = ",\"role\":\""@;
    let ghost closing = "\"}"@;
    let ghost dt = decimal_text(d.user_id as int);
    let ghost es = escaped(d.session_id@);
    let ghost rn = role_name(d.role);
    let n = s.unicode_len();
    let ghost a0 = user_key.len() as int;
    let ghost a1 = a0 + dt.len();
    let ghost a2 = a1 + session_key.len();
    let ghost a3 = a2 + es.len();
    let ghost a4 = a3 + role_key.len();
    let ghost a5 = a4 + rn.len();
    proof {
        reveal_strlit("{\"user_id\":");
        reveal_strlit(",\"session_id\":\"");
        reveal_strlit("\",\"role\":\"");
        reveal_strlit(",\"role\":\"");
        reveal_strlit("\"}");
        if h {
            lemma_decimal_chars(d.user_id as int);
            assert(s@ =~= user_key + dt + session_key + es + role_key + rn + closing);
            assert(role_key =~= seq!['"'] + role_key_rest);
            assert(s@.subrange(0, a0) =~= user_key);
            assert(s@.subrange(a0, a1) =~= dt);
            assert(s@.subrange(a1, a2) =~= session_key);
            assert(s@.subrange(a2, a3) =~= es);
            assert(s@.subrange(a3, a4) =~= role_key);
            assert(s@.subrange(a4, a5) =~= rn);
            assert(s@.subrange(a5, s@.len() as int) =~= closing);
            assert(s@.len() == a5 + 2);
        }
    }
    let lead = "{\"user_id\":";
    if !has_at(s, 0, lead) {
        proof {
            if h {
                assert(s@.subrange(0, user_key.len() as int) =~= user_key);
            }
        }
        return None;
    }
    let pos = lead.unicode_len();
    proof {
        if h {
            assert(pos == a0);
            assert(s@[a1] == s@.subrange(a1, a2)[0]);
            assert(s@[pos + dt.len()] == ',');
            assert(integer_at(s@, pos as int, d.user_id as int));
        }
    }
    let (user_id, pos) = match parse_integer(s, pos, Ghost(d.user_id as int)) {
        Some(v) => v,
        None => {
            return None;
        },
    };
    let mid = ",\"session_id\":\"";
    if !has_at(s, pos, mid) {
        proof {
            if h {
                assert(pos == a1);
            }
        }
        return None;
    }
    let pos = pos + mid.unicode_len();
    proof {
        if h {
            assert(pos == a2);
            assert(s@[a3] == s@.subrange(a3, a4)[0]);
            assert(s@[pos + es.len()] == '"');
            assert(string_at(s@, pos as int, d.session_id@));
        }
    }
    let (session_id, pos) = match parse_string(s, pos, Ghost(d.session_id@)) {
        Some(v) => v,
        None => {
            return None;
        },
    };
    let tail = ",\"role\":\"";
    if !has_at(s, pos, tail) {
        proof {
            if h {
                assert(pos == a3 + 1);
                assert(role_key.skip(1) =~= role_key_rest);
                assert(s@.subrange(pos as int, pos + role_key_rest.len()) =~= s@.subrange(a3, a4).skip(1));
                assert(s@.subrange(pos as int, pos + role_key_rest.len()) =~= role_key_rest);
                assert(tail@ == role_key_rest);
            }
        }
        return None;
    }
    let pos = pos + tail.unicode_len();
    proof {
        if h {
            assert(pos == a4);
            assert(s@.subrange(pos as int, s@.len() as int) =~= s@.subrange(a4, a5) + s@.subrange(
                a5,
                s@.len() as int,
            ));
            assert(s@.subrange(pos as int, s@.len() as int) =~= rn + closing);
        }
    }
    let role = match role_at(s, pos) {
        Some(role) => role,
        None => {
            proof {
                if h {
                    assert(s@.subrange(pos as int, s@.len() as int) == role_name(d.role) + closing);
                    assert(pos + role_name(d.role).len() + 2 == s@.len());
                }
            }
            return None;
        },
    };
    proof {
        if h {
            let ra = s@.subrange(pos as int, s@.len() as int);
            assert(ra == role_name(role) + closing);
            assert(role_name(role) =~= ra.take(ra.len() - 2));
            assert(rn =~= ra.take(ra.len() - 2));
            lemma_role_name_injective(role, d.role);
        }
    }
    let data = SessionData { user_id, session_id, role };
    let text = encode(&data);
    let same = text.unicode_len() == s.unicode_len() && has_at(s, 0, text.as_str());
    proof {
        if same {
            assert(s@ =~= s@.subrange(0, s@.len() as int));
        }
        if h {
            assert(cookie_text(data) =~= cookie_text(d));
            assert(s@.subrange(0, s@.len() as int) =~= s@);
        }
        assert forall|d2: SessionData| #![trigger cookie_text(d2)] s@ == cookie_text(d2) implies (same
            && data.user_id == d2.user_id && data.session_id@ == d2.session_id@ && data.role
            == d2.role) by {
            assert(h);
            lemma_cookie_text_injective(d, d2);
        }
    }
    if same {
        Some(data)
    } else {
        None
    }
}

/// The session handle for a request, from its signed cookie's payload if it
/// had one: authenticated when the payload is a session's, anonymous otherwise.
pub fn session_from_cookie(payload: Option<&str>) -> (r: Session)
    ensures
        payload is None ==> r.data is None,
        payload matches Some(p) ==> (r.data matches Some(e) ==> p@ == cookie_text(e)),
        payload matches Some(p) ==> forall|d: SessionData|
            #![trigger cookie_text(d)]
            p@ == cookie_text(d) ==> (r.data matches Some(e) && e.user_id == d.user_id
                && e.session_id@ == d.session_id@ && e.role == d.role),
{
    match payload {
        None => Session::anonymous(),
        Some(p) => Session::from_data(decode(p)),
    }
}

} // verus!
