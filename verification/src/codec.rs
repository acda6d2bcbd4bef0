//! Control-protocol codec.
//!
//! An inbound channel message is either a control envelope or raw keystroke
//! bytes. A message whose first byte is `{` is parsed as a small JSON-like
//! object; if it carries a `"type"` member equal to `"resize"` together with
//! numeric `"cols"` and `"rows"` members, it is a resize directive, and
//! otherwise it is dropped without effect. Any other message is forwarded to
//! the terminal byte for byte, in order.
//!
//! The envelope grammar accepted here is deliberately exact: an object of
//! string or unsigned-integer members, with optional blank space between
//! tokens and members in any order; the first member with a given key
//! decides. Strings carry no escape sequences and numbers carry no sign,
//! leading zero, fraction or exponent; every number must fit the 16-bit
//! range that the window-size fields require. A message that strays from
//! this grammar is dropped, never acted on.
//!
//! The outbound direction decodes each chunk of terminal output as text,
//! substituting for invalid encoding rather than failing.

use vstd::prelude::*;
use vstd::slice::slice_subrange;
use vstd::slice::slice_to_vec;

verus! {

/// `{`
pub const LBRACE: u8 = 0x7b;
/// `}`
pub const RBRACE: u8 = 0x7d;
/// `"`
pub const QUOTE: u8 = 0x22;
/// `\`
pub const BACKSLASH: u8 = 0x5c;
/// `:`
pub const COLON: u8 = 0x3a;
/// `,`
pub const COMMA: u8 = 0x2c;
/// `0`
pub const DIGIT0: u8 = 0x30;
/// `9`
pub const DIGIT9: u8 = 0x39;

/// How one inbound channel message is to be acted on.
#[derive(Clone, Copy, PartialEq, Eq, Structural, Debug)]
pub enum Classification {
    /// A well-formed resize envelope: set the window size to these values.
    Resize { cols: u16, rows: u16 },
    /// Raw keystroke input: every byte of the message goes to the terminal.
    Keystrokes,
    /// A control envelope that does not parse or is not recognised: dropped.
    Malformed,
}

/// One member value of a parsed envelope, at the specification level.
pub enum JsonValue {
    Str(Seq<u8>),
    Num(int),
}

/// One member value of a parsed envelope, as executable data. Numbers are
/// kept only when they fit 16 bits, as the grammar demands.
pub enum ValE {
    Str(Vec<u8>),
    Num(u16),
}

impl View for ValE {
    type V = JsonValue;

    open spec fn view(&self) -> JsonValue {
        match self {
            ValE::Str(v) => JsonValue::Str(v@),
            ValE::Num(n) => JsonValue::Num(*n as int),
        }
    }
}

/// The members of an executable envelope, seen as specification data.
pub open spec fn members_view(ms: Seq<(Vec<u8>, ValE)>) -> Seq<(Seq<u8>, JsonValue)> {
    ms.map_values(|m: (Vec<u8>, ValE)| (m.0@, m.1@))
}

/// Blank space the envelope grammar allows between tokens.
pub open spec fn is_ws(b: u8) -> bool {
    b == 0x20 || b == 0x09 || b == 0x0a || b == 0x0d
}

/// ASCII decimal digit.
pub open spec fn is_digit(b: u8) -> bool {
    DIGIT0 <= b && b <= DIGIT9
}

/// First position at or after `i` holding no blank space.
pub open spec fn skip_ws(s: Seq<u8>, i: int) -> int
    decreases s.len() - i,
{
    if 0 <= i < s.len() && is_ws(s[i]) {
        skip_ws(s, i + 1)
    } else {
        i
    }
}

/// Position of the closing quote of a string whose content starts at `i`,
/// or nothing if the string is unterminated or holds an escape or a
/// control byte, which this grammar refuses.
pub open spec fn scan_string_end(s: Seq<u8>, i: int) -> Option<int>
    decreases s.len() - i,
{
    if 0 <= i < s.len() {
        if s[i] == QUOTE {
            Some(i)
        } else if s[i] == BACKSLASH || s[i] < 0x20 {
            None
        } else {
            scan_string_end(s, i + 1)
        }
    } else {
        None
    }
}

/// First position at or after `i` holding no decimal digit.
pub open spec fn scan_digits(s: Seq<u8>, i: int) -> int
    decreases s.len() - i,
{
    if 0 <= i < s.len() && is_digit(s[i]) {
        scan_digits(s, i + 1)
    } else {
        i
    }
}

/// Value of the decimal digit run `s[i .. j)`.
pub open spec fn digits_val(s: Seq<u8>, i: int, j: int) -> int
    decreases j - i,
{
    if 0 <= i && i < j && j <= s.len() {
        digits_val(s, i, j - 1) * 10 + (s[j - 1] - DIGIT0)
    } else {
        0
    }
}

/// A member value: a string, or an unsigned integer that fits 16 bits and
/// has no leading zero.
pub open spec fn parse_value(s: Seq<u8>, i: int) -> Option<(JsonValue, int)> {
    if 0 <= i < s.len() {
        if s[i] == QUOTE {
            match scan_string_end(s, i + 1) {
                None => None,
                Some(e) => Some((JsonValue::Str(s.subrange(i + 1, e)), e + 1)),
            }
        } else if is_digit(s[i]) {
            let j = scan_digits(s, i + 1);
            let v = digits_val(s, i, j);
            if (j - i == 1 || s[i] != DIGIT0) && 0 <= v <= 0xffff {
                Some((JsonValue::Num(v), j))
            } else {
                None
            }
        } else {
            None
        }
    } else {
        None
    }
}

/// One `"key": value` member starting at `i` (no blank space before the key).
pub open spec fn parse_member(s: Seq<u8>, i: int) -> Option<((Seq<u8>, JsonValue), int)> {
    if 0 <= i < s.len() && s[i] == QUOTE {
        match scan_string_end(s, i + 1) {
            None => None,
            Some(e) => {
                let key = s.subrange(i + 1, e);
                let k = skip_ws(s, e + 1);
                if k < s.len() && s[k] == COLON {
                    match parse_value(s, skip_ws(s, k + 1)) {
                        None => None,
                        Some((val, j)) => Some(((key, val), j)),
                    }
                } else {
                    None
                }
            },
        }
    } else {
        None
    }
}

/// A comma-separated member list starting at `i`; yields the members in
/// order and the first position after the last member that holds no blank
/// space.
pub open spec fn parse_members(s: Seq<u8>, i: int) -> Option<(Seq<(Seq<u8>, JsonValue)>, int)>
    decreases s.len() - i,
{
    match parse_member(s, i) {
        None => None,
        Some((m, j)) => {
            let k = skip_ws(s, j);
            if k < s.len() && s[k] == COMMA {
                let n = skip_ws(s, k + 1);
                if i < n && n <= s.len() {
                    match parse_members(s, n) {
                        None => None,
                        Some((rest, e)) => Some((seq![m] + rest, e)),
                    }
                } else {
                    None
                }
            } else {
                Some((seq![m], k))
            }
        },
    }
}

/// The whole message as one envelope: `{` first, the members, `}`, and
/// nothing but blank space after.
pub open spec fn parse_envelope(s: Seq<u8>) -> Option<Seq<(Seq<u8>, JsonValue)>> {
    if s.len() > 0 && s[0] == LBRACE {
        let k = skip_ws(s, 1);
        if k < s.len() && s[k] == RBRACE {
            if skip_ws(s, k + 1) == s.len() {
                Some(Seq::empty())
            } else {
                None
            }
        } else {
            match parse_members(s, k) {
                None => None,
                Some((ms, e)) => {
                    if e < s.len() && s[e] == RBRACE && skip_ws(s, e + 1) == s.len() {
                        Some(ms)
                    } else {
                        None
                    }
                },
            }
        }
    } else {
        None
    }
}

/// The value of the first member with the given key.
pub open spec fn lookup(ms: Seq<(Seq<u8>, JsonValue)>, key: Seq<u8>) -> Option<JsonValue>
    decreases ms.len(),
{
    if ms.len() == 0 {
        None
    } else if ms[0].0 == key {
        Some(ms[0].1)
    } else {
        lookup(ms.drop_first(), key)
    }
}

/// The bytes of `type`.
pub open spec fn type_key() -> Seq<u8> {
    seq![0x74u8, 0x79, 0x70, 0x65]
}

/// The bytes of `resize`.
pub open spec fn resize_word() -> Seq<u8> {
    seq![0x72u8, 0x65, 0x73, 0x69, 0x7a, 0x65]
}

/// The bytes of `cols`.
pub open spec fn cols_key() -> Seq<u8> {
    seq![0x63u8, 0x6f, 0x6c, 0x73]
}

/// The bytes of `rows`.
pub open spec fn rows_key() -> Seq<u8> {
    seq![0x72u8, 0x6f, 0x77, 0x73]
}

/// The resize directive a message carries, if any: the message must be a
/// well-formed envelope whose `type` is the string `resize` and whose
/// `cols` and `rows` are numbers; both fit 16 bits by the grammar.
pub open spec fn resize_of(s: Seq<u8>) -> Option<(u16, u16)> {
    match parse_envelope(s) {
        None => None,
        Some(ms) => {
            if lookup(ms, type_key()) == Some(JsonValue::Str(resize_word())) {
                match (lookup(ms, cols_key()), lookup(ms, rows_key())) {
                    (Some(JsonValue::Num(c)), Some(JsonValue::Num(r))) => {
                        if 0 <= c <= 0xffff && 0 <= r <= 0xffff {
                            Some((c as u16, r as u16))
                        } else {
                            None
                        }
                    },
                    _ => None,
                }
            } else {
                None
            }
        },
    }
}

/// How one inbound message is acted on: an envelope is a resize directive
/// or is dropped; anything else is keystrokes, forwarded verbatim.
pub open spec fn classify_spec(s: Seq<u8>) -> Classification {
    if s.len() > 0 && s[0] == LBRACE {
        match resize_of(s) {
            Some((cols, rows)) => Classification::Resize { cols, rows },
            None => Classification::Malformed,
        }
    } else {
        Classification::Keystrokes
    }
}

fn is_ws_byte(b: u8) -> (r: bool)
    ensures
        r == is_ws(b),
{
    b == 0x20 || b == 0x09 || b == 0x0a || b == 0x0d
}

fn is_digit_byte(b: u8) -> (r: bool)
    ensures
        r == is_digit(b),
{
    DIGIT0 <= b && b <= DIGIT9
}

fn skip_ws_exec(s: &[u8], i: usize) -> (r: usize)
    requires
        i <= s@.len(),
    ensures
        r as int == skip_ws(s@, i as int),
        i <= r <= s@.len(),
    decreases s@.len() - i,
{
    if i < s.len() && is_ws_byte(s[i]) {
        skip_ws_exec(s, i + 1)
    } else {
        i
    }
}

fn scan_string_end_exec(s: &[u8], i: usize) -> (r: Option<usize>)
    requires
        i <= s@.len(),
    ensures
        r is None ==> scan_string_end(s@, i as int) is None,
        r matches Some(e) ==> scan_string_end(s@, i as int) == Some(e as int) && i <= e < s@.len(),
    decreases s@.len() - i,
{
    if i < s.len() {
        let b = s[i];
        if b == QUOTE {
            Some(i)
        } else if b == BACKSLASH || b < 0x20 {
            None
        } else {
            match scan_string_end_exec(s, i + 1) {
                None => None,
                Some(e) => Some(e),
            }
        }
    } else {
        None
    }
}

fn scan_digits_exec(s: &[u8], i: usize) -> (r: usize)
    requires
        i <= s@.len(),
    ensures
        r as int == scan_digits(s@, i as int),
        i <= r <= s@.len(),
        forall|k: int| i <= k < r ==> is_digit(s@[k]),
    decreases s@.len() - i,
{
    if i < s.len() && is_digit_byte(s[i]) {
        scan_digits_exec(s, i + 1)
    } else {
        i
    }
}

/// Value of the digit run `s[i .. j)`, clamped to one past the 16-bit range
/// so that overflow and in-range values are still told apart exactly.
fn digits_value_exec(s: &[u8], i: usize, j: usize) -> (r: u32)
    requires
        i <= j <= s@.len(),
        forall|k: int| i <= k < j ==> is_digit(s@[k]),
    ensures
        digits_val(s@, i as int, j as int) >= 0,
        digits_val(s@, i as int, j as int) <= 0xffff ==> r == digits_val(s@, i as int, j as int),
        digits_val(s@, i as int, j as int) > 0xffff ==> r == 0x10000,
{
    let mut acc: u32 = 0;
    let mut k: usize = i;
    while k < j
        invariant
            i <= k <= j <= s@.len(),
            forall|t: int| i <= t < j ==> is_digit(s@[t]),
            digits_val(s@, i as int, k as int) >= 0,
            digits_val(s@, i as int, k as int) <= 0xffff ==> acc == digits_val(s@, i as int, k as int),
            digits_val(s@, i as int, k as int) > 0xffff ==> acc == 0x10000,
            acc <= 0x10000,
        decreases j - k,
    {
        let d = (s[k] - DIGIT0) as u32;
        let t = acc * 10 + d;
        acc = if t > 0xffff {
            0x10000
        } else {
            t
        };
        k = k + 1;
    }
    acc
}

fn parse_value_exec(s: &[u8], i: usize) -> (r: Option<(ValE, usize)>)
    requires
        i <= s@.len(),
    ensures
        r is None ==> parse_value(s@, i as int) is None,
        r matches Some(p) ==> parse_value(s@, i as int) == Some((p.0@, p.1 as int)) && i < p.1
            <= s@.len(),
{
    if i < s.len() {
        let b = s[i];
        if b == QUOTE {
            match scan_string_end_exec(s, i + 1) {
                None => None,
                Some(e) => {
                    let content = slice_to_vec(slice_subrange(s, i + 1, e));
                    Some((ValE::Str(content), e + 1))
                },
            }
        } else if is_digit_byte(b) {
            let j = scan_digits_exec(s, i + 1);
            let v = digits_value_exec(s, i, j);
            if (j == i + 1 || b != DIGIT0) && v <= 0xffff {
                Some((ValE::Num(v as u16), j))
            } else {
                None
            }
        } else {
            None
        }
    } else {
        None
    }
}

fn parse_member_exec(s: &[u8], i: usize) -> (r: Option<((Vec<u8>, ValE), usize)>)
    requires
        i <= s@.len(),
    ensures
        r is None ==> parse_member(s@, i as int) is None,
        r matches Some(p) ==> parse_member(s@, i as int) == Some(
            (((p.0).0@, (p.0).1@), p.1 as int),
        ) && i < p.1 <= s@.len(),
{
    if i < s.len() && s[i] == QUOTE {
        match scan_string_end_exec(s, i + 1) {
            None => None,
            Some(e) => {
                let key = slice_to_vec(slice_subrange(s, i + 1, e));
                let k = skip_ws_exec(s, e + 1);
                if k < s.len() && s[k] == COLON {
                    let v = skip_ws_exec(s, k + 1);
                    match parse_value_exec(s, v) {
                        None => None,
                        Some((val, j)) => Some(((key, val), j)),
                    }
                } else {
                    None
                }
            },
        }
    } else {
        None
    }
}

fn parse_members_exec(s: &[u8], i: usize) -> (r: Option<(Vec<(Vec<u8>, ValE)>, usize)>)
    requires
        i <= s@.len(),
    ensures
        r is None ==> parse_members(s@, i as int) is None,
        r matches Some(p) ==> parse_members(s@, i as int) == Some(
            (members_view(p.0@), p.1 as int),
        ) && i < p.1 <= s@.len(),
    decreases s@.len() - i,
{
    match parse_member_exec(s, i) {
        None => None,
        Some((m, j)) => {
            let k = skip_ws_exec(s, j);
            if k < s.len() && s[k] == COMMA {
                let n = skip_ws_exec(s, k + 1);
                match parse_members_exec(s, n) {
                    None => None,
                    Some((rest, e)) => {
                        let ghost rest_view = members_view(rest@);
                        let mut out = rest;
                        out.insert(0, m);
                        proof {
                            assert(members_view(out@) =~= seq![(m.0@, m.1@)] + rest_view);
                        }
                        Some((out, e))
                    },
                }
            } else {
                let mut out: Vec<(Vec<u8>, ValE)> = Vec::new();
                out.push(m);
                proof {
                    assert(members_view(out@) =~= seq![(m.0@, m.1@)]);
                }
                Some((out, k))
            }
        },
    }
}

fn parse_envelope_exec(s: &[u8]) -> (r: Option<Vec<(Vec<u8>, ValE)>>)
    ensures
        r is None ==> parse_envelope(s@) is None,
        r matches Some(ms) ==> parse_envelope(s@) == Some(members_view(ms@)),
{
    if s.len() > 0 && s[0] == LBRACE {
        let k = skip_ws_exec(s, 1);
        if k < s.len() && s[k] == RBRACE {
            if skip_ws_exec(s, k + 1) == s.len() {
                let out: Vec<(Vec<u8>, ValE)> = Vec::new();
                proof {
                    assert(members_view(out@) =~= Seq::<(Seq<u8>, JsonValue)>::empty());
                }
                Some(out)
            } else {
                None
            }
        } else {
            match parse_members_exec(s, k) {
                None => None,
                Some((ms, e)) => {
                    if e < s.len() && s[e] == RBRACE && skip_ws_exec(s, e + 1) == s.len() {
                        Some(ms)
                    } else {
                        None
                    }
                },
            }
        }
    } else {
        None
    }
}

fn bytes_eq(a: &[u8], b: &[u8]) -> (r: bool)
    ensures
        r == (a@ == b@),
{
    if a.len() != b.len() {
        return false;
    }
    let mut i: usize = 0;
    while i < a.len()
        invariant
            i <= a@.len(),
            a@.len() == b@.len(),
            forall|k: int| 0 <= k < i ==> a@[k] == b@[k],
        decreases a@.len() - i,
    {
        if a[i] != b[i] {
            return false;
        }
        i = i + 1;
    }
    proof {
        assert(a@ =~= b@);
    }
    true
}

fn type_key_bytes() -> (v: Vec<u8>)
    ensures
        v@ == type_key(),
{
    let v = vec![0x74u8, 0x79, 0x70, 0x65];
    proof {
        assert(v@ =~= type_key());
    }
    v
}

fn resize_word_bytes() -> (v: Vec<u8>)
    ensures
        v@ == resize_word(),
{
    let v = vec![0x72u8, 0x65, 0x73, 0x69, 0x7a, 0x65];
    proof {
        assert(v@ =~= resize_word());
    }
    v
}

fn cols_key_bytes() -> (v: Vec<u8>)
    ensures
        v@ == cols_key(),
{
    let v = vec![0x63u8, 0x6f, 0x6c, 0x73];
    proof {
        assert(v@ =~= cols_key());
    }
    v
}

fn rows_key_bytes() -> (v: Vec<u8>)
    ensures
        v@ == rows_key(),
{
    let v = vec![0x72u8, 0x6f, 0x77, 0x73];
    proof {
        assert(v@ =~= rows_key());
    }
    v
}

fn lookup_val<'a>(ms: &'a Vec<(Vec<u8>, ValE)>, key: &[u8]) -> (r: Option<&'a ValE>)
    ensures
        r is None ==> lookup(members_view(ms@), key@) is None,
        r matches Some(v) ==> lookup(members_view(ms@), key@) == Some(v@),
{
    let ghost full = members_view(ms@);
    proof {
        assert(full.skip(0) =~= full);
    }
    let mut i: usize = 0;
    while i < ms.len()
        invariant
            i <= ms@.len(),
            full == members_view(ms@),
            full.len() == ms@.len(),
            lookup(full, key@) == lookup(full.skip(i as int), key@),
        decreases ms@.len() - i,
    {
        let m = &ms[i];
        if bytes_eq(m.0.as_slice(), key) {
            assert(full.skip(i as int)[0] == full[i as int]);
            return Some(&m.1);
        }
        proof {
            assert(full.skip(i as int)[0] == full[i as int]);
            assert(full.skip(i as int).drop_first() =~= full.skip(i as int + 1));
        }
        i = i + 1;
    }
    proof {
        assert(full.skip(i as int) =~= Seq::<(Seq<u8>, JsonValue)>::empty());
    }
    None
}

/// The resize directive a message carries, if any, exactly as `resize_of`
/// states it.
pub fn parse_resize(s: &[u8]) -> (r: Option<(u16, u16)>)
    ensures
        r == resize_of(s@),
{
    let ms = match parse_envelope_exec(s) {
        None => {
            return None;
        },
        Some(ms) => ms,
    };
    let tk = type_key_bytes();
    let rw = resize_word_bytes();
    let ok_type = match lookup_val(&ms, tk.as_slice()) {
        Some(v) => match v {
            ValE::Str(w) => bytes_eq(w.as_slice(), rw.as_slice()),
            ValE::Num(_) => false,
        },
        None => false,
    };
    if !ok_type {
        return None;
    }
    let ck = cols_key_bytes();
    let rk = rows_key_bytes();
    let cols = match lookup_val(&ms, ck.as_slice()) {
        Some(v) => match v {
            ValE::Num(n) => Some(*n),
            ValE::Str(_) => None,
        },
        None => None,
    };
    let rows = match lookup_val(&ms, rk.as_slice()) {
        Some(v) => match v {
            ValE::Num(n) => Some(*n),
            ValE::Str(_) => None,
        },
        None => None,
    };
    match (cols, rows) {
        (Some(c), Some(r)) => Some((c, r)),
        _ => None,
    }
}

/// Classifies one inbound message, exactly as `classify_spec` states it.
pub fn classify(msg: &[u8]) -> (c: Classification)
    ensures
        c == classify_spec(msg@),
{
    if msg.len() > 0 && msg[0] == LBRACE {
        match parse_resize(msg) {
            Some((cols, rows)) => Classification::Resize { cols, rows },
            None => Classification::Malformed,
        }
    } else {
        Classification::Keystrokes
    }
}

/// The text a chunk of terminal output is carried as; invalid encoding is
/// replaced, never an error.
pub uninterp spec fn lossy_decode(bytes: Seq<u8>) -> Seq<char>;

/// Relies on `String::from_utf8_lossy`: the decoded text is a function of
/// the bytes alone, and bytes that are valid UTF-8 — in particular pure
/// ASCII — come back unchanged.
#[verifier::external_body]
pub(crate) fn decode_lossy(bytes: &[u8]) -> (r: String)
    ensures
        r@ == lossy_decode(bytes@),
        (forall|k: int| 0 <= k < bytes@.len() ==> bytes@[k] < 0x80) ==> r@ == bytes@.map_values(
            |b: u8| b as char,
        ),
{
    String::from_utf8_lossy(bytes).into_owned()
}

} // verus!
