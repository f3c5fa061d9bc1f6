//! Decoding of the payload document.
//!
//! The payload is a JSON object with a `features` member (an array of
//! strings) and an optional `expires` member (an RFC 3339 string, or `null`
//! for a non-expiring license). Every other member is skipped, whatever its
//! value, so that future fields do not break older verifiers. A document
//! that is not such an object is corrupt, and decoding yields `None`.
//!
//! One restriction against full JSON: the `\u` escape inside strings is not
//! supported; a payload using it is reported as corrupt. As common JSON
//! parsers do, arrays and objects nested deeper than a fixed limit are
//! refused (see [`spec_value_depth`]), which also bounds the recursion the
//! decoder performs on untrusted input.
//!
//! The grammar is stated by the `spec_` functions over byte sequences; each
//! executable function is proved to compute exactly what its spec function
//! says.

use vstd::prelude::*;

verus! {

/// The structured fields decoded from a payload document: the feature names
/// (unescaped, in document order) and the verbatim expiration string, if one
/// was given.
pub struct LicensePayload {
    pub features: Vec<Vec<u8>>,
    pub expires: Option<Vec<u8>>,
}

pub open spec fn views_of(v: Seq<Vec<u8>>) -> Seq<Seq<u8>> {
    Seq::new(v.len(), |k: int| v[k]@)
}

pub open spec fn opt_bytes_view(o: Option<Vec<u8>>) -> Option<Seq<u8>> {
    match o {
        Some(v) => Some(v@),
        None => None,
    }
}

pub open spec fn feats_view(f: Option<Vec<Vec<u8>>>) -> Option<Seq<Seq<u8>>> {
    match f {
        Some(v) => Some(views_of(v@)),
        None => None,
    }
}

pub open spec fn exp_view(e: Option<Option<Vec<u8>>>) -> Option<Option<Seq<u8>>> {
    match e {
        Some(o) => Some(opt_bytes_view(o)),
        None => None,
    }
}

pub open spec fn spec_features_key() -> Seq<u8> {
    seq![0x66u8, 0x65u8, 0x61u8, 0x74u8, 0x75u8, 0x72u8, 0x65u8, 0x73u8]
}

pub open spec fn spec_expires_key() -> Seq<u8> {
    seq![0x65u8, 0x78u8, 0x70u8, 0x69u8, 0x72u8, 0x65u8, 0x73u8]
}

pub open spec fn spec_true_lit() -> Seq<u8> {
    seq![0x74u8, 0x72u8, 0x75u8, 0x65u8]
}

pub open spec fn spec_false_lit() -> Seq<u8> {
    seq![0x66u8, 0x61u8, 0x6cu8, 0x73u8, 0x65u8]
}

pub open spec fn spec_null_lit() -> Seq<u8> {
    seq![0x6eu8, 0x75u8, 0x6cu8, 0x6cu8]
}

pub open spec fn spec_is_ws(b: u8) -> bool {
    b == 0x20u8 || b == 0x09u8 || b == 0x0au8 || b == 0x0du8
}

pub open spec fn spec_is_digit(b: u8) -> bool {
    0x30u8 <= b <= 0x39u8
}

/// The first position at or after `i` that does not hold whitespace.
pub open spec fn spec_skip_ws(s: Seq<u8>, i: int) -> int
    decreases s.len() - i,
{
    if 0 <= i < s.len() && spec_is_ws(s[i]) {
        spec_skip_ws(s, i + 1)
    } else {
        i
    }
}

/// True when `w` occurs in `s` starting at position `i`.
pub open spec fn matches_at(s: Seq<u8>, i: int, w: Seq<u8>) -> bool {
    &&& 0 <= i
    &&& i + w.len() <= s.len()
    &&& s.subrange(i, i + w.len() as int) == w
}

/// What one escape designator after a backslash stands for.
pub open spec fn spec_unescape_byte(b: u8) -> Option<u8> {
    if b == 0x22u8 {
        Some(0x22u8)
    } else if b == 0x5cu8 {
        Some(0x5cu8)
    } else if b == 0x2fu8 {
        Some(0x2fu8)
    } else if b == 0x62u8 {
        Some(0x08u8)
    } else if b == 0x66u8 {
        Some(0x0cu8)
    } else if b == 0x6eu8 {
        Some(0x0au8)
    } else if b == 0x72u8 {
        Some(0x0du8)
    } else if b == 0x74u8 {
        Some(0x09u8)
    } else {
        None
    }
}

/// The unescaped content of a string whose opening quote stands just before
/// `i`, with the position after its closing quote. Raw control bytes and
/// unsupported escapes make the string invalid.
pub open spec fn spec_string_body(s: Seq<u8>, i: int) -> Option<(Seq<u8>, int)>
    decreases s.len() - i,
{
    if !(0 <= i < s.len()) {
        None
    } else if s[i] == 0x22u8 {
        Some((Seq::empty(), i + 1))
    } else if s[i] == 0x5cu8 {
        if i + 1 < s.len() {
            match spec_unescape_byte(s[i + 1]) {
                None => None,
                Some(u) => match spec_string_body(s, i + 2) {
                    None => None,
                    Some(p) => Some((seq![u] + p.0, p.1)),
                },
            }
        } else {
            None
        }
    } else if s[i] >= 0x20u8 {
        match spec_string_body(s, i + 1) {
            None => None,
            Some(p) => Some((seq![s[i]] + p.0, p.1)),
        }
    } else {
        None
    }
}

/// The first position at or after `i` that does not hold a decimal digit.
pub open spec fn spec_skip_digits(s: Seq<u8>, i: int) -> int
    decreases s.len() - i,
{
    if 0 <= i < s.len() && spec_is_digit(s[i]) {
        spec_skip_digits(s, i + 1)
    } else {
        i
    }
}

/// End of the integer part of a number starting at `i`: a lone zero, or a
/// nonzero digit followed by digits.
pub open spec fn spec_skip_int(s: Seq<u8>, i: int) -> Option<int> {
    if 0 <= i < s.len() && spec_is_digit(s[i]) {
        if s[i] == 0x30u8 {
            Some(i + 1)
        } else {
            Some(spec_skip_digits(s, i))
        }
    } else {
        None
    }
}

/// End of an optional fraction part starting at `i`.
pub open spec fn spec_skip_frac(s: Seq<u8>, i: int) -> Option<int> {
    if 0 <= i < s.len() && s[i] == 0x2eu8 {
        if i + 1 < s.len() && spec_is_digit(s[i + 1]) {
            Some(spec_skip_digits(s, i + 1))
        } else {
            None
        }
    } else {
        Some(i)
    }
}

/// End of an optional exponent part starting at `i`.
pub open spec fn spec_skip_exp(s: Seq<u8>, i: int) -> Option<int> {
    if 0 <= i < s.len() && (s[i] == 0x65u8 || s[i] == 0x45u8) {
        let j = if i + 1 < s.len() && (s[i + 1] == 0x2bu8 || s[i + 1] == 0x2du8) {
            i + 2
        } else {
            i + 1
        };
        if 0 <= j < s.len() && spec_is_digit(s[j]) {
            Some(spec_skip_digits(s, j))
        } else {
            None
        }
    } else {
        Some(i)
    }
}

/// End of a number starting at `i`.
pub open spec fn spec_skip_number(s: Seq<u8>, i: int) -> Option<int> {
    let i0 = if 0 <= i < s.len() && s[i] == 0x2du8 {
        i + 1
    } else {
        i
    };
    match spec_skip_int(s, i0) {
        None => None,
        Some(i1) => match spec_skip_frac(s, i1) {
            None => None,
            Some(i2) => spec_skip_exp(s, i2),
        },
    }
}

/// How deep arrays and objects may nest inside one member value: the
/// customary limit of 128 for a whole document, less the top-level object.
pub open spec fn spec_value_depth() -> nat {
    127
}

/// End of any well-formed value starting at `i`; the value itself is
/// discarded. Used to step over members the verifier does not know. Each
/// array or object consumes one unit of `depth`; a value nested deeper is
/// invalid, as common JSON parsers refuse it.
pub open spec fn spec_skip_value(s: Seq<u8>, i: int, depth: nat) -> Option<int>
    decreases depth, s.len() - i, 0int,
{
    if !(0 <= i < s.len()) {
        None
    } else if s[i] == 0x22u8 {
        match spec_string_body(s, i + 1) {
            None => None,
            Some(p) => Some(p.1),
        }
    } else if s[i] == 0x7bu8 {
        if depth == 0 {
            None
        } else {
            let i1 = spec_skip_ws(s, i + 1);
            if 0 <= i1 < s.len() && s[i1] == 0x7du8 {
                Some(i1 + 1)
            } else if i < i1 && i1 <= s.len() {
                spec_skip_members(s, i1, (depth - 1) as nat)
            } else {
                None
            }
        }
    } else if s[i] == 0x5bu8 {
        if depth == 0 {
            None
        } else {
            let i1 = spec_skip_ws(s, i + 1);
            if 0 <= i1 < s.len() && s[i1] == 0x5du8 {
                Some(i1 + 1)
            } else if i < i1 && i1 <= s.len() {
                spec_skip_elements(s, i1, (depth - 1) as nat)
            } else {
                None
            }
        }
    } else if matches_at(s, i, spec_true_lit()) {
        Some(i + 4)
    } else if matches_at(s, i, spec_false_lit()) {
        Some(i + 5)
    } else if matches_at(s, i, spec_null_lit()) {
        Some(i + 4)
    } else if s[i] == 0x2du8 || spec_is_digit(s[i]) {
        spec_skip_number(s, i)
    } else {
        None
    }
}

/// End of an object's member list whose first key starts at `i`, closing
/// brace included.
pub open spec fn spec_skip_members(s: Seq<u8>, i: int, depth: nat) -> Option<int>
    decreases depth, s.len() - i, 1int,
{
    if !(0 <= i < s.len()) || s[i] != 0x22u8 {
        None
    } else {
        match spec_string_body(s, i + 1) {
            None => None,
            Some(p) => {
                let j1 = spec_skip_ws(s, p.1);
                if 0 <= j1 < s.len() && s[j1] == 0x3au8 {
                    let j2 = spec_skip_ws(s, j1 + 1);
                    if i < j2 && j2 <= s.len() {
                        match spec_skip_value(s, j2, depth) {
                            None => None,
                            Some(k) => {
                                let k1 = spec_skip_ws(s, k);
                                if 0 <= k1 < s.len() && s[k1] == 0x2cu8 {
                                    let k2 = spec_skip_ws(s, k1 + 1);
                                    if i < k2 && k2 <= s.len() {
                                        spec_skip_members(s, k2, depth)
                                    } else {
                                        None
                                    }
                                } else if 0 <= k1 < s.len() && s[k1] == 0x7du8 {
                                    Some(k1 + 1)
                                } else {
                                    None
                                }
                            },
                        }
                    } else {
                        None
                    }
                } else {
                    None
                }
            },
        }
    }
}

/// End of an array's element list whose first element starts at `i`, closing
/// bracket included.
pub open spec fn spec_skip_elements(s: Seq<u8>, i: int, depth: nat) -> Option<int>
    decreases depth, s.len() - i, 1int,
{
    if !(0 <= i < s.len()) {
        None
    } else {
        match spec_skip_value(s, i, depth) {
            None => None,
            Some(k) => {
                let k1 = spec_skip_ws(s, k);
                if 0 <= k1 < s.len() && s[k1] == 0x2cu8 {
                    let k2 = spec_skip_ws(s, k1 + 1);
                    if i < k2 && k2 <= s.len() {
                        spec_skip_elements(s, k2, depth)
                    } else {
                        None
                    }
                } else if 0 <= k1 < s.len() && s[k1] == 0x5du8 {
                    Some(k1 + 1)
                } else {
                    None
                }
            },
        }
    }
}

/// The strings of an array's element list whose first element starts at `i`,
/// with the position after the closing bracket. A non-string element makes
/// the list invalid.
pub open spec fn spec_parse_string_items(s: Seq<u8>, i: int) -> Option<(Seq<Seq<u8>>, int)>
    decreases s.len() - i,
{
    if !(0 <= i < s.len()) || s[i] != 0x22u8 {
        None
    } else {
        match spec_string_body(s, i + 1) {
            None => None,
            Some(p) => {
                let j1 = spec_skip_ws(s, p.1);
                if 0 <= j1 < s.len() && s[j1] == 0x2cu8 {
                    let j2 = spec_skip_ws(s, j1 + 1);
                    if i < j2 && j2 <= s.len() {
                        match spec_parse_string_items(s, j2) {
                            None => None,
                            Some(q) => Some((seq![p.0] + q.0, q.1)),
                        }
                    } else {
                        None
                    }
                } else if 0 <= j1 < s.len() && s[j1] == 0x5du8 {
                    Some((seq![p.0], j1 + 1))
                } else {
                    None
                }
            },
        }
    }
}

/// The feature list: an array of strings starting at `i`.
pub open spec fn spec_parse_features(s: Seq<u8>, i: int) -> Option<(Seq<Seq<u8>>, int)> {
    if !(0 <= i < s.len()) || s[i] != 0x5bu8 {
        None
    } else {
        let i1 = spec_skip_ws(s, i + 1);
        if 0 <= i1 < s.len() && s[i1] == 0x5du8 {
            Some((Seq::empty(), i1 + 1))
        } else {
            spec_parse_string_items(s, i1)
        }
    }
}

/// The expiration member's value: `null` for none, or a string kept
/// verbatim. Any other value makes the document invalid.
pub open spec fn spec_parse_expires(s: Seq<u8>, i: int) -> Option<(Option<Seq<u8>>, int)> {
    if matches_at(s, i, spec_null_lit()) {
        Some((None, i + 4))
    } else if 0 <= i < s.len() && s[i] == 0x22u8 {
        match spec_string_body(s, i + 1) {
            None => None,
            Some(p) => Some((Some(p.0), p.1)),
        }
    } else {
        None
    }
}

/// How one member's value, starting at `i`, updates the fields gathered so
/// far. A known key seen twice makes the document invalid; an unknown key's
/// value is skipped.
pub open spec fn spec_member_value(
    s: Seq<u8>,
    i: int,
    key: Seq<u8>,
    feats: Option<Seq<Seq<u8>>>,
    exp: Option<Option<Seq<u8>>>,
) -> Option<(Option<Seq<Seq<u8>>>, Option<Option<Seq<u8>>>, int)> {
    if key == spec_features_key() {
        if feats is Some {
            None
        } else {
            match spec_parse_features(s, i) {
                None => None,
                Some(p) => Some((Some(p.0), exp, p.1)),
            }
        }
    } else if key == spec_expires_key() {
        if exp is Some {
            None
        } else {
            match spec_parse_expires(s, i) {
                None => None,
                Some(p) => Some((feats, Some(p.0), p.1)),
            }
        }
    } else {
        match spec_skip_value(s, i, spec_value_depth()) {
            None => None,
            Some(k) => Some((feats, exp, k)),
        }
    }
}

/// The fields of the top-level object whose first key starts at `i`, with
/// `feats` and `exp` the members already gathered. The closing brace must be
/// followed by whitespace only, and a `features` member must have occurred.
pub open spec fn spec_payload_members(
    s: Seq<u8>,
    i: int,
    feats: Option<Seq<Seq<u8>>>,
    exp: Option<Option<Seq<u8>>>,
) -> Option<(Seq<Seq<u8>>, Option<Seq<u8>>)>
    decreases s.len() - i,
{
    if !(0 <= i < s.len()) || s[i] != 0x22u8 {
        None
    } else {
        match spec_string_body(s, i + 1) {
            None => None,
            Some(key) => {
                let j1 = spec_skip_ws(s, key.1);
                if 0 <= j1 < s.len() && s[j1] == 0x3au8 {
                    let j2 = spec_skip_ws(s, j1 + 1);
                    if i < j2 && j2 <= s.len() {
                        match spec_member_value(s, j2, key.0, feats, exp) {
                            None => None,
                            Some(st) => {
                                let k1 = spec_skip_ws(s, st.2);
                                if 0 <= k1 < s.len() && s[k1] == 0x2cu8 {
                                    let k2 = spec_skip_ws(s, k1 + 1);
                                    if i < k2 && k2 <= s.len() {
                                        spec_payload_members(s, k2, st.0, st.1)
                                    } else {
                                        None
                                    }
                                } else if 0 <= k1 < s.len() && s[k1] == 0x7du8 {
                                    if spec_skip_ws(s, k1 + 1) == s.len() {
                                        match st.0 {
                                            Some(f) => Some(
                                                (
                                                    f,
                                                    match st.1 {
                                                        Some(e) => e,
                                                        None => None,
                                                    },
                                                ),
                                            ),
                                            None => None,
                                        }
                                    } else {
                                        None
                                    }
                                } else {
                                    None
                                }
                            },
                        }
                    } else {
                        None
                    }
                } else {
                    None
                }
            },
        }
    }
}

/// The decoded fields of a whole payload document, or `None` where the bytes
/// are not a payload object.
pub open spec fn spec_payload_of(s: Seq<u8>) -> Option<(Seq<Seq<u8>>, Option<Seq<u8>>)> {
    let i = spec_skip_ws(s, 0);
    if 0 <= i < s.len() && s[i] == 0x7bu8 {
        let i1 = spec_skip_ws(s, i + 1);
        if 0 <= i1 < s.len() && s[i1] == 0x7du8 {
            None
        } else {
            spec_payload_members(s, i1, None, None)
        }
    } else {
        None
    }
}

pub(crate) fn bytes_eq(a: &[u8], b: &[u8]) -> (r: bool)
    ensures
        r == (a@ == b@),
{
    if a.len() != b.len() {
        proof {
            if a@ == b@ {
                assert(a@.len() == b@.len());
            }
        }
        return false;
    }
    let mut k: usize = 0;
    while k < a.len()
        invariant
            a@.len() == b@.len(),
            k <= a.len(),
            forall|m: int| 0 <= m < k ==> a@[m] == b@[m],
        decreases a.len() - k,
    {
        if a[k] != b[k] {
            proof {
                if a@ == b@ {
                    assert(a@[k as int] == b@[k as int]);
                }
            }
            return false;
        }
        k += 1;
    }
    proof {
        assert(a@ =~= b@);
    }
    true
}

fn skip_ws(s: &[u8], i: usize) -> (r: usize)
    requires
        i <= s.len(),
    ensures
        i <= r <= s.len(),
        r as int == spec_skip_ws(s@, i as int),
{
    let mut cur = i;
    while cur < s.len() && (s[cur] == 0x20 || s[cur] == 0x09 || s[cur] == 0x0a || s[cur] == 0x0d)
        invariant
            i <= cur <= s.len(),
            spec_skip_ws(s@, i as int) == spec_skip_ws(s@, cur as int),
        decreases s.len() - cur,
    {
        cur += 1;
    }
    cur
}

fn unescape_byte(b: u8) -> (r: Option<u8>)
    ensures
        r == spec_unescape_byte(b),
{
    if b == 0x22 {
        Some(0x22)
    } else if b == 0x5c {
        Some(0x5c)
    } else if b == 0x2f {
        Some(0x2f)
    } else if b == 0x62 {
        Some(0x08)
    } else if b == 0x66 {
        Some(0x0c)
    } else if b == 0x6e {
        Some(0x0a)
    } else if b == 0x72 {
        Some(0x0d)
    } else if b == 0x74 {
        Some(0x09)
    } else {
        None
    }
}

/// The content already consumed, put back in front of a parse result.
spec fn prepend_body(a: Seq<u8>, o: Option<(Seq<u8>, int)>) -> Option<(Seq<u8>, int)> {
    match o {
        Some(p) => Some((a + p.0, p.1)),
        None => None,
    }
}

fn string_body(s: &[u8], i: usize) -> (r: Option<(Vec<u8>, usize)>)
    requires
        i <= s.len(),
    ensures
        match r {
            Some(p) => spec_string_body(s@, i as int) == Some((p.0@, p.1 as int)) && i < p.1
                <= s.len(),
            None => spec_string_body(s@, i as int) is None,
        },
{
    let mut acc: Vec<u8> = Vec::new();
    let mut cur = i;
    proof {
        match spec_string_body(s@, i as int) {
            Some(p) => {
                assert(acc@ + p.0 =~= p.0);
            },
            None => {},
        }
    }
    loop
        invariant
            i <= cur <= s.len(),
            spec_string_body(s@, i as int) == prepend_body(
                acc@,
                spec_string_body(s@, cur as int),
            ),
        decreases s.len() - cur,
    {
        if cur >= s.len() {
            return None;
        }
        let b = s[cur];
        if b == 0x22 {
            proof {
                assert(acc@ + Seq::<u8>::empty() =~= acc@);
            }
            return Some((acc, cur + 1));
        } else if b == 0x5c {
            if cur + 1 < s.len() {
                match unescape_byte(s[cur + 1]) {
                    None => {
                        return None;
                    },
                    Some(u) => {
                        let ghost av = acc@;
                        acc.push(u);
                        proof {
                            match spec_string_body(s@, cur as int + 2) {
                                Some(p) => {
                                    assert(av + (seq![u] + p.0) =~= acc@ + p.0);
                                },
                                None => {},
                            }
                        }
                        cur = cur + 2;
                    },
                }
            } else {
                return None;
            }
        } else if b >= 0x20 {
            let ghost av = acc@;
            acc.push(b);
            proof {
                match spec_string_body(s@, cur as int + 1) {
                    Some(p) => {
                        assert(av + (seq![b] + p.0) =~= acc@ + p.0);
                    },
                    None => {},
                }
            }
            cur = cur + 1;
        } else {
            return None;
        }
    }
}

fn skip_digits(s: &[u8], i: usize) -> (r: usize)
    requires
        i <= s.len(),
    ensures
        i <= r <= s.len(),
        r as int == spec_skip_digits(s@, i as int),
        i < s.len() && spec_is_digit(s@[i as int]) ==> r > i,
{
    let mut cur = i;
    while cur < s.len() && s[cur] >= 0x30 && s[cur] <= 0x39
        invariant
            i <= cur <= s.len(),
            spec_skip_digits(s@, i as int) == spec_skip_digits(s@, cur as int),
            cur == i || cur > i,
        decreases s.len() - cur,
    {
        cur += 1;
    }
    cur
}

fn skip_int(s: &[u8], i: usize) -> (r: Option<usize>)
    requires
        i <= s.len(),
    ensures
        match r {
            Some(j) => spec_skip_int(s@, i as int) == Some(j as int) && i < j <= s.len(),
            None => spec_skip_int(s@, i as int) is None,
        },
{
    if i < s.len() && s[i] >= 0x30 && s[i] <= 0x39 {
        if s[i] == 0x30 {
            Some(i + 1)
        } else {
            Some(skip_digits(s, i))
        }
    } else {
        None
    }
}

fn skip_frac(s: &[u8], i: usize) -> (r: Option<usize>)
    requires
        i <= s.len(),
    ensures
        match r {
            Some(j) => spec_skip_frac(s@, i as int) == Some(j as int) && i <= j <= s.len(),
            None => spec_skip_frac(s@, i as int) is None,
        },
{
    if i < s.len() && s[i] == 0x2e {
        if i + 1 < s.len() && s[i + 1] >= 0x30 && s[i + 1] <= 0x39 {
            Some(skip_digits(s, i + 1))
        } else {
            None
        }
    } else {
        Some(i)
    }
}

fn skip_exp(s: &[u8], i: usize) -> (r: Option<usize>)
    requires
        i <= s.len(),
    ensures
        match r {
            Some(j) => spec_skip_exp(s@, i as int) == Some(j as int) && i <= j <= s.len(),
            None => spec_skip_exp(s@, i as int) is None,
        },
{
    if i < s.len() && (s[i] == 0x65 || s[i] == 0x45) {
        let j = if i + 1 < s.len() && (s[i + 1] == 0x2b || s[i + 1] == 0x2d) {
            i + 2
        } else {
            i + 1
        };
        if j < s.len() && s[j] >= 0x30 && s[j] <= 0x39 {
            Some(skip_digits(s, j))
        } else {
            None
        }
    } else {
        Some(i)
    }
}

fn skip_number(s: &[u8], i: usize) -> (r: Option<usize>)
    requires
        i <= s.len(),
    ensures
        match r {
            Some(j) => spec_skip_number(s@, i as int) == Some(j as int) && i < j <= s.len(),
            None => spec_skip_number(s@, i as int) is None,
        },
{
    let i0 = if i < s.len() && s[i] == 0x2d {
        i + 1
    } else {
        i
    };
    match skip_int(s, i0) {
        None => None,
        Some(i1) => match skip_frac(s, i1) {
            None => None,
            Some(i2) => skip_exp(s, i2),
        },
    }
}

fn match_true(s: &[u8], i: usize) -> (r: bool)
    requires
        i <= s.len(),
    ensures
        r == matches_at(s@, i as int, spec_true_lit()),
{
    let r = s.len() - i >= 4 && s[i] == 0x74 && s[i + 1] == 0x72 && s[i + 2] == 0x75 && s[i + 3]
        == 0x65;
    proof {
        if r {
            assert(s@.subrange(i as int, i as int + 4) =~= spec_true_lit());
        } else if matches_at(s@, i as int, spec_true_lit()) {
            assert(s@.subrange(i as int, i as int + 4)[0] == s@[i as int]);
            assert(s@.subrange(i as int, i as int + 4)[1] == s@[i as int + 1]);
            assert(s@.subrange(i as int, i as int + 4)[2] == s@[i as int + 2]);
            assert(s@.subrange(i as int, i as int + 4)[3] == s@[i as int + 3]);
        }
    }
    r
}

fn match_false(s: &[u8], i: usize) -> (r: bool)
    requires
        i <= s.len(),
    ensures
        r == matches_at(s@, i as int, spec_false_lit()),
{
    let r = s.len() - i >= 5 && s[i] == 0x66 && s[i + 1] == 0x61 && s[i + 2] == 0x6c && s[i + 3]
        == 0x73 && s[i + 4] == 0x65;
    proof {
        if r {
            assert(s@.subrange(i as int, i as int + 5) =~= spec_false_lit());
        } else if matches_at(s@, i as int, spec_false_lit()) {
            assert(s@.subrange(i as int, i as int + 5)[0] == s@[i as int]);
            assert(s@.subrange(i as int, i as int + 5)[1] == s@[i as int + 1]);
            assert(s@.subrange(i as int, i as int + 5)[2] == s@[i as int + 2]);
            assert(s@.subrange(i as int, i as int + 5)[3] == s@[i as int + 3]);
            assert(s@.subrange(i as int, i as int + 5)[4] == s@[i as int + 4]);
        }
    }
    r
}

fn match_null(s: &[u8], i: usize) -> (r: bool)
    requires
        i <= s.len(),
    ensures
        r == matches_at(s@, i as int, spec_null_lit()),
{
    let r = s.len() - i >= 4 && s[i] == 0x6e && s[i + 1] == 0x75 && s[i + 2] == 0x6c && s[i + 3]
        == 0x6c;
    proof {
        if r {
            assert(s@.subrange(i as int, i as int + 4) =~= spec_null_lit());
        } else if matches_at(s@, i as int, spec_null_lit()) {
            assert(s@.subrange(i as int, i as int + 4)[0] == s@[i as int]);
            assert(s@.subrange(i as int, i as int + 4)[1] == s@[i as int + 1]);
            assert(s@.subrange(i as int, i as int + 4)[2] == s@[i as int + 2]);
            assert(s@.subrange(i as int, i as int + 4)[3] == s@[i as int + 3]);
        }
    }
    r
}

fn skip_value(s: &[u8], i: usize, depth: u32) -> (r: Option<usize>)
    requires
        i <= s.len(),
    ensures
        match r {
            Some(j) => spec_skip_value(s@, i as int, depth as nat) == Some(j as int) && i < j
                <= s.len(),
            None => spec_skip_value(s@, i as int, depth as nat) is None,
        },
    decreases depth, s.len() - i, 0int,
{
    if i >= s.len() {
        return None;
    }
    let b = s[i];
    if b == 0x22 {
        match string_body(s, i + 1) {
            None => None,
            Some((_, j)) => Some(j),
        }
    } else if b == 0x7b {
        if depth == 0 {
            return None;
        }
        let i1 = skip_ws(s, i + 1);
        if i1 < s.len() && s[i1] == 0x7d {
            Some(i1 + 1)
        } else {
            skip_members(s, i1, depth - 1)
        }
    } else if b == 0x5b {
        if depth == 0 {
            return None;
        }
        let i1 = skip_ws(s, i + 1);
        if i1 < s.len() && s[i1] == 0x5d {
            Some(i1 + 1)
        } else {
            skip_elements(s, i1, depth - 1)
        }
    } else if match_true(s, i) {
        Some(i + 4)
    } else if match_false(s, i) {
        Some(i + 5)
    } else if match_null(s, i) {
        Some(i + 4)
    } else if b == 0x2d || (b >= 0x30 && b <= 0x39) {
        skip_number(s, i)
    } else {
        None
    }
}

fn skip_members(s: &[u8], i: usize, depth: u32) -> (r: Option<usize>)
    requires
        i <= s.len(),
    ensures
        match r {
            Some(j) => spec_skip_members(s@, i as int, depth as nat) == Some(j as int) && i < j
                <= s.len(),
            None => spec_skip_members(s@, i as int, depth as nat) is None,
        },
    decreases depth, s.len() - i, 1int,
{
    let mut cur = i;
    loop
        invariant
            i <= cur <= s.len(),
            spec_skip_members(s@, i as int, depth as nat) == spec_skip_members(
                s@,
                cur as int,
                depth as nat,
            ),
        decreases s.len() - cur,
    {
        if cur >= s.len() || s[cur] != 0x22 {
            return None;
        }
        match string_body(s, cur + 1) {
            None => {
                return None;
            },
            Some((_, j)) => {
                let j1 = skip_ws(s, j);
                if j1 < s.len() && s[j1] == 0x3a {
                    let j2 = skip_ws(s, j1 + 1);
                    match skip_value(s, j2, depth) {
                        None => {
                            return None;
                        },
                        Some(k) => {
                            let k1 = skip_ws(s, k);
                            if k1 < s.len() && s[k1] == 0x2c {
                                let k2 = skip_ws(s, k1 + 1);
                                cur = k2;
                            } else if k1 < s.len() && s[k1] == 0x7d {
                                return Some(k1 + 1);
                            } else {
                                return None;
                            }
                        },
                    }
                } else {
                    return None;
                }
            },
        }
    }
}

fn skip_elements(s: &[u8], i: usize, depth: u32) -> (r: Option<usize>)
    requires
        i <= s.len(),
    ensures
        match r {
            Some(j) => spec_skip_elements(s@, i as int, depth as nat) == Some(j as int) && i < j
                <= s.len(),
            None => spec_skip_elements(s@, i as int, depth as nat) is None,
        },
    decreases depth, s.len() - i, 1int,
{
    let mut cur = i;
    loop
        invariant
            i <= cur <= s.len(),
            spec_skip_elements(s@, i as int, depth as nat) == spec_skip_elements(
                s@,
                cur as int,
                depth as nat,
            ),
        decreases s.len() - cur,
    {
        if cur >= s.len() {
            return None;
        }
        match skip_value(s, cur, depth) {
            None => {
                return None;
            },
            Some(k) => {
                let k1 = skip_ws(s, k);
                if k1 < s.len() && s[k1] == 0x2c {
                    let k2 = skip_ws(s, k1 + 1);
                    cur = k2;
                } else if k1 < s.len() && s[k1] == 0x5d {
                    return Some(k1 + 1);
                } else {
                    return None;
                }
            },
        }
    }
}

/// The items already gathered, put back in front of a parse result.
spec fn prepend_items(a: Seq<Seq<u8>>, o: Option<(Seq<Seq<u8>>, int)>) -> Option<
    (Seq<Seq<u8>>, int),
> {
    match o {
        Some(p) => Some((a + p.0, p.1)),
        None => None,
    }
}

fn parse_string_items(s: &[u8], i: usize) -> (r: Option<(Vec<Vec<u8>>, usize)>)
    requires
        i <= s.len(),
    ensures
        match r {
            Some(p) => spec_parse_string_items(s@, i as int) == Some((views_of(p.0@), p.1 as int))
                && i < p.1 <= s.len(),
            None => spec_parse_string_items(s@, i as int) is None,
        },
{
    let mut acc: Vec<Vec<u8>> = Vec::new();
    let mut cur = i;
    proof {
        match spec_parse_string_items(s@, i as int) {
            Some(p) => {
                assert(views_of(acc@) + p.0 =~= p.0);
            },
            None => {},
        }
    }
    loop
        invariant
            i <= cur <= s.len(),
            spec_parse_string_items(s@, i as int) == prepend_items(
                views_of(acc@),
                spec_parse_string_items(s@, cur as int),
            ),
        decreases s.len() - cur,
    {
        if cur >= s.len() || s[cur] != 0x22 {
            return None;
        }
        match string_body(s, cur + 1) {
            None => {
                return None;
            },
            Some((item, j)) => {
                let ghost iv = item@;
                let ghost av = views_of(acc@);
                let j1 = skip_ws(s, j);
                if j1 < s.len() && s[j1] == 0x2c {
                    let j2 = skip_ws(s, j1 + 1);
                    acc.push(item);
                    proof {
                        assert(views_of(acc@) =~= av + seq![iv]);
                        match spec_parse_string_items(s@, j2 as int) {
                            Some(p) => {
                                assert(av + (seq![iv] + p.0) =~= views_of(acc@) + p.0);
                            },
                            None => {},
                        }
                    }
                    cur = j2;
                } else if j1 < s.len() && s[j1] == 0x5d {
                    acc.push(item);
                    proof {
                        assert(views_of(acc@) =~= av + seq![iv]);
                    }
                    return Some((acc, j1 + 1));
                } else {
                    return None;
                }
            },
        }
    }
}

fn parse_features(s: &[u8], i: usize) -> (r: Option<(Vec<Vec<u8>>, usize)>)
    requires
        i <= s.len(),
    ensures
        match r {
            Some(p) => spec_parse_features(s@, i as int) == Some((views_of(p.0@), p.1 as int)) && i
                < p.1 <= s.len(),
            None => spec_parse_features(s@, i as int) is None,
        },
{
    if i >= s.len() || s[i] != 0x5b {
        return None;
    }
    let i1 = skip_ws(s, i + 1);
    if i1 < s.len() && s[i1] == 0x5d {
        let v: Vec<Vec<u8>> = Vec::new();
        proof {
            assert(views_of(v@) =~= Seq::<Seq<u8>>::empty());
        }
        Some((v, i1 + 1))
    } else {
        parse_string_items(s, i1)
    }
}

fn parse_expires(s: &[u8], i: usize) -> (r: Option<(Option<Vec<u8>>, usize)>)
    requires
        i <= s.len(),
    ensures
        match r {
            Some(p) => spec_parse_expires(s@, i as int) == Some((opt_bytes_view(p.0), p.1 as int))
                && i < p.1 <= s.len(),
            None => spec_parse_expires(s@, i as int) is None,
        },
{
    if match_null(s, i) {
        Some((None, i + 4))
    } else if i < s.len() && s[i] == 0x22 {
        match string_body(s, i + 1) {
            None => None,
            Some((d, j)) => Some((Some(d), j)),
        }
    } else {
        None
    }
}

fn is_features_key(k: &[u8]) -> (r: bool)
    ensures
        r == (k@ == spec_features_key()),
{
    let r = k.len() == 8 && k[0] == 0x66 && k[1] == 0x65 && k[2] == 0x61 && k[3] == 0x74 && k[4]
        == 0x75 && k[5] == 0x72 && k[6] == 0x65 && k[7] == 0x73;
    proof {
        if r {
            assert(k@ =~= spec_features_key());
        } else if k@ == spec_features_key() {
            assert(k@.len() == 8);
            assert(k@[0] == 0x66u8);
            assert(k@[1] == 0x65u8);
            assert(k@[2] == 0x61u8);
            assert(k@[3] == 0x74u8);
            assert(k@[4] == 0x75u8);
            assert(k@[5] == 0x72u8);
            assert(k@[6] == 0x65u8);
            assert(k@[7] == 0x73u8);
        }
    }
    r
}

fn is_expires_key(k: &[u8]) -> (r: bool)
    ensures
        r == (k@ == spec_expires_key()),
{
    let r = k.len() == 7 && k[0] == 0x65 && k[1] == 0x78 && k[2] == 0x70 && k[3] == 0x69 && k[4]
        == 0x72 && k[5] == 0x65 && k[6] == 0x73;
    proof {
        if r {
            assert(k@ =~= spec_expires_key());
        } else if k@ == spec_expires_key() {
            assert(k@.len() == 7);
            assert(k@[0] == 0x65u8);
            assert(k@[1] == 0x78u8);
            assert(k@[2] == 0x70u8);
            assert(k@[3] == 0x69u8);
            assert(k@[4] == 0x72u8);
            assert(k@[5] == 0x65u8);
            assert(k@[6] == 0x73u8);
        }
    }
    r
}

fn member_value(
    s: &[u8],
    i: usize,
    key: &[u8],
    feats: Option<Vec<Vec<u8>>>,
    exp: Option<Option<Vec<u8>>>,
) -> (r: Option<(Option<Vec<Vec<u8>>>, Option<Option<Vec<u8>>>, usize)>)
    requires
        i <= s.len(),
    ensures
        match r {
            Some(st) => spec_member_value(s@, i as int, key@, feats_view(feats), exp_view(exp))
                == Some((feats_view(st.0), exp_view(st.1), st.2 as int)) && i < st.2 <= s.len(),
            None => spec_member_value(s@, i as int, key@, feats_view(feats), exp_view(exp)) is None,
        },
{
    if is_features_key(key) {
        if feats.is_some() {
            None
        } else {
            match parse_features(s, i) {
                None => None,
                Some((f, k)) => Some((Some(f), exp, k)),
            }
        }
    } else if is_expires_key(key) {
        if exp.is_some() {
            None
        } else {
            match parse_expires(s, i) {
                None => None,
                Some((e, k)) => Some((feats, Some(e), k)),
            }
        }
    } else {
        match skip_value(s, i, 127) {
            None => None,
            Some(k) => Some((feats, exp, k)),
        }
    }
}

#[verifier::loop_isolation(false)]
fn payload_members(
    s: &[u8],
    i: usize,
    feats: Option<Vec<Vec<u8>>>,
    exp: Option<Option<Vec<u8>>>,
) -> (r: Option<(Vec<Vec<u8>>, Option<Vec<u8>>)>)
    requires
        i <= s.len(),
    ensures
        match r {
            Some(p) => spec_payload_members(s@, i as int, feats_view(feats), exp_view(exp)) == Some(
                (views_of(p.0@), opt_bytes_view(p.1)),
            ),
            None => spec_payload_members(s@, i as int, feats_view(feats), exp_view(exp)) is None,
        },
{
    let ghost fv0 = feats_view(feats);
    let ghost ev0 = exp_view(exp);
    let mut fcur = feats;
    let mut ecur = exp;
    let mut cur = i;
    loop
        invariant
            i <= cur <= s.len(),
            spec_payload_members(s@, i as int, fv0, ev0) == spec_payload_members(
                s@,
                cur as int,
                feats_view(fcur),
                exp_view(ecur),
            ),
        decreases s.len() - cur,
    {
        if cur >= s.len() || s[cur] != 0x22 {
            return None;
        }
        match string_body(s, cur + 1) {
            None => {
                return None;
            },
            Some((key, j)) => {
                let j1 = skip_ws(s, j);
                if j1 < s.len() && s[j1] == 0x3a {
                    let j2 = skip_ws(s, j1 + 1);
                    match member_value(s, j2, key.as_slice(), fcur, ecur) {
                        None => {
                            return None;
                        },
                        Some((feats2, exp2, k)) => {
                            let k1 = skip_ws(s, k);
                            if k1 < s.len() && s[k1] == 0x2c {
                                let k2 = skip_ws(s, k1 + 1);
                                fcur = feats2;
                                ecur = exp2;
                                cur = k2;
                            } else if k1 < s.len() && s[k1] == 0x7d {
                                let t = skip_ws(s, k1 + 1);
                                if t == s.len() {
                                    match feats2 {
                                        Some(f) => {
                                            let e = match exp2 {
                                                Some(e0) => e0,
                                                None => None,
                                            };
                                            return Some((f, e));
                                        },
                                        None => {
                                            return None;
                                        },
                                    }
                                } else {
                                    return None;
                                }
                            } else {
                                return None;
                            }
                        },
                    }
                } else {
                    return None;
                }
            },
        }
    }
}

/// Decodes a payload document into its structured fields, or `None` where
/// the bytes are not a payload object.
pub fn parse_payload(text: &[u8]) -> (r: Option<LicensePayload>)
    ensures
        match r {
            Some(p) => spec_payload_of(text@) == Some(
                (views_of(p.features@), opt_bytes_view(p.expires)),
            ),
            None => spec_payload_of(text@) is None,
        },
{
    let i = skip_ws(text, 0);
    if i < text.len() && text[i] == 0x7b {
        let i1 = skip_ws(text, i + 1);
        if i1 < text.len() && text[i1] == 0x7d {
            None
        } else {
            match payload_members(text, i1, None, None) {
                None => None,
                Some((f, e)) => Some(LicensePayload { features: f, expires: e }),
            }
        }
    } else {
        None
    }
}

} // verus!
