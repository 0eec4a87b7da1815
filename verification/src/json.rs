//! A JSON parser for the two documents the tool reads from the network: a
//! release manifest and a feed catalog. The grammar is modelled by spec
//! functions over character sequences; the executable parser returns exactly
//! what the model says.
//!
//! The parser reads any JSON value when skipping unknown fields. In string
//! literals it understands the short escape sequences (`\"`, `\\`, `\/`,
//! `\b`, `\f`, `\n`, `\r`, `\t`) and `\u` escapes, with a surrogate pair
//! decoding to one character, an unpaired surrogate rejected, and a raw
//! control character rejected.
//!
//! One deliberate leniency: number tokens are skipped, not validated. A
//! number must begin with a digit or a minus, but past that any run of the
//! characters that may appear in a number passes for one, so a document
//! malformed only inside an ignored member can still be accepted. The
//! fields the documents are read for, and the words `true`, `false` and
//! `null`, are parsed exactly.

use vstd::prelude::*;
use vstd::pervasive::unreached;

verus! {

/// JSON whitespace.
pub open spec fn is_ws(c: char) -> bool {
    c == ' ' || c == '\t' || c == '\n' || c == '\r'
}

/// Characters that may begin a JSON number token.
pub open spec fn is_num_start(c: char) -> bool {
    c == '-' || ('0' as int) <= c as int <= ('9' as int)
}

/// Characters that may appear in a JSON number token.
pub open spec fn is_num_char(c: char) -> bool {
    ||| ('0' as int) <= c as int <= ('9' as int)
    ||| c == '-'
    ||| c == '+'
    ||| c == '.'
    ||| c == 'e'
    ||| c == 'E'
}

/// The character a short escape sequence stands for.
pub open spec fn escape_char(c: char) -> Option<char> {
    if c == '"' {
        Some('"')
    } else if c == '\\' {
        Some('\\')
    } else if c == '/' {
        Some('/')
    } else if c == 'b' {
        Some('\u{0008}')
    } else if c == 'f' {
        Some('\u{000c}')
    } else if c == 'n' {
        Some('\n')
    } else if c == 'r' {
        Some('\r')
    } else if c == 't' {
        Some('\t')
    } else {
        None
    }
}

/// The value of one hexadecimal digit.
pub open spec fn hex_val(c: char) -> Option<int> {
    let u = c as int;
    if ('0' as int) <= u <= ('9' as int) {
        Some(u - ('0' as int))
    } else if ('a' as int) <= u <= ('f' as int) {
        Some(u - ('a' as int) + 10)
    } else if ('A' as int) <= u <= ('F' as int) {
        Some(u - ('A' as int) + 10)
    } else {
        None
    }
}

/// The value of four hexadecimal digits starting at `i`.
pub open spec fn hex4(s: Seq<char>, i: int) -> Option<int> {
    if 0 <= i && i + 4 <= s.len() {
        match (hex_val(s[i]), hex_val(s[i + 1]), hex_val(s[i + 2]), hex_val(s[i + 3])) {
            (Some(a), Some(b), Some(c), Some(d)) => Some(a * 4096 + b * 256 + c * 16 + d),
            _ => None,
        }
    } else {
        None
    }
}

/// Code points reserved for surrogate pairs; they are not characters.
pub open spec fn is_high_surrogate(v: int) -> bool {
    0xD800 <= v < 0xDC00
}

/// The low half of a surrogate pair.
pub open spec fn is_low_surrogate(v: int) -> bool {
    0xDC00 <= v < 0xE000
}

/// The character a surrogate pair stands for.
pub open spec fn surrogate_char(hi: int, lo: int) -> char {
    (0x10000 + (hi - 0xD800) * 0x400 + (lo - 0xDC00)) as char
}

/// The first position at or after `i` that does not hold whitespace.
pub open spec fn skip_ws(s: Seq<char>, i: int) -> int
    decreases s.len() - i,
{
    if 0 <= i < s.len() && is_ws(s[i]) {
        skip_ws(s, i + 1)
    } else {
        i
    }
}

/// The end of a run of number characters starting at `i`.
pub open spec fn skip_num(s: Seq<char>, i: int) -> int
    decreases s.len() - i,
{
    if 0 <= i < s.len() && is_num_char(s[i]) {
        skip_num(s, i + 1)
    } else {
        i
    }
}

/// Parses the remainder of a string literal whose opening quote stands just
/// before `i`: the decoded content and the position after the closing quote.
pub open spec fn parse_string_body(s: Seq<char>, i: int) -> Option<(Seq<char>, int)>
    decreases s.len() - i,
{
    if !(0 <= i < s.len()) {
        None
    } else if s[i] == '"' {
        Some((Seq::empty(), i + 1))
    } else if s[i] == '\\' {
        if i + 1 < s.len() {
            if s[i + 1] == 'u' {
                match hex4(s, i + 2) {
                    Some(v) => if is_high_surrogate(v) {
                        if i + 7 < s.len() && s[i + 6] == '\\' && s[i + 7] == 'u' {
                            match hex4(s, i + 8) {
                                Some(w) => if is_low_surrogate(w) {
                                    match parse_string_body(s, i + 12) {
                                        Some((rest, j)) => Some(
                                            (seq![surrogate_char(v, w)] + rest, j),
                                        ),
                                        None => None,
                                    }
                                } else {
                                    None
                                },
                                None => None,
                            }
                        } else {
                            None
                        }
                    } else if is_low_surrogate(v) {
                        None
                    } else {
                        match parse_string_body(s, i + 6) {
                            Some((rest, j)) => Some((seq![v as char] + rest, j)),
                            None => None,
                        }
                    },
                    None => None,
                }
            } else {
                match escape_char(s[i + 1]) {
                    Some(c) => match parse_string_body(s, i + 2) {
                        Some((rest, j)) => Some((seq![c] + rest, j)),
                        None => None,
                    },
                    None => None,
                }
            }
        } else {
            None
        }
    } else if (s[i] as int) < 0x20 {
        None
    } else {
        match parse_string_body(s, i + 1) {
            Some((rest, j)) => Some((seq![s[i]] + rest, j)),
            None => None,
        }
    }
}

/// Parses a string literal starting at `i`: its decoded content and the
/// position after the closing quote.
pub open spec fn parse_string(s: Seq<char>, i: int) -> Option<(Seq<char>, int)> {
    if 0 <= i < s.len() && s[i] == '"' {
        parse_string_body(s, i + 1)
    } else {
        None
    }
}

/// The word `w` stands at position `i` of `s`.
pub open spec fn lit_at(s: Seq<char>, i: int, w: Seq<char>) -> bool {
    &&& 0 <= i
    &&& i + w.len() <= s.len()
    &&& s.subrange(i, i + w.len()) == w
}

/// Skips one JSON value starting at `i`: the position after the value.
pub open spec fn skip_value(s: Seq<char>, i: int) -> Option<int>
    decreases s.len() - i, 0int,
{
    if !(0 <= i < s.len()) {
        None
    } else if s[i] == '"' {
        match parse_string(s, i) {
            Some((_, j)) => Some(j),
            None => None,
        }
    } else if s[i] == '{' {
        skip_members(s, i + 1, true)
    } else if s[i] == '[' {
        skip_elements(s, i + 1, true)
    } else if s[i] == 't' {
        if lit_at(s, i, "true"@) {
            Some(i + 4)
        } else {
            None
        }
    } else if s[i] == 'f' {
        if lit_at(s, i, "false"@) {
            Some(i + 5)
        } else {
            None
        }
    } else if s[i] == 'n' {
        if lit_at(s, i, "null"@) {
            Some(i + 4)
        } else {
            None
        }
    } else if is_num_start(s[i]) {
        Some(skip_num(s, i))
    } else {
        None
    }
}

/// Skips the members of an object whose opening brace stands just before
/// `i`; `first` says no member has been read yet, so a closing brace may
/// follow at once.
pub open spec fn skip_members(s: Seq<char>, i: int, first: bool) -> Option<int>
    decreases s.len() - i, 1int,
{
    if !(0 <= i <= s.len()) {
        None
    } else {
        let j = skip_ws(s, i);
        if !(i <= j < s.len()) {
            None
        } else if first && s[j] == '}' {
            Some(j + 1)
        } else {
            match parse_string(s, j) {
                Some((_, jk)) => if !(j < jk <= s.len()) {
                    None
                } else {
                    let jc = skip_ws(s, jk);
                    if !(jk <= jc < s.len()) {
                        None
                    } else if s[jc] == ':' {
                        let jv = skip_ws(s, jc + 1);
                        if !(jc + 1 <= jv < s.len()) {
                            None
                        } else {
                            match skip_value(s, jv) {
                                Some(je) => if !(jv < je <= s.len()) {
                                    None
                                } else {
                                    let js = skip_ws(s, je);
                                    if !(je <= js < s.len()) {
                                        None
                                    } else if s[js] == ',' {
                                        skip_members(s, js + 1, false)
                                    } else if s[js] == '}' {
                                        Some(js + 1)
                                    } else {
                                        None
                                    }
                                },
                                None => None,
                            }
                        }
                    } else {
                        None
                    }
                },
                None => None,
            }
        }
    }
}

/// Skips the elements of an array whose opening bracket stands just before
/// `i`; `first` says no element has been read yet.
pub open spec fn skip_elements(s: Seq<char>, i: int, first: bool) -> Option<int>
    decreases s.len() - i, 1int,
{
    if !(0 <= i <= s.len()) {
        None
    } else {
        let j = skip_ws(s, i);
        if !(i <= j < s.len()) {
            None
        } else if first && s[j] == ']' {
            Some(j + 1)
        } else {
            match skip_value(s, j) {
                Some(je) => if !(j < je <= s.len()) {
                    None
                } else {
                    let js = skip_ws(s, je);
                    if !(je <= js < s.len()) {
                        None
                    } else if s[js] == ',' {
                        skip_elements(s, js + 1, false)
                    } else if s[js] == ']' {
                        Some(js + 1)
                    } else {
                        None
                    }
                },
                None => None,
            }
        }
    }
}

/// Relies on `char::from_u32`: it returns the character of a code point
/// exactly when the value is a Unicode scalar value, that is, neither a
/// surrogate nor beyond the last code point.
pub assume_specification[ char::from_u32 ](v: u32) -> (r: Option<char>)
    ensures
        r is Some <==> (v < 0xD800 || (0xE000 <= v && v <= 0x10FFFF)),
        r matches Some(c) ==> c == v as char,
;

fn hex_val_exec(c: char) -> (r: Option<u32>)
    ensures
        hex_val(c) == (match r {
            Some(v) => Some(v as int),
            None => None,
        }),
        r matches Some(v) ==> v < 16,
{
    let u = c as u32;
    if 48 <= u && u <= 57 {
        Some(u - 48)
    } else if 97 <= u && u <= 102 {
        Some(u - 87)
    } else if 65 <= u && u <= 70 {
        Some(u - 55)
    } else {
        None
    }
}

fn hex4_exec(s: &Vec<char>, i: usize) -> (r: Option<u32>)
    requires
        i <= s@.len(),
    ensures
        hex4(s@, i as int) == (match r {
            Some(v) => Some(v as int),
            None => None,
        }),
        r matches Some(v) ==> v < 0x10000 && i + 4 <= s@.len(),
{
    if s.len() - i < 4 {
        return None;
    }
    match (hex_val_exec(s[i]), hex_val_exec(s[i + 1]), hex_val_exec(s[i + 2]), hex_val_exec(
        s[i + 3],
    )) {
        (Some(a), Some(b), Some(c), Some(d)) => Some(a * 4096 + b * 256 + c * 16 + d),
        _ => None,
    }
}

/// Whether `c` is JSON whitespace.
pub fn ws_char(c: char) -> (b: bool)
    ensures
        b == is_ws(c),
{
    c == ' ' || c == '\t' || c == '\n' || c == '\r'
}

fn num_char(c: char) -> (b: bool)
    ensures
        b == is_num_char(c),
{
    let u = c as u32;
    (48 <= u && u <= 57) || c == '-' || c == '+' || c == '.' || c == 'e' || c == 'E'
}

fn num_start(c: char) -> (b: bool)
    ensures
        b == is_num_start(c),
{
    let u = c as u32;
    c == '-' || (48 <= u && u <= 57)
}

fn control_char(c: char) -> (b: bool)
    ensures
        b == ((c as int) < 0x20),
{
    (c as u32) < 0x20
}

fn escape_char_exec(c: char) -> (r: Option<char>)
    ensures
        r == escape_char(c),
{
    if c == '"' {
        Some('"')
    } else if c == '\\' {
        Some('\\')
    } else if c == '/' {
        Some('/')
    } else if c == 'b' {
        Some('\u{0008}')
    } else if c == 'f' {
        Some('\u{000c}')
    } else if c == 'n' {
        Some('\n')
    } else if c == 'r' {
        Some('\r')
    } else if c == 't' {
        Some('\t')
    } else {
        None
    }
}

/// Advances over whitespace.
pub fn e_skip_ws(s: &Vec<char>, i: usize) -> (r: usize)
    requires
        i <= s@.len(),
    ensures
        r == skip_ws(s@, i as int),
        i <= r <= s@.len(),
{
    let mut k = i;
    while k < s.len() && ws_char(s[k])
        invariant
            i <= k <= s@.len(),
            skip_ws(s@, i as int) == skip_ws(s@, k as int),
        decreases s@.len() - k,
    {
        k = k + 1;
    }
    k
}

/// Advances over a run of number characters.
pub fn e_skip_num(s: &Vec<char>, i: usize) -> (r: usize)
    requires
        i <= s@.len(),
    ensures
        r == skip_num(s@, i as int),
        i <= r <= s@.len(),
{
    let mut k = i;
    while k < s.len() && num_char(s[k])
        invariant
            i <= k <= s@.len(),
            skip_num(s@, i as int) == skip_num(s@, k as int),
        decreases s@.len() - k,
    {
        k = k + 1;
    }
    k
}

/// Whether the word `w` stands at position `i` of `s`.
pub fn e_lit_at(s: &Vec<char>, i: usize, w: &str) -> (b: bool)
    requires
        i <= s@.len(),
    ensures
        b == lit_at(s@, i as int, w@),
{
    let wv = crate::text::chars_of(w);
    if wv.len() > s.len() - i {
        return false;
    }
    let mut j: usize = 0;
    while j < wv.len()
        invariant
            i + wv@.len() <= s@.len() <= usize::MAX,
            wv@ == w@,
            j <= wv@.len(),
            forall|t: int| 0 <= t < j ==> s@[i + t] == wv@[t],
        decreases wv@.len() - j,
    {
        if s[i + j] != wv[j] {
            proof {
                assert(s@.subrange(i as int, i + wv@.len())[j as int] == s@[i + j]);
            }
            return false;
        }
        j = j + 1;
    }
    proof {
        assert(s@.subrange(i as int, i + wv@.len()) =~= wv@);
    }
    true
}

/// Parses the remainder of a string literal; see [`parse_string_body`].
pub fn e_parse_string_body(s: &Vec<char>, i: usize) -> (r: Option<(Vec<char>, usize)>)
    requires
        i <= s@.len(),
    ensures
        match r {
            Some((v, j)) => parse_string_body(s@, i as int) == Some((v@, j as int)) && i < j
                <= s@.len(),
            None => parse_string_body(s@, i as int) is None,
        },
    decreases s@.len() - i,
{
    if i >= s.len() {
        return None;
    }
    let c = s[i];
    if c == '"' {
        Some((Vec::new(), i + 1))
    } else if c == '\\' {
        if i + 1 < s.len() {
            if s[i + 1] == 'u' {
                match hex4_exec(s, i + 2) {
                    Some(v) => {
                        if 0xD800 <= v && v < 0xDC00 {
                            if s.len() - i >= 8 && s[i + 6] == '\\' && s[i + 7] == 'u' {
                                match hex4_exec(s, i + 8) {
                                    Some(w) => {
                                        if 0xDC00 <= w && w < 0xE000 {
                                            let code = 0x10000 + (v - 0xD800) * 0x400 + (w
                                                - 0xDC00);
                                            let d = match char::from_u32(code) {
                                                Some(d) => d,
                                                None => unreached(),
                                            };
                                            match e_parse_string_body(s, i + 12) {
                                                Some((mut rest, j)) => {
                                                    rest.insert(0, d);
                                                    proof {
                                                        assert(rest@ =~= seq![d]
                                                            + rest@.drop_first());
                                                    }
                                                    Some((rest, j))
                                                },
                                                None => None,
                                            }
                                        } else {
                                            None
                                        }
                                    },
                                    None => None,
                                }
                            } else {
                                None
                            }
                        } else if 0xDC00 <= v && v < 0xE000 {
                            None
                        } else {
                            let d = match char::from_u32(v) {
                                Some(d) => d,
                                None => unreached(),
                            };
                            match e_parse_string_body(s, i + 6) {
                                Some((mut rest, j)) => {
                                    rest.insert(0, d);
                                    proof {
                                        assert(rest@ =~= seq![d] + rest@.drop_first());
                                    }
                                    Some((rest, j))
                                },
                                None => None,
                            }
                        }
                    },
                    None => None,
                }
            } else {
                match escape_char_exec(s[i + 1]) {
                    Some(d) => match e_parse_string_body(s, i + 2) {
                        Some((mut rest, j)) => {
                            rest.insert(0, d);
                            proof {
                                assert(rest@ =~= seq![d] + rest@.drop_first());
                            }
                            Some((rest, j))
                        },
                        None => None,
                    },
                    None => None,
                }
            }
        } else {
            None
        }
    } else if control_char(c) {
        None
    } else {
        match e_parse_string_body(s, i + 1) {
            Some((mut rest, j)) => {
                rest.insert(0, c);
                proof {
                    assert(rest@ =~= seq![c] + rest@.drop_first());
                }
                Some((rest, j))
            },
            None => None,
        }
    }
}

/// Parses a string literal; see [`parse_string`].
pub fn e_parse_string(s: &Vec<char>, i: usize) -> (r: Option<(Vec<char>, usize)>)
    requires
        i <= s@.len(),
    ensures
        match r {
            Some((v, j)) => parse_string(s@, i as int) == Some((v@, j as int)) && i < j <= s@.len(),
            None => parse_string(s@, i as int) is None,
        },
{
    if i < s.len() && s[i] == '"' {
        e_parse_string_body(s, i + 1)
    } else {
        None
    }
}

/// Skips one JSON value; see [`skip_value`].
pub fn e_skip_value(s: &Vec<char>, i: usize) -> (r: Option<usize>)
    requires
        i <= s@.len(),
    ensures
        match r {
            Some(j) => skip_value(s@, i as int) == Some(j as int) && i < j <= s@.len(),
            None => skip_value(s@, i as int) is None,
        },
    decreases s@.len() - i, 0int,
{
    if i >= s.len() {
        return None;
    }
    let c = s[i];
    if c == '"' {
        match e_parse_string(s, i) {
            Some((_, j)) => Some(j),
            None => None,
        }
    } else if c == '{' {
        e_skip_members(s, i + 1, true)
    } else if c == '[' {
        e_skip_elements(s, i + 1, true)
    } else if c == 't' {
        if e_lit_at(s, i, "true") {
            proof {
                reveal_strlit("true");
            }
            Some(i + 4)
        } else {
            None
        }
    } else if c == 'f' {
        if e_lit_at(s, i, "false") {
            proof {
                reveal_strlit("false");
            }
            Some(i + 5)
        } else {
            None
        }
    } else if c == 'n' {
        if e_lit_at(s, i, "null") {
            proof {
                reveal_strlit("null");
            }
            Some(i + 4)
        } else {
            None
        }
    } else if num_start(c) {
        let j = e_skip_num(s, i + 1);
        proof {
            assert(skip_num(s@, i as int) == skip_num(s@, i + 1));
        }
        Some(j)
    } else {
        None
    }
}

/// Skips an object's members; see [`skip_members`].
pub fn e_skip_members(s: &Vec<char>, i: usize, first: bool) -> (r: Option<usize>)
    requires
        i <= s@.len(),
    ensures
        match r {
            Some(j) => skip_members(s@, i as int, first) == Some(j as int) && i < j <= s@.len(),
            None => skip_members(s@, i as int, first) is None,
        },
    decreases s@.len() - i, 1int,
{
    let j = e_skip_ws(s, i);
    if j >= s.len() {
        return None;
    }
    if first && s[j] == '}' {
        return Some(j + 1);
    }
    match e_parse_string(s, j) {
        Some((_, jk)) => {
            let jc = e_skip_ws(s, jk);
            if jc >= s.len() {
                return None;
            }
            if s[jc] != ':' {
                return None;
            }
            let jv = e_skip_ws(s, jc + 1);
            if jv >= s.len() {
                return None;
            }
            match e_skip_value(s, jv) {
                Some(je) => {
                    let js = e_skip_ws(s, je);
                    if js >= s.len() {
                        return None;
                    }
                    if s[js] == ',' {
                        e_skip_members(s, js + 1, false)
                    } else if s[js] == '}' {
                        Some(js + 1)
                    } else {
                        None
                    }
                },
                None => None,
            }
        },
        None => None,
    }
}

/// Skips an array's elements; see [`skip_elements`].
pub fn e_skip_elements(s: &Vec<char>, i: usize, first: bool) -> (r: Option<usize>)
    requires
        i <= s@.len(),
    ensures
        match r {
            Some(j) => skip_elements(s@, i as int, first) == Some(j as int) && i < j <= s@.len(),
            None => skip_elements(s@, i as int, first) is None,
        },
    decreases s@.len() - i, 1int,
{
    let j = e_skip_ws(s, i);
    if j >= s.len() {
        return None;
    }
    if first && s[j] == ']' {
        return Some(j + 1);
    }
    match e_skip_value(s, j) {
        Some(je) => {
            let js = e_skip_ws(s, je);
            if js >= s.len() {
                return None;
            }
            if s[js] == ',' {
                e_skip_elements(s, js + 1, false)
            } else if s[js] == ']' {
                Some(js + 1)
            } else {
                None
            }
        },
        None => None,
    }
}

} // verus!
