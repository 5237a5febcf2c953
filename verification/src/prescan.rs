//! A statement pre-scan over OBJ text.
//!
//! The obj crate's parser aborts the process on the statements of the OBJ
//! grammar it has not implemented (free-form geometry such as `curv` or
//! `cstype`, and render attributes such as `lod`) instead of rejecting them.
//! The library therefore refuses such a buffer before the parser ever sees
//! it, and the trusted wrappers require a buffer that passed this scan.
//!
//! The scan mirrors how the parser's lexer finds each statement: the buffer
//! splits into physical lines at each newline (a carriage return directly
//! before the newline goes with it); everything from the first `#` of a line
//! is comment; a line whose remaining content ends in a backslash joins the
//! next physical line into the same logical line; tokens are separated by
//! Unicode white space; the first token of a logical line is its statement.

use vstd::prelude::*;

verus! {

/// ASCII white space as it can occur inside a line (the newline splits lines
/// before tokens are looked at).
pub open spec fn is_ascii_ws(b: u8) -> bool {
    b == 9 || b == 11 || b == 12 || b == 13 || b == 32
}

/// The three-byte UTF-8 encodings of Unicode white space: U+1680,
/// U+2000..U+200A, U+2028, U+2029, U+202F, U+205F and U+3000.
pub open spec fn is_three_byte_ws(a: u8, b: u8, c: u8) -> bool {
    ||| (a == 0xE1 && b == 0x9A && c == 0x80)
    ||| (a == 0xE2 && b == 0x80 && ((0x80 <= c && c <= 0x8A) || c == 0xA8 || c == 0xA9 || c
        == 0xAF))
    ||| (a == 0xE2 && b == 0x81 && c == 0x9F)
    ||| (a == 0xE3 && b == 0x80 && c == 0x80)
}

/// Byte length of the white-space character starting at `i` inside the
/// window that ends at `end`, 0 when none starts there. The two-byte
/// encodings are U+0085 and U+00A0.
pub open spec fn ws_len_at(s: Seq<u8>, i: int, end: int) -> int {
    if 0 <= i && i < end && end <= s.len() {
        if is_ascii_ws(s[i]) {
            1int
        } else if i + 2 <= end && s[i] == 0xC2 && (s[i + 1] == 0x85 || s[i + 1] == 0xA0) {
            2int
        } else if i + 3 <= end && is_three_byte_ws(s[i], s[i + 1], s[i + 2]) {
            3int
        } else {
            0int
        }
    } else {
        0int
    }
}

/// The first index at or after `i` that does not continue the leading white
/// space of the window.
pub open spec fn skip_ws(s: Seq<u8>, i: int, end: int) -> int
    decreases end - i,
{
    if ws_len_at(s, i, end) == 0 {
        i
    } else {
        skip_ws(s, i + ws_len_at(s, i, end), end)
    }
}

/// The first index at or after `i` where a white-space character starts, or
/// the window's end: the end of the token starting at `i`.
pub open spec fn token_end(s: Seq<u8>, i: int, end: int) -> int
    decreases end - i,
{
    if i < end && ws_len_at(s, i, end) == 0 {
        token_end(s, i + 1, end)
    } else {
        i
    }
}

/// The end of the physical line starting at `i`: the next newline, or the
/// buffer's end.
pub open spec fn line_break(s: Seq<u8>, i: int) -> int
    decreases s.len() - i,
{
    if 0 <= i && i < s.len() {
        if s[i] == 10 {
            i
        } else {
            line_break(s, i + 1)
        }
    } else {
        s.len() as int
    }
}

pub proof fn lemma_line_break_bounds(s: Seq<u8>, i: int)
    requires
        0 <= i <= s.len(),
    ensures
        i <= line_break(s, i) <= s.len(),
    decreases s.len() - i,
{
    if i < s.len() && s[i] != 10 {
        lemma_line_break_bounds(s, i + 1);
    }
}

/// The first `#` at or after `i` before `end`, or `end`: the lexer drops the
/// rest of the line there.
pub open spec fn comment_start(s: Seq<u8>, i: int, end: int) -> int
    decreases end - i,
{
    if 0 <= i && i < end {
        if s[i] == 35 {
            i
        } else {
            comment_start(s, i + 1, end)
        }
    } else {
        end
    }
}

/// The end of the commented line's content: a carriage return directly before
/// the newline of a terminated line goes first, then everything from the
/// first `#`.
pub open spec fn content_end(s: Seq<u8>, i: int, brk: int, terminated: bool) -> int {
    let e1 = if terminated && brk > i && s[brk - 1] == 13 {
        brk - 1
    } else {
        brk
    };
    comment_start(s, i, e1)
}

/// Whether the line whose content ends at `ce` joins the next physical line
/// on: its last content byte is a backslash.
pub open spec fn line_continues(s: Seq<u8>, i: int, ce: int) -> bool {
    ce > i && s[ce - 1] == 92
}

/// The end of the line's scannable content, the joining backslash dropped.
pub open spec fn stmt_end(s: Seq<u8>, i: int, ce: int) -> int {
    if line_continues(s, i, ce) {
        ce - 1
    } else {
        ce
    }
}

/// The statements of the OBJ grammar that obj::raw::parse_obj aborts on
/// instead of parsing or rejecting: the free-form curve and surface
/// statements and the render attributes.
pub open spec fn is_unsupported_keyword(t: Seq<u8>) -> bool {
    ||| t == seq![99u8, 115, 116, 121, 112, 101]  // cstype
    ||| t == seq![100u8, 101, 103]  // deg
    ||| t == seq![98u8, 109, 97, 116]  // bmat
    ||| t == seq![115u8, 116, 101, 112]  // step
    ||| t == seq![99u8, 117, 114, 118]  // curv
    ||| t == seq![99u8, 117, 114, 118, 50]  // curv2
    ||| t == seq![115u8, 117, 114, 102]  // surf
    ||| t == seq![112u8, 97, 114, 109]  // parm
    ||| t == seq![116u8, 114, 105, 109]  // trim
    ||| t == seq![104u8, 111, 108, 101]  // hole
    ||| t == seq![115u8, 99, 114, 118]  // scrv
    ||| t == seq![115u8, 112]  // sp
    ||| t == seq![101u8, 110, 100]  // end
    ||| t == seq![99u8, 111, 110]  // con
    ||| t == seq![98u8, 101, 118, 101, 108]  // bevel
    ||| t == seq![99u8, 95, 105, 110, 116, 101, 114, 112]  // c_interp
    ||| t == seq![100u8, 95, 105, 110, 116, 101, 114, 112]  // d_interp
    ||| t == seq![108u8, 111, 100]  // lod
    ||| t == seq![115u8, 104, 97, 100, 111, 119, 95, 111, 98, 106]  // shadow_obj
    ||| t == seq![116u8, 114, 97, 99, 101, 95, 111, 98, 106]  // trace_obj
    ||| t == seq![99u8, 116, 101, 99, 104]  // ctech
    ||| t == seq![115u8, 116, 101, 99, 104]  // stech
}

/// Whether the line whose scannable content is the window `[i, se)` is fine
/// at this point of the scan: past the statement of its logical line
/// everything is argument text; at a statement position the first token must
/// not be an unsupported statement.
pub open spec fn line_ok(s: Seq<u8>, i: int, se: int, seen: bool) -> bool {
    let ts = skip_ws(s, i, se);
    seen || ts >= se || !is_unsupported_keyword(s.subrange(ts, token_end(s, ts, se)))
}

/// Whether the window `[i, se)` holds a token at all.
pub open spec fn has_token(s: Seq<u8>, i: int, se: int) -> bool {
    skip_ws(s, i, se) < se
}

/// Scan the buffer from `i` on; `seen` says whether the current logical line
/// already has its statement behind it.
pub open spec fn scan_from(s: Seq<u8>, i: int, seen: bool) -> bool
    decreases s.len() - i,
    via scan_from_decreases
{
    if !(0 <= i && i < s.len()) {
        true
    } else {
        let brk = line_break(s, i);
        let ce = content_end(s, i, brk, brk < s.len());
        let se = stmt_end(s, i, ce);
        let cont = line_continues(s, i, ce);
        let seen2 = if cont {
            seen || has_token(s, i, se)
        } else {
            false
        };
        line_ok(s, i, se, seen) && (if brk + 1 >= s.len() {
            true
        } else {
            scan_from(s, brk + 1, seen2)
        })
    }
}

#[via_fn]
proof fn scan_from_decreases(s: Seq<u8>, i: int, seen: bool) {
    if 0 <= i && i < s.len() {
        lemma_line_break_bounds(s, i);
    }
}

/// No logical line of the buffer opens with a statement the parser aborts
/// on: only such a buffer may be handed to the obj crate.
pub open spec fn prescan_ok(b: Seq<u8>) -> bool {
    scan_from(b, 0, false)
}

fn ws_len(bytes: &[u8], i: usize, end: usize) -> (r: usize)
    requires
        i <= end,
        end <= bytes@.len(),
    ensures
        r as int == ws_len_at(bytes@, i as int, end as int),
{
    if i >= end {
        return 0;
    }
    let b = bytes[i];
    if b == 9 || b == 11 || b == 12 || b == 13 || b == 32 {
        return 1;
    }
    if end - i >= 2 && b == 0xC2 && (bytes[i + 1] == 0x85 || bytes[i + 1] == 0xA0) {
        return 2;
    }
    if end - i >= 3 {
        let c = bytes[i + 1];
        let d = bytes[i + 2];
        if (b == 0xE1 && c == 0x9A && d == 0x80) || (b == 0xE2 && c == 0x80 && ((0x80 <= d && d
            <= 0x8A) || d == 0xA8 || d == 0xA9 || d == 0xAF)) || (b == 0xE2 && c == 0x81 && d
            == 0x9F) || (b == 0xE3 && c == 0x80 && d == 0x80) {
            return 3;
        }
    }
    0
}

fn skip_ws_exec(bytes: &[u8], start: usize, end: usize) -> (r: usize)
    requires
        start <= end,
        end <= bytes@.len(),
    ensures
        r as int == skip_ws(bytes@, start as int, end as int),
        start <= r <= end,
{
    let mut i = start;
    loop
        invariant
            start <= i <= end,
            end <= bytes@.len(),
            skip_ws(bytes@, start as int, end as int) == skip_ws(bytes@, i as int, end as int),
        decreases end - i,
    {
        let w = ws_len(bytes, i, end);
        if w == 0 {
            proof {
                assert(skip_ws(bytes@, i as int, end as int) == i as int);
            }
            return i;
        }
        proof {
            assert(skip_ws(bytes@, i as int, end as int) == skip_ws(
                bytes@,
                i as int + w as int,
                end as int,
            ));
        }
        i = i + w;
    }
}

fn token_end_exec(bytes: &[u8], start: usize, end: usize) -> (r: usize)
    requires
        start <= end,
        end <= bytes@.len(),
    ensures
        r as int == token_end(bytes@, start as int, end as int),
        start <= r <= end,
{
    let mut i = start;
    loop
        invariant
            start <= i <= end,
            end <= bytes@.len(),
            token_end(bytes@, start as int, end as int) == token_end(bytes@, i as int, end as int),
        decreases end - i,
    {
        if i >= end {
            proof {
                assert(token_end(bytes@, i as int, end as int) == i as int);
            }
            return i;
        }
        let w = ws_len(bytes, i, end);
        if w > 0 {
            proof {
                assert(token_end(bytes@, i as int, end as int) == i as int);
            }
            return i;
        }
        proof {
            assert(token_end(bytes@, i as int, end as int) == token_end(
                bytes@,
                i as int + 1,
                end as int,
            ));
        }
        i = i + 1;
    }
}

fn line_break_exec(bytes: &[u8], start: usize) -> (r: usize)
    requires
        start <= bytes@.len(),
    ensures
        r as int == line_break(bytes@, start as int),
        start <= r <= bytes@.len(),
{
    let n = bytes.len();
    let mut i = start;
    loop
        invariant
            start <= i <= n,
            n == bytes@.len(),
            line_break(bytes@, start as int) == line_break(bytes@, i as int),
        decreases n - i,
    {
        if i >= n {
            proof {
                assert(line_break(bytes@, i as int) == i as int);
            }
            return i;
        }
        if bytes[i] == 10 {
            proof {
                assert(line_break(bytes@, i as int) == i as int);
            }
            return i;
        }
        proof {
            assert(line_break(bytes@, i as int) == line_break(bytes@, i as int + 1));
        }
        i = i + 1;
    }
}

fn tok_eq2(bytes: &[u8], st: usize, en: usize, k0: u8, k1: u8) -> (r: bool)
    requires
        st <= en <= bytes@.len(),
    ensures
        r == (bytes@.subrange(st as int, en as int) == seq![k0, k1]),
{
    if en - st == 2 && bytes[st] == k0 && bytes[st + 1] == k1 {
        proof {
            assert(bytes@.subrange(st as int, en as int) =~= seq![k0, k1]);
        }
        true
    } else {
        proof {
            if bytes@.subrange(st as int, en as int) == seq![k0, k1] {
                assert(bytes@.subrange(st as int, en as int).len() == 2);
                assert(bytes@.subrange(st as int, en as int)[0] == k0);
                assert(bytes@.subrange(st as int, en as int)[1] == k1);
            }
        }
        false
    }
}

fn tok_eq3(bytes: &[u8], st: usize, en: usize, k0: u8, k1: u8, k2: u8) -> (r: bool)
    requires
        st <= en <= bytes@.len(),
    ensures
        r == (bytes@.subrange(st as int, en as int) == seq![k0, k1, k2]),
{
    if en - st == 3 && bytes[st] == k0 && bytes[st + 1] == k1 && bytes[st + 2] == k2 {
        proof {
            assert(bytes@.subrange(st as int, en as int) =~= seq![k0, k1, k2]);
        }
        true
    } else {
        proof {
            if bytes@.subrange(st as int, en as int) == seq![k0, k1, k2] {
                assert(bytes@.subrange(st as int, en as int).len() == 3);
                assert(bytes@.subrange(st as int, en as int)[0] == k0);
                assert(bytes@.subrange(st as int, en as int)[1] == k1);
                assert(bytes@.subrange(st as int, en as int)[2] == k2);
            }
        }
        false
    }
}

fn tok_eq4(bytes: &[u8], st: usize, en: usize, k0: u8, k1: u8, k2: u8, k3: u8) -> (r: bool)
    requires
        st <= en <= bytes@.len(),
    ensures
        r == (bytes@.subrange(st as int, en as int) == seq![k0, k1, k2, k3]),
{
    if en - st == 4 && bytes[st] == k0 && bytes[st + 1] == k1 && bytes[st + 2] == k2 && bytes[st
        + 3] == k3 {
        proof {
            assert(bytes@.subrange(st as int, en as int) =~= seq![k0, k1, k2, k3]);
        }
        true
    } else {
        proof {
            if bytes@.subrange(st as int, en as int) == seq![k0, k1, k2, k3] {
                assert(bytes@.subrange(st as int, en as int).len() == 4);
                assert(bytes@.subrange(st as int, en as int)[0] == k0);
                assert(bytes@.subrange(st as int, en as int)[1] == k1);
                assert(bytes@.subrange(st as int, en as int)[2] == k2);
                assert(bytes@.subrange(st as int, en as int)[3] == k3);
            }
        }
        false
    }
}

fn tok_eq5(bytes: &[u8], st: usize, en: usize, k0: u8, k1: u8, k2: u8, k3: u8, k4: u8) -> (r: bool)
    requires
        st <= en <= bytes@.len(),
    ensures
        r == (bytes@.subrange(st as int, en as int) == seq![k0, k1, k2, k3, k4]),
{
    if en - st == 5 && bytes[st] == k0 && bytes[st + 1] == k1 && bytes[st + 2] == k2 && bytes[st
        + 3] == k3 && bytes[st + 4] == k4 {
        proof {
            assert(bytes@.subrange(st as int, en as int) =~= seq![k0, k1, k2, k3, k4]);
        }
        true
    } else {
        proof {
            if bytes@.subrange(st as int, en as int) == seq![k0, k1, k2, k3, k4] {
                assert(bytes@.subrange(st as int, en as int).len() == 5);
                assert(bytes@.subrange(st as int, en as int)[0] == k0);
                assert(bytes@.subrange(st as int, en as int)[1] == k1);
                assert(bytes@.subrange(st as int, en as int)[2] == k2);
                assert(bytes@.subrange(st as int, en as int)[3] == k3);
                assert(bytes@.subrange(st as int, en as int)[4] == k4);
            }
        }
        false
    }
}

fn tok_eq6(bytes: &[u8], st: usize, en: usize, k0: u8, k1: u8, k2: u8, k3: u8, k4: u8, k5: u8) -> (r:
    bool)
    requires
        st <= en <= bytes@.len(),
    ensures
        r == (bytes@.subrange(st as int, en as int) == seq![k0, k1, k2, k3, k4, k5]),
{
    if en - st == 6 && bytes[st] == k0 && bytes[st + 1] == k1 && bytes[st + 2] == k2 && bytes[st
        + 3] == k3 && bytes[st + 4] == k4 && bytes[st + 5] == k5 {
        proof {
            assert(bytes@.subrange(st as int, en as int) =~= seq![k0, k1, k2, k3, k4, k5]);
        }
        true
    } else {
        proof {
            if bytes@.subrange(st as int, en as int) == seq![k0, k1, k2, k3, k4, k5] {
                assert(bytes@.subrange(st as int, en as int).len() == 6);
                assert(bytes@.subrange(st as int, en as int)[0] == k0);
                assert(bytes@.subrange(st as int, en as int)[1] == k1);
                assert(bytes@.subrange(st as int, en as int)[2] == k2);
                assert(bytes@.subrange(st as int, en as int)[3] == k3);
                assert(bytes@.subrange(st as int, en as int)[4] == k4);
                assert(bytes@.subrange(st as int, en as int)[5] == k5);
            }
        }
        false
    }
}

fn tok_eq8(
    bytes: &[u8],
    st: usize,
    en: usize,
    k0: u8,
    k1: u8,
    k2: u8,
    k3: u8,
    k4: u8,
    k5: u8,
    k6: u8,
    k7: u8,
) -> (r: bool)
    requires
        st <= en <= bytes@.len(),
    ensures
        r == (bytes@.subrange(st as int, en as int) == seq![k0, k1, k2, k3, k4, k5, k6, k7]),
{
    if en - st == 8 && bytes[st] == k0 && bytes[st + 1] == k1 && bytes[st + 2] == k2 && bytes[st
        + 3] == k3 && bytes[st + 4] == k4 && bytes[st + 5] == k5 && bytes[st + 6] == k6 && bytes[st
        + 7] == k7 {
        proof {
            assert(bytes@.subrange(st as int, en as int) =~= seq![k0, k1, k2, k3, k4, k5, k6, k7]);
        }
        true
    } else {
        proof {
            if bytes@.subrange(st as int, en as int) == seq![k0, k1, k2, k3, k4, k5, k6, k7] {
                assert(bytes@.subrange(st as int, en as int).len() == 8);
                assert(bytes@.subrange(st as int, en as int)[0] == k0);
                assert(bytes@.subrange(st as int, en as int)[1] == k1);
                assert(bytes@.subrange(st as int, en as int)[2] == k2);
                assert(bytes@.subrange(st as int, en as int)[3] == k3);
                assert(bytes@.subrange(st as int, en as int)[4] == k4);
                assert(bytes@.subrange(st as int, en as int)[5] == k5);
                assert(bytes@.subrange(st as int, en as int)[6] == k6);
                assert(bytes@.subrange(st as int, en as int)[7] == k7);
            }
        }
        false
    }
}

fn tok_eq9(
    bytes: &[u8],
    st: usize,
    en: usize,
    k0: u8,
    k1: u8,
    k2: u8,
    k3: u8,
    k4: u8,
    k5: u8,
    k6: u8,
    k7: u8,
    k8: u8,
) -> (r: bool)
    requires
        st <= en <= bytes@.len(),
    ensures
        r == (bytes@.subrange(st as int, en as int) == seq![k0, k1, k2, k3, k4, k5, k6, k7, k8]),
{
    if en - st == 9 && bytes[st] == k0 && bytes[st + 1] == k1 && bytes[st + 2] == k2 && bytes[st
        + 3] == k3 && bytes[st + 4] == k4 && bytes[st + 5] == k5 && bytes[st + 6] == k6 && bytes[st
        + 7] == k7 && bytes[st + 8] == k8 {
        proof {
            assert(bytes@.subrange(st as int, en as int) =~= seq![
                k0,
                k1,
                k2,
                k3,
                k4,
                k5,
                k6,
                k7,
                k8,
            ]);
        }
        true
    } else {
        proof {
            if bytes@.subrange(st as int, en as int) == seq![k0, k1, k2, k3, k4, k5, k6, k7, k8] {
                assert(bytes@.subrange(st as int, en as int).len() == 9);
                assert(bytes@.subrange(st as int, en as int)[0] == k0);
                assert(bytes@.subrange(st as int, en as int)[1] == k1);
                assert(bytes@.subrange(st as int, en as int)[2] == k2);
                assert(bytes@.subrange(st as int, en as int)[3] == k3);
                assert(bytes@.subrange(st as int, en as int)[4] == k4);
                assert(bytes@.subrange(st as int, en as int)[5] == k5);
                assert(bytes@.subrange(st as int, en as int)[6] == k6);
                assert(bytes@.subrange(st as int, en as int)[7] == k7);
                assert(bytes@.subrange(st as int, en as int)[8] == k8);
            }
        }
        false
    }
}

fn tok_eq10(
    bytes: &[u8],
    st: usize,
    en: usize,
    k0: u8,
    k1: u8,
    k2: u8,
    k3: u8,
    k4: u8,
    k5: u8,
    k6: u8,
    k7: u8,
    k8: u8,
    k9: u8,
) -> (r: bool)
    requires
        st <= en <= bytes@.len(),
    ensures
        r == (bytes@.subrange(st as int, en as int) == seq![
            k0,
            k1,
            k2,
            k3,
            k4,
            k5,
            k6,
            k7,
            k8,
            k9,
        ]),
{
    if en - st == 10 && bytes[st] == k0 && bytes[st + 1] == k1 && bytes[st + 2] == k2 && bytes[st
        + 3] == k3 && bytes[st + 4] == k4 && bytes[st + 5] == k5 && bytes[st + 6] == k6 && bytes[st
        + 7] == k7 && bytes[st + 8] == k8 && bytes[st + 9] == k9 {
        proof {
            assert(bytes@.subrange(st as int, en as int) =~= seq![
                k0,
                k1,
                k2,
                k3,
                k4,
                k5,
                k6,
                k7,
                k8,
                k9,
            ]);
        }
        true
    } else {
        proof {
            if bytes@.subrange(st as int, en as int) == seq![
                k0,
                k1,
                k2,
                k3,
                k4,
                k5,
                k6,
                k7,
                k8,
                k9,
            ] {
                assert(bytes@.subrange(st as int, en as int).len() == 10);
                assert(bytes@.subrange(st as int, en as int)[0] == k0);
                assert(bytes@.subrange(st as int, en as int)[1] == k1);
                assert(bytes@.subrange(st as int, en as int)[2] == k2);
                assert(bytes@.subrange(st as int, en as int)[3] == k3);
                assert(bytes@.subrange(st as int, en as int)[4] == k4);
                assert(bytes@.subrange(st as int, en as int)[5] == k5);
                assert(bytes@.subrange(st as int, en as int)[6] == k6);
                assert(bytes@.subrange(st as int, en as int)[7] == k7);
                assert(bytes@.subrange(st as int, en as int)[8] == k8);
                assert(bytes@.subrange(st as int, en as int)[9] == k9);
            }
        }
        false
    }
}

/// Whether the token in `[st, en)` is a statement the parser aborts on.
fn bad_token(bytes: &[u8], st: usize, en: usize) -> (r: bool)
    requires
        st <= en <= bytes@.len(),
    ensures
        r == is_unsupported_keyword(bytes@.subrange(st as int, en as int)),
{
    tok_eq6(bytes, st, en, 99, 115, 116, 121, 112, 101)  // cstype
    || tok_eq3(bytes, st, en, 100, 101, 103)  // deg
    || tok_eq4(bytes, st, en, 98, 109, 97, 116)  // bmat
    || tok_eq4(bytes, st, en, 115, 116, 101, 112)  // step
    || tok_eq4(bytes, st, en, 99, 117, 114, 118)  // curv
    || tok_eq5(bytes, st, en, 99, 117, 114, 118, 50)  // curv2
    || tok_eq4(bytes, st, en, 115, 117, 114, 102)  // surf
    || tok_eq4(bytes, st, en, 112, 97, 114, 109)  // parm
    || tok_eq4(bytes, st, en, 116, 114, 105, 109)  // trim
    || tok_eq4(bytes, st, en, 104, 111, 108, 101)  // hole
    || tok_eq4(bytes, st, en, 115, 99, 114, 118)  // scrv
    || tok_eq2(bytes, st, en, 115, 112)  // sp
    || tok_eq3(bytes, st, en, 101, 110, 100)  // end
    || tok_eq3(bytes, st, en, 99, 111, 110)  // con
    || tok_eq5(bytes, st, en, 98, 101, 118, 101, 108)  // bevel
    || tok_eq8(bytes, st, en, 99, 95, 105, 110, 116, 101, 114, 112)  // c_interp
    || tok_eq8(bytes, st, en, 100, 95, 105, 110, 116, 101, 114, 112)  // d_interp
    || tok_eq3(bytes, st, en, 108, 111, 100)  // lod
    || tok_eq10(bytes, st, en, 115, 104, 97, 100, 111, 119, 95, 111, 98, 106)  // shadow_obj
    || tok_eq9(bytes, st, en, 116, 114, 97, 99, 101, 95, 111, 98, 106)  // trace_obj
    || tok_eq5(bytes, st, en, 99, 116, 101, 99, 104)  // ctech
    || tok_eq5(bytes, st, en, 115, 116, 101, 99, 104)  // stech

}

fn comment_start_exec(bytes: &[u8], start: usize, end: usize) -> (r: usize)
    requires
        start <= end,
        end <= bytes@.len(),
    ensures
        r as int == comment_start(bytes@, start as int, end as int),
        start <= r <= end,
{
    let mut i = start;
    loop
        invariant
            start <= i <= end,
            end <= bytes@.len(),
            comment_start(bytes@, start as int, end as int) == comment_start(
                bytes@,
                i as int,
                end as int,
            ),
        decreases end - i,
    {
        if i >= end {
            proof {
                assert(comment_start(bytes@, i as int, end as int) == end as int);
            }
            return i;
        }
        if bytes[i] == 35 {
            proof {
                assert(comment_start(bytes@, i as int, end as int) == i as int);
            }
            return i;
        }
        proof {
            assert(comment_start(bytes@, i as int, end as int) == comment_start(
                bytes@,
                i as int + 1,
                end as int,
            ));
        }
        i = i + 1;
    }
}

/// Decide [`prescan_ok`] for a byte buffer: scan every logical line's first
/// token against the statements the parser aborts on.
pub fn scan_statements(bytes: &[u8]) -> (ok: bool)
    ensures
        ok == prescan_ok(bytes@),
{
    let n = bytes.len();
    let mut i: usize = 0;
    let mut seen = false;
    loop
        invariant
            i <= n,
            n == bytes@.len(),
            prescan_ok(bytes@) == scan_from(bytes@, i as int, seen),
        decreases n - i,
    {
        if i >= n {
            proof {
                assert(scan_from(bytes@, i as int, seen));
            }
            return true;
        }
        let brk = line_break_exec(bytes, i);
        let terminated = brk < n;
        let e1 = if terminated && brk > i && bytes[brk - 1] == 13 {
            brk - 1
        } else {
            brk
        };
        let ce = comment_start_exec(bytes, i, e1);
        let cont = ce > i && bytes[ce - 1] == 92;
        let se = if cont {
            ce - 1
        } else {
            ce
        };
        proof {
            assert(ce as int == content_end(bytes@, i as int, brk as int, terminated));
            assert(cont == line_continues(bytes@, i as int, ce as int));
            assert(se as int == stmt_end(bytes@, i as int, ce as int));
        }
        let ts = skip_ws_exec(bytes, i, se);
        let has = ts < se;
        if !seen && has {
            let te = token_end_exec(bytes, ts, se);
            if bad_token(bytes, ts, te) {
                proof {
                    assert(!line_ok(bytes@, i as int, se as int, seen));
                    assert(!scan_from(bytes@, i as int, seen));
                }
                return false;
            }
        }
        proof {
            assert(line_ok(bytes@, i as int, se as int, seen));
        }
        let seen2 = if cont {
            seen || has
        } else {
            false
        };
        proof {
            assert(seen2 == (if cont {
                seen || has_token(bytes@, i as int, se as int)
            } else {
                false
            }));
            assert(scan_from(bytes@, i as int, seen) == (if brk as int + 1 >= bytes@.len() {
                true
            } else {
                scan_from(bytes@, brk as int + 1, seen2)
            }));
        }
        seen = seen2;
        if n - brk <= 1 {
            return true;
        }
        i = brk + 1;
    }
}

} // verus!
