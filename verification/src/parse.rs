//! The decoder: a recursive-descent parser for the wire format.
//!
//! Beyond basic well-formedness of what it returns, the parser carries a
//! completeness contract: wherever the canonical text of a well-formed value
//! stands in the input (followed by a separator, a closer, or the end), the
//! parser returns exactly that value and stops exactly behind its text. The
//! round-trip property of the codec follows from that contract alone.

use vstd::prelude::*;

use crate::encode::{
    digits_only, digits_value, enc, enc_elems, enc_pairs, esc, esc1, hex_digit, int_lexeme,
    is_i64_lexeme, is_int_syntax, num_body, num_lexeme_int, str_lexeme,
};
use crate::lex::{at, is_delim, is_digit, is_num_char, is_num_lexeme, is_ws, num_step};
use crate::value::{wf, Json, Jv};

verus! {

/// First position at or after `pos` that does not hold whitespace.
fn skip_ws(s: &Vec<u8>, pos: usize) -> (r: usize)
    requires
        pos <= s@.len(),
    ensures
        pos <= r <= s@.len(),
        forall|j: int| pos <= j < r ==> is_ws(#[trigger] s@[j]),
        r < s@.len() ==> !is_ws(s@[r as int]),
{
    let mut i = pos;
    while i < s.len() && (s[i] == 0x20 || s[i] == 0x09 || s[i] == 0x0A || s[i] == 0x0D)
        invariant
            pos <= i <= s@.len(),
            forall|j: int| pos <= j < i ==> is_ws(#[trigger] s@[j]),
        decreases s@.len() - i,
    {
        i = i + 1;
    }
    i
}

/// One transition of the number-literal machine.
fn num_step_x(st: u8, b: u8) -> (r: u8)
    ensures
        r as int == num_step(st as int, b),
{
    if st == 0 {
        if b == 0x2D {
            1
        } else if b == 0x30 {
            2
        } else if 0x30 <= b && b <= 0x39 {
            3
        } else {
            9
        }
    } else if st == 1 {
        if b == 0x30 {
            2
        } else if 0x30 <= b && b <= 0x39 {
            3
        } else {
            9
        }
    } else if st == 2 {
        if b == 0x2E {
            4
        } else if b == 0x65 || b == 0x45 {
            6
        } else {
            9
        }
    } else if st == 3 {
        if 0x30 <= b && b <= 0x39 {
            3
        } else if b == 0x2E {
            4
        } else if b == 0x65 || b == 0x45 {
            6
        } else {
            9
        }
    } else if st == 4 {
        if 0x30 <= b && b <= 0x39 {
            5
        } else {
            9
        }
    } else if st == 5 {
        if 0x30 <= b && b <= 0x39 {
            5
        } else if b == 0x65 || b == 0x45 {
            6
        } else {
            9
        }
    } else if st == 6 {
        if b == 0x2B || b == 0x2D {
            7
        } else if 0x30 <= b && b <= 0x39 {
            8
        } else {
            9
        }
    } else if st == 7 || st == 8 {
        if 0x30 <= b && b <= 0x39 {
            8
        } else {
            9
        }
    } else {
        9
    }
}

/// The value of one hexadecimal digit byte, either case.
fn hex_val(b: u8) -> (r: Option<u8>)
    ensures
        r matches Some(v) ==> v < 16,
        forall|n: int| 0 <= n < 16 && b == hex_digit(n) ==> r == Some(n as u8),
{
    if 0x30 <= b && b <= 0x39 {
        Some(b - 0x30)
    } else if 0x61 <= b && b <= 0x66 {
        Some(b - 0x57)
    } else if 0x41 <= b && b <= 0x46 {
        Some(b - 0x37)
    } else {
        None
    }
}

/// Append the UTF-8 bytes of a code point. Only the single-byte range needs
/// an exact statement: the canonical escaper never writes multi-byte escapes.
fn push_utf8(cp: u32, out: &mut Vec<u8>)
    requires
        cp < 0x110000,
    ensures
        cp < 0x80 ==> final(out)@ == old(out)@ + seq![cp as u8],
{
    if cp < 0x80 {
        out.push(cp as u8);
        assert(final(out)@ =~= old(out)@ + seq![cp as u8]);
    } else if cp < 0x800 {
        out.push(0xC0 + (cp / 64) as u8);
        out.push(0x80 + (cp % 64) as u8);
    } else if cp < 0x10000 {
        out.push(0xE0 + (cp / 4096) as u8);
        out.push(0x80 + ((cp / 64) % 64) as u8);
        out.push(0x80 + (cp % 64) as u8);
    } else {
        out.push(0xF0 + (cp / 262144) as u8);
        out.push(0x80 + ((cp / 4096) % 64) as u8);
        out.push(0x80 + ((cp / 64) % 64) as u8);
        out.push(0x80 + (cp % 64) as u8);
    }
}

/// Decide whether the number literal in `s[lo..hi]` is one the `Int` form
/// holds, and if so compute it.
fn int_value_of(s: &Vec<u8>, lo: usize, hi: usize) -> (r: Option<i64>)
    requires
        lo <= hi <= s@.len(),
        is_num_lexeme(s@.subrange(lo as int, hi as int)),
    ensures
        r is Some <==> is_i64_lexeme(s@.subrange(lo as int, hi as int)),
        r matches Some(i) ==> i as int == num_lexeme_int(s@.subrange(lo as int, hi as int)),
{
    let ghost lex = s@.subrange(lo as int, hi as int);
    proof {
        crate::lex::num_lexeme_first(lex);
        assert(lex[0] == s@[lo as int]);
    }
    let neg = s[lo] == 0x2D;
    let d0 = if neg {
        lo + 1
    } else {
        lo
    };
    let ghost body = num_body(lex);
    proof {
        if neg {
            assert(body =~= s@.subrange(d0 as int, hi as int)) by {
                assert(lex.skip(1) =~= s@.subrange(lo + 1, hi as int));
            }
        } else {
            assert(body =~= s@.subrange(d0 as int, hi as int));
        }
        assert(body.len() >= 1);
    }
    let mut k = d0;
    let mut acc: u64 = 0;
    let mut over = false;
    while k < hi
        invariant
            d0 <= k <= hi,
            hi <= s@.len(),
            lex == s@.subrange(lo as int, hi as int),
            body == num_body(lex),
            body == s@.subrange(d0 as int, hi as int),
            digits_only(body.take(k - d0)),
            !over ==> acc as int == digits_value(body.take(k - d0)),
            over ==> digits_value(body.take(k - d0)) > u64::MAX,
        decreases hi - k,
    {
        let b = s[k];
        proof {
            assert(body[k - d0] == s@[k as int]);
        }
        if b < 0x30 || b > 0x39 {
            proof {
                assert(!is_digit(body[k - d0]));
                assert(!digits_only(body));
                assert(!is_int_syntax(lex));
            }
            return None;
        }
        let d = b - 0x30;
        proof {
            assert(body.take(k - d0 + 1).drop_last() =~= body.take(k - d0));
            assert(body.take(k - d0 + 1).last() == body[k - d0]);
            assert(digits_value(body.take(k - d0 + 1)) == 10 * digits_value(body.take(k - d0)) + (
            b - 0x30));
            assert(digits_only(body.take(k - d0 + 1)));
        }
        if !over {
            if acc > (0xFFFF_FFFF_FFFF_FFFFu64 - (d as u64)) / 10 {
                proof {
                    vstd::arithmetic::div_mod::lemma_fundamental_div_mod(
                        u64::MAX - (d as u64),
                        10,
                    );
                }
                over = true;
            } else {
                proof {
                    vstd::arithmetic::div_mod::lemma_fundamental_div_mod(
                        u64::MAX - (d as u64),
                        10,
                    );
                }
                acc = acc * 10 + (d as u64);
            }
        } else {
            proof {
                crate::encode::digits_value_nonneg(body.take(k - d0));
            }
        }
        k = k + 1;
    }
    proof {
        assert(body.take(hi - d0) =~= body);
        assert(digits_only(body));
        assert(is_int_syntax(lex));
        if neg {
            assert(num_lexeme_int(lex) == -digits_value(body));
        } else {
            assert(num_body(lex) == lex);
            assert(num_lexeme_int(lex) == digits_value(body));
        }
    }
    if over {
        return None;
    }
    if neg {
        if acc > 0x8000_0000_0000_0000u64 {
            None
        } else if acc == 0x8000_0000_0000_0000u64 {
            Some(i64::MIN)
        } else {
            Some(-(acc as i64))
        }
    } else {
        if acc > 0x7FFF_FFFF_FFFF_FFFFu64 {
            None
        } else {
            Some(acc as i64)
        }
    }
}

// ---------------------------------------------------------------------------
// Candidate predicates: where canonical text stands in the input.
// ---------------------------------------------------------------------------

/// The escaped text of content `c0`, closed by a quote, stands at `i`.
pub open spec fn str_tail_at(s: Seq<u8>, i: int, c0: Seq<u8>) -> bool {
    at(s, i, esc(c0) + seq![0x22u8])
}

/// The canonical text of `v0` stands at `i`, followed by a separator, a
/// closer, or the end of the input.
pub open spec fn val_at(s: Seq<u8>, i: int, v0: Jv) -> bool {
    at(s, i, enc(v0)) && (i + enc(v0).len() == s.len() || is_delim(s[i + enc(v0).len()]))
}

/// The canonical element list of `es`, closed by a bracket, stands at `i`.
pub open spec fn elems_tail_at(s: Seq<u8>, i: int, es: Seq<Jv>) -> bool {
    at(s, i, enc_elems(es) + seq![0x5Du8])
}

/// The canonical member list of `ps`, closed by a brace, stands at `i`.
pub open spec fn pairs_tail_at(s: Seq<u8>, i: int, ps: Seq<(Seq<u8>, Jv)>) -> bool {
    at(s, i, enc_pairs(ps) + seq![0x7Du8])
}

pub open spec fn wf_elems(es: Seq<Jv>) -> bool {
    forall|i: int| 0 <= i < es.len() ==> wf(#[trigger] es[i])
}

pub open spec fn wf_pairs(ps: Seq<(Seq<u8>, Jv)>) -> bool {
    forall|i: int| 0 <= i < ps.len() ==> wf(#[trigger] ps[i].1)
}

/// Where string content `c0` stands escaped at `pos` and `k` bytes of it are
/// consumed, the text of the next byte (or the closing quote) follows.
proof fn str_cand_at(s: Seq<u8>, pos: int, c0: Seq<u8>, k: int)
    requires
        str_tail_at(s, pos, c0),
        0 <= k <= c0.len(),
    ensures
        esc(c0.take(k)).len() <= esc(c0).len(),
        pos + esc(c0).len() + 1 <= s.len(),
        k < c0.len() ==> at(s, pos + esc(c0.take(k)).len(), esc1(c0[k])),
        k == c0.len() ==> s[pos + esc(c0).len()] == 0x22 && esc(c0.take(k)) == esc(c0),
{
    crate::lex::at_concat(s, pos, esc(c0), seq![0x22u8]);
    crate::lex::at_byte(s, pos + esc(c0).len(), 0x22u8);
    if k < c0.len() {
        crate::encode::esc_split(c0, k);
        assert(esc(c0.take(k)) + (esc1(c0[k]) + esc(c0.skip(k + 1))) =~= esc(c0));
        crate::lex::at_concat(s, pos, esc(c0.take(k)), esc1(c0[k]) + esc(c0.skip(k + 1)));
        crate::lex::at_concat(s, pos + esc(c0.take(k)).len(), esc1(c0[k]), esc(c0.skip(k + 1)));
    } else {
        assert(c0.take(k) =~= c0);
    }
}

/// Decode one string literal body: `pos` stands just after the opening
/// quote; the result is the unescaped content and the position just after
/// the closing quote.
fn parse_string_body(s: &Vec<u8>, pos: usize) -> (r: Result<(Vec<u8>, usize), ()>)
    requires
        pos <= s@.len(),
    ensures
        r matches Ok(p) ==> pos < p.1 <= s@.len(),
        forall|c0: Seq<u8>| #[trigger] str_tail_at(s@, pos as int, c0) ==> (r matches Ok(p)
            && p.0@ == c0 && p.1 == pos + esc(c0).len() + 1),
{
    let mut acc: Vec<u8> = Vec::new();
    let mut i = pos;
    loop
        invariant
            pos <= i <= s@.len(),
            forall|c0: Seq<u8>| #[trigger] str_tail_at(s@, pos as int, c0) ==> (acc@.len()
                <= c0.len() && acc@ == c0.take(acc@.len() as int) && i == pos + esc(
                c0.take(acc@.len() as int),
            ).len()),
        decreases s@.len() - i,
    {
        let ghost acc0 = acc@;
        let ghost i0 = i as int;
        if i >= s.len() {
            proof {
                assert forall|c0: Seq<u8>| #[trigger] str_tail_at(s@, pos as int, c0) implies false by {
                    let k = acc0.len() as int;
                    str_cand_at(s@, pos as int, c0, k);
                    if k < c0.len() {
                        assert(esc1(c0[k]).len() >= 1);
                    }
                }
            }
            return Err(());
        }
        let b = s[i];
        if b == 0x22 {
            proof {
                assert forall|c0: Seq<u8>| #[trigger] str_tail_at(s@, pos as int, c0) implies (acc0
                    == c0 && i0 + 1 == pos + esc(c0).len() + 1) by {
                    let k = acc0.len() as int;
                    str_cand_at(s@, pos as int, c0, k);
                    if k < c0.len() {
                        crate::lex::at_index(s@, i0, esc1(c0[k]), 0);
                        assert(esc1(c0[k])[0] != 0x22);
                        assert(false);
                    } else {
                        assert(acc0 =~= c0);
                    }
                }
            }
            return Ok((acc, i + 1));
        } else if b == 0x5C {
            if i + 1 >= s.len() {
                proof {
                    assert forall|c0: Seq<u8>|
                        #[trigger] str_tail_at(s@, pos as int, c0) implies false by {
                        let k = acc0.len() as int;
                        str_cand_at(s@, pos as int, c0, k);
                        if k < c0.len() {
                            crate::lex::at_index(s@, i0, esc1(c0[k]), 0);
                            assert(esc1(c0[k])[0] == 0x5C);
                            assert(esc1(c0[k]).len() >= 2);
                        }
                    }
                }
                return Err(());
            }
            let b2 = s[i + 1];
            let mapped: Option<u8> = if b2 == 0x22 {
                Some(0x22)
            } else if b2 == 0x5C {
                Some(0x5C)
            } else if b2 == 0x2F {
                Some(0x2F)
            } else if b2 == 0x62 {
                Some(0x08)
            } else if b2 == 0x74 {
                Some(0x09)
            } else if b2 == 0x6E {
                Some(0x0A)
            } else if b2 == 0x66 {
                Some(0x0C)
            } else if b2 == 0x72 {
                Some(0x0D)
            } else {
                None
            };
            match mapped {
                Some(m) => {
                    acc.push(m);
                    i = i + 2;
                    proof {
                        assert forall|c0: Seq<u8>|
                            #[trigger] str_tail_at(s@, pos as int, c0) implies (acc@.len()
                            <= c0.len() && acc@ == c0.take(acc@.len() as int) && i == pos + esc(
                            c0.take(acc@.len() as int),
                        ).len()) by {
                            let k = acc0.len() as int;
                            str_cand_at(s@, pos as int, c0, k);
                            if k == c0.len() {
                                assert(s@[i0] == 0x22);
                                assert(false);
                            } else {
                                crate::lex::at_index(s@, i0, esc1(c0[k]), 0);
                                assert(esc1(c0[k])[0] == 0x5C);
                                assert(esc1(c0[k]).len() >= 2);
                                crate::lex::at_index(s@, i0, esc1(c0[k]), 1);
                                assert(esc1(c0[k])[1] == b2);
                                assert(c0[k] == m && esc1(c0[k]).len() == 2);
                                assert(acc@ =~= c0.take(k + 1));
                                assert(c0.take(k + 1) =~= c0.take(k).push(c0[k]));
                                crate::encode::esc_snoc(c0.take(k), c0[k]);
                            }
                        }
                    }
                },
                None => {
                    if b2 == 0x75 {
                        if s.len() - i < 6 {
                            proof {
                                assert forall|c0: Seq<u8>|
                                    #[trigger] str_tail_at(s@, pos as int, c0) implies false by {
                                    let k = acc0.len() as int;
                                    str_cand_at(s@, pos as int, c0, k);
                                    if k < c0.len() {
                                        crate::lex::at_index(s@, i0, esc1(c0[k]), 0);
                                        crate::lex::at_index(s@, i0, esc1(c0[k]), 1);
                                        assert(esc1(c0[k]).len() == 6);
                                    } else {
                                        assert(s@[i0] == 0x22);
                                    }
                                }
                            }
                            return Err(());
                        }
                        let h1 = hex_val(s[i + 2]);
                        let h2 = hex_val(s[i + 3]);
                        let h3 = hex_val(s[i + 4]);
                        let h4 = hex_val(s[i + 5]);
                        proof {
                            assert forall|c0: Seq<u8>|
                                #[trigger] str_tail_at(s@, pos as int, c0) && acc0.len()
                                < c0.len() implies (esc1(c0[acc0.len() as int]) =~= seq![
                                0x5Cu8,
                                0x75u8,
                                0x30u8,
                                0x30u8,
                                hex_digit(c0[acc0.len() as int] as int / 16),
                                hex_digit(c0[acc0.len() as int] as int % 16),
                            ] && c0[acc0.len() as int] < 0x20) by {
                                let k = acc0.len() as int;
                                str_cand_at(s@, pos as int, c0, k);
                                crate::lex::at_index(s@, i0, esc1(c0[k]), 0);
                                crate::lex::at_index(s@, i0, esc1(c0[k]), 1);
                            }
                        }
                        match (h1, h2, h3, h4) {
                            (Some(v1), Some(v2), Some(v3), Some(v4)) => {
                                let cp: u32 = (v1 as u32) * 4096 + (v2 as u32) * 256 + (v3
                                    as u32) * 16 + (v4 as u32);
                                if 0xD800 <= cp && cp < 0xDC00 {
                                    // a high surrogate: pair it with the following escape
                                    proof {
                                        assert forall|c0: Seq<u8>|
                                            #[trigger] str_tail_at(
                                            s@,
                                            pos as int,
                                            c0,
                                        ) implies false by {
                                            let k = acc0.len() as int;
                                            str_cand_at(s@, pos as int, c0, k);
                                            if k < c0.len() {
                                                let x = c0[k];
                                                crate::lex::at_index(s@, i0, esc1(x), 2);
                                                crate::lex::at_index(s@, i0, esc1(x), 3);
                                                assert(s@[i0 + 2] == 0x30 && s@[i0 + 3] == 0x30);
                                                assert(hex_digit(0) == 0x30);
                                                assert(v1 == 0 && v2 == 0);
                                            } else {
                                                assert(s@[i0] == 0x22);
                                            }
                                        }
                                    }
                                    if s.len() - i < 12 {
                                        return Err(());
                                    }
                                    if !(s[i + 6] == 0x5C && s[i + 7] == 0x75) {
                                        return Err(());
                                    }
                                    let g1 = hex_val(s[i + 8]);
                                    let g2 = hex_val(s[i + 9]);
                                    let g3 = hex_val(s[i + 10]);
                                    let g4 = hex_val(s[i + 11]);
                                    match (g1, g2, g3, g4) {
                                        (Some(w1), Some(w2), Some(w3), Some(w4)) => {
                                            let cp2: u32 = (w1 as u32) * 4096 + (w2 as u32) * 256
                                                + (w3 as u32) * 16 + (w4 as u32);
                                            if !(0xDC00 <= cp2 && cp2 < 0xE000) {
                                                return Err(());
                                            }
                                            let full: u32 = 0x10000 + (cp - 0xD800) * 1024 + (cp2
                                                - 0xDC00);
                                            push_utf8(full, &mut acc);
                                            i = i + 12;
                                        },
                                        _ => {
                                            return Err(());
                                        },
                                    }
                                } else if 0xDC00 <= cp && cp < 0xE000 {
                                    // a lone low surrogate never stands alone
                                    proof {
                                        assert forall|c0: Seq<u8>|
                                            #[trigger] str_tail_at(
                                            s@,
                                            pos as int,
                                            c0,
                                        ) implies false by {
                                            let k = acc0.len() as int;
                                            str_cand_at(s@, pos as int, c0, k);
                                            if k < c0.len() {
                                                let x = c0[k];
                                                crate::lex::at_index(s@, i0, esc1(x), 2);
                                                crate::lex::at_index(s@, i0, esc1(x), 3);
                                                assert(hex_digit(0) == 0x30);
                                                assert(v1 == 0 && v2 == 0);
                                            } else {
                                                assert(s@[i0] == 0x22);
                                            }
                                        }
                                    }
                                    return Err(());
                                } else {
                                    push_utf8(cp, &mut acc);
                                    i = i + 6;
                                    proof {
                                        assert forall|c0: Seq<u8>|
                                            #[trigger] str_tail_at(
                                            s@,
                                            pos as int,
                                            c0,
                                        ) implies (acc@.len() <= c0.len() && acc@ == c0.take(
                                            acc@.len() as int,
                                        ) && i == pos + esc(c0.take(acc@.len() as int)).len()) by {
                                            let k = acc0.len() as int;
                                            str_cand_at(s@, pos as int, c0, k);
                                            if k == c0.len() {
                                                assert(s@[i0] == 0x22);
                                                assert(false);
                                            } else {
                                                let x = c0[k];
                                                crate::lex::at_index(s@, i0, esc1(x), 4);
                                                crate::lex::at_index(s@, i0, esc1(x), 5);
                                                assert(s@[i0 + 2] == 0x30 && s@[i0 + 3] == 0x30);
                                                assert(hex_digit(0) == 0x30);
                                                assert(v1 == 0 && v2 == 0);
                                                assert(x as int / 16 < 16 && x as int % 16 < 16);
                                                assert(v3 as int == x as int / 16 && v4 as int
                                                    == x as int % 16);
                                                vstd::arithmetic::div_mod::lemma_fundamental_div_mod(
                                                    x as int,
                                                    16,
                                                );
                                                assert(cp == x as u32);
                                                assert(acc@ =~= acc0 + seq![x]);
                                                assert(acc@ =~= c0.take(k + 1));
                                                assert(c0.take(k + 1) =~= c0.take(k).push(x));
                                                crate::encode::esc_snoc(c0.take(k), x);
                                                assert(esc1(x).len() == 6);
                                            }
                                        }
                                    }
                                }
                            },
                            _ => {
                                proof {
                                    assert forall|c0: Seq<u8>|
                                        #[trigger] str_tail_at(s@, pos as int, c0) implies false by {
                                        let k = acc0.len() as int;
                                        str_cand_at(s@, pos as int, c0, k);
                                        if k < c0.len() {
                                            let x = c0[k];
                                            crate::lex::at_index(s@, i0, esc1(x), 2);
                                            crate::lex::at_index(s@, i0, esc1(x), 3);
                                            crate::lex::at_index(s@, i0, esc1(x), 4);
                                            crate::lex::at_index(s@, i0, esc1(x), 5);
                                            assert(hex_digit(0) == 0x30);
                                            assert(x as int / 16 < 16 && x as int % 16 < 16);
                                        } else {
                                            assert(s@[i0] == 0x22);
                                        }
                                    }
                                }
                                return Err(());
                            },
                        }
                    } else {
                        proof {
                            assert forall|c0: Seq<u8>|
                                #[trigger] str_tail_at(s@, pos as int, c0) implies false by {
                                let k = acc0.len() as int;
                                str_cand_at(s@, pos as int, c0, k);
                                if k < c0.len() {
                                    crate::lex::at_index(s@, i0, esc1(c0[k]), 0);
                                    crate::lex::at_index(s@, i0, esc1(c0[k]), 1);
                                } else {
                                    assert(s@[i0] == 0x22);
                                }
                            }
                        }
                        return Err(());
                    }
                },
            }
        } else if b < 0x20 {
            proof {
                assert forall|c0: Seq<u8>| #[trigger] str_tail_at(s@, pos as int, c0) implies false by {
                    let k = acc0.len() as int;
                    str_cand_at(s@, pos as int, c0, k);
                    if k < c0.len() {
                        crate::lex::at_index(s@, i0, esc1(c0[k]), 0);
                    } else {
                        assert(s@[i0] == 0x22);
                    }
                }
            }
            return Err(());
        } else {
            acc.push(b);
            i = i + 1;
            proof {
                assert forall|c0: Seq<u8>| #[trigger] str_tail_at(s@, pos as int, c0) implies (
                acc@.len() <= c0.len() && acc@ == c0.take(acc@.len() as int) && i == pos + esc(
                    c0.take(acc@.len() as int),
                ).len()) by {
                    let k = acc0.len() as int;
                    str_cand_at(s@, pos as int, c0, k);
                    if k == c0.len() {
                        assert(s@[i0] == 0x22);
                        assert(false);
                    } else {
                        crate::lex::at_index(s@, i0, esc1(c0[k]), 0);
                        assert(c0[k] == b && esc1(c0[k]) =~= seq![b]);
                        assert(acc@ =~= c0.take(k + 1));
                        assert(c0.take(k + 1) =~= c0.take(k).push(c0[k]));
                        crate::encode::esc_snoc(c0.take(k), c0[k]);
                    }
                }
            }
        }
    }
}


/// A candidate value's text pins the byte under the cursor.
proof fn val_cand_first(s: Seq<u8>, pos: int, v0: Jv)
    requires
        wf(v0),
        val_at(s, pos, v0),
    ensures
        0 <= pos < s.len(),
        enc(v0).len() >= 1,
        pos + enc(v0).len() <= s.len(),
        s[pos] == enc(v0)[0],
        !is_ws(s[pos]),
{
    crate::encode::enc_first(v0);
    crate::lex::at_index(s, pos, enc(v0), 0);
}

/// Splitting a bracketed element list behind its first element.
proof fn elems_cand_split(s: Seq<u8>, pos: int, es: Seq<Jv>)
    requires
        elems_tail_at(s, pos, es),
        es.len() >= 1,
        wf_elems(es),
    ensures
        wf(es[0]),
        val_at(s, pos, es[0]),
        pos + enc(es[0]).len() < s.len(),
        es.len() == 1 ==> s[pos + enc(es[0]).len()] == 0x5D && enc_elems(es).len() == enc(
            es[0],
        ).len(),
        es.len() >= 2 ==> s[pos + enc(es[0]).len()] == 0x2C && elems_tail_at(
            s,
            pos + enc(es[0]).len() + 1,
            es.skip(1),
        ) && es.skip(1).len() >= 1 && wf_elems(es.skip(1)) && pos + enc(es[0]).len() + 1 < s.len()
            && !is_ws(s[pos + enc(es[0]).len() + 1]) && enc_elems(es).len() == enc(es[0]).len() + 1
            + enc_elems(es.skip(1)).len(),
{
    let e0 = enc(es[0]);
    if es.len() == 1 {
        assert(enc_elems(es) == e0);
        crate::lex::at_concat(s, pos, e0, seq![0x5Du8]);
        crate::lex::at_byte(s, pos + e0.len(), 0x5D);
        assert(val_at(s, pos, es[0]));
    } else {
        let rest = enc_elems(es.skip(1));
        assert(enc_elems(es) == e0 + seq![0x2Cu8] + rest);
        assert(enc_elems(es) + seq![0x5Du8] =~= e0 + (seq![0x2Cu8] + (rest + seq![0x5Du8])));
        crate::lex::at_concat(s, pos, e0, seq![0x2Cu8] + (rest + seq![0x5Du8]));
        crate::lex::at_concat(s, pos + e0.len(), seq![0x2Cu8], rest + seq![0x5Du8]);
        crate::lex::at_byte(s, pos + e0.len(), 0x2C);
        assert(elems_tail_at(s, pos + e0.len() + 1, es.skip(1)));
        assert(val_at(s, pos, es[0]));
        assert forall|i: int| 0 <= i < es.skip(1).len() implies wf(#[trigger] es.skip(1)[i]) by {
            assert(es.skip(1)[i] == es[i + 1]);
        }
        crate::encode::enc_elems_first(es.skip(1));
        crate::encode::enc_first(es.skip(1)[0]);
        crate::lex::at_index(s, pos + e0.len() + 1, rest + seq![0x5Du8], 0);
        assert((rest + seq![0x5Du8])[0] == rest[0]);
    }
}

/// Splitting a braced member list behind its first member.
proof fn pairs_cand_split(s: Seq<u8>, pos: int, ps: Seq<(Seq<u8>, Jv)>)
    requires
        pairs_tail_at(s, pos, ps),
        ps.len() >= 1,
        wf_pairs(ps),
    ensures
        wf(ps[0].1),
        0 <= pos < s.len(),
        s[pos] == 0x22,
        str_tail_at(s, pos + 1, ps[0].0),
        s[pos + 2 + esc(ps[0].0).len()] == 0x3A,
        pos + 2 + esc(ps[0].0).len() < s.len(),
        val_at(s, pos + 3 + esc(ps[0].0).len(), ps[0].1),
        ({
            let plen = 3 + esc(ps[0].0).len() + enc(ps[0].1).len();
            &&& pos + plen < s.len()
            &&& enc_pairs(ps).len() >= plen
            &&& (ps.len() == 1 ==> s[pos + plen] == 0x7D && enc_pairs(ps).len() == plen)
            &&& (ps.len() >= 2 ==> s[pos + plen] == 0x2C && pairs_tail_at(s, pos + plen + 1, ps.skip(1))
                && ps.skip(1).len() >= 1 && wf_pairs(ps.skip(1)) && pos + plen + 1 < s.len()
                && s[pos + plen + 1] == 0x22 && enc_pairs(ps).len() == plen + 1 + enc_pairs(
                ps.skip(1),
            ).len())
        }),
{
    let k0 = ps[0].0;
    let sl = str_lexeme(k0);
    let e0 = enc(ps[0].1);
    let head = sl + seq![0x3Au8] + e0;
    assert(head.len() == 3 + esc(k0).len() + e0.len());
    if ps.len() == 1 {
        assert(enc_pairs(ps) == head);
        assert(head + seq![0x7Du8] =~= seq![0x22u8] + ((esc(k0) + seq![0x22u8]) + (seq![0x3Au8]
            + (e0 + seq![0x7Du8]))));
        crate::lex::at_concat(s, pos, seq![0x22u8], (esc(k0) + seq![0x22u8]) + (seq![0x3Au8] + (e0
            + seq![0x7Du8])));
        crate::lex::at_byte(s, pos, 0x22);
        crate::lex::at_concat(s, pos + 1, esc(k0) + seq![0x22u8], seq![0x3Au8] + (e0 + seq![
            0x7Du8,
        ]));
        crate::lex::at_concat(s, pos + 1 + esc(k0).len() + 1, seq![0x3Au8], e0 + seq![0x7Du8]);
        crate::lex::at_byte(s, pos + 2 + esc(k0).len(), 0x3A);
        crate::lex::at_concat(s, pos + 3 + esc(k0).len(), e0, seq![0x7Du8]);
        crate::lex::at_byte(s, pos + 3 + esc(k0).len() + e0.len(), 0x7D);
        assert(val_at(s, pos + 3 + esc(k0).len(), ps[0].1));
    } else {
        let rest = enc_pairs(ps.skip(1));
        assert(enc_pairs(ps) == head + seq![0x2Cu8] + rest);
        assert(enc_pairs(ps) + seq![0x7Du8] =~= seq![0x22u8] + ((esc(k0) + seq![0x22u8]) + (seq![
            0x3Au8,
        ] + (e0 + (seq![0x2Cu8] + (rest + seq![0x7Du8]))))));
        crate::lex::at_concat(s, pos, seq![0x22u8], (esc(k0) + seq![0x22u8]) + (seq![0x3Au8] + (e0
            + (seq![0x2Cu8] + (rest + seq![0x7Du8])))));
        crate::lex::at_byte(s, pos, 0x22);
        crate::lex::at_concat(s, pos + 1, esc(k0) + seq![0x22u8], seq![0x3Au8] + (e0 + (seq![
            0x2Cu8,
        ] + (rest + seq![0x7Du8]))));
        crate::lex::at_concat(s, pos + 1 + esc(k0).len() + 1, seq![0x3Au8], e0 + (seq![0x2Cu8]
            + (rest + seq![0x7Du8])));
        crate::lex::at_byte(s, pos + 2 + esc(k0).len(), 0x3A);
        crate::lex::at_concat(s, pos + 3 + esc(k0).len(), e0, seq![0x2Cu8] + (rest + seq![
            0x7Du8,
        ]));
        crate::lex::at_concat(s, pos + 3 + esc(k0).len() + e0.len(), seq![0x2Cu8], rest + seq![
            0x7Du8,
        ]);
        crate::lex::at_byte(s, pos + 3 + esc(k0).len() + e0.len(), 0x2C);
        assert(pairs_tail_at(s, pos + 3 + esc(k0).len() + e0.len() + 1, ps.skip(1)));
        assert(val_at(s, pos + 3 + esc(k0).len(), ps[0].1));
        assert forall|i: int| 0 <= i < ps.skip(1).len() implies wf(#[trigger] ps.skip(1)[i].1) by {
            assert(ps.skip(1)[i] == ps[i + 1]);
        }
        crate::encode::enc_pairs_first(ps.skip(1));
        crate::lex::at_index(
            s,
            pos + 3 + esc(k0).len() + e0.len() + 1,
            rest + seq![0x7Du8],
            0,
        );
        assert((rest + seq![0x7Du8])[0] == rest[0]);
    }
}

/// Copy `s[lo..hi]` into a fresh vector.
fn copy_range(s: &Vec<u8>, lo: usize, hi: usize) -> (r: Vec<u8>)
    requires
        lo <= hi <= s@.len(),
    ensures
        r@ == s@.subrange(lo as int, hi as int),
{
    let mut r: Vec<u8> = Vec::new();
    let mut m = lo;
    while m < hi
        invariant
            lo <= m <= hi,
            hi <= s@.len(),
            r@ == s@.subrange(lo as int, m as int),
        decreases hi - m,
    {
        r.push(s[m]);
        proof {
            assert(s@.subrange(lo as int, m as int).push(s@[m as int]) =~= s@.subrange(
                lo as int,
                m + 1,
            ));
        }
        m = m + 1;
    }
    r
}

/// Decode one number literal starting at `pos`.
fn parse_number(s: &Vec<u8>, pos: usize) -> (r: Result<(Json, usize), ()>)
    requires
        pos <= s@.len(),
    ensures
        r matches Ok(p) ==> pos < p.1 <= s@.len() && wf(p.0@),
        forall|v0: Jv| (v0 is Int || v0 is Num) && wf(v0) && #[trigger] val_at(s@, pos as int, v0)
            ==> (r matches Ok(p) && p.0@ == v0 && p.1 == pos + enc(v0).len()),
{
    let mut j = pos;
    while j < s.len() && (s[j] == 0x2D || s[j] == 0x2B || s[j] == 0x2E || s[j] == 0x65 || s[j]
        == 0x45 || (0x30 <= s[j] && s[j] <= 0x39))
        invariant
            pos <= j <= s@.len(),
            forall|m: int| pos <= m < j ==> is_num_char(#[trigger] s@[m]),
        decreases s@.len() - j,
    {
        j = j + 1;
    }
    proof {
        assert(j == s@.len() || !is_num_char(s@[j as int]));
        assert forall|v0: Jv|
            (v0 is Int || v0 is Num) && wf(v0) && #[trigger] val_at(s@, pos as int, v0) implies (
        j == pos + enc(v0).len() && is_num_lexeme(enc(v0))) by {
            val_cand_first(s@, pos as int, v0);
            let e = enc(v0);
            assert(is_num_lexeme(e)) by {
                if v0 is Int {
                    crate::encode::int_lexeme_valid(v0->Int_0);
                }
            }
            assert forall|m: int| 0 <= m < e.len() implies is_num_char(#[trigger] e[m]) by {
                crate::lex::num_lexeme_chars(e, m);
            }
            assert forall|m: int| pos <= m < pos + e.len() implies is_num_char(#[trigger] s@[m]) by {
                crate::lex::at_index(s@, pos as int, e, m - pos);
            }
            if j < pos + e.len() {
                assert(is_num_char(s@[j as int]));
                assert(false);
            }
            if j > pos + e.len() {
                assert(is_num_char(s@[pos + e.len()]));
                assert(!is_num_char(s@[pos + e.len()])) by {
                    if pos + e.len() == s@.len() {
                    } else {
                        assert(is_delim(s@[pos + e.len()]));
                    }
                }
                assert(false);
            }
        }
    }
    if j == pos {
        proof {
            assert forall|v0: Jv|
                (v0 is Int || v0 is Num) && wf(v0) && #[trigger] val_at(
                s@,
                pos as int,
                v0,
            ) implies false by {
                val_cand_first(s@, pos as int, v0);
            }
        }
        return Err(());
    }
    let ghost lex = s@.subrange(pos as int, j as int);
    proof {
        assert forall|v0: Jv|
            (v0 is Int || v0 is Num) && wf(v0) && #[trigger] val_at(s@, pos as int, v0) implies enc(
            v0,
        ) == lex by {
            assert(j == pos + enc(v0).len());
            assert(lex =~= enc(v0));
        }
    }
    // run the number machine over the lexeme
    let mut st: u8 = 0;
    let mut m = pos;
    while m < j
        invariant
            pos <= m <= j <= s@.len(),
            lex == s@.subrange(pos as int, j as int),
            st as int == crate::lex::num_state(s@.subrange(pos as int, m as int)),
        decreases j - m,
    {
        st = num_step_x(st, s[m]);
        proof {
            assert(s@.subrange(pos as int, m + 1).drop_last() =~= s@.subrange(pos as int, m as int));
            assert(s@.subrange(pos as int, m + 1).last() == s@[m as int]);
        }
        m = m + 1;
    }
    if !(st == 2 || st == 3 || st == 5 || st == 8) {
        proof {
            assert(!is_num_lexeme(lex));
        }
        return Err(());
    }
    proof {
        assert(is_num_lexeme(lex));
    }
    match int_value_of(s, pos, j) {
        Some(i) => {
            proof {
                assert forall|v0: Jv|
                    (v0 is Int || v0 is Num) && wf(v0) && #[trigger] val_at(
                    s@,
                    pos as int,
                    v0,
                ) implies v0 == Jv::Int(i as int) by {
                    if v0 is Num {
                        assert(enc(v0) == v0->Num_0);
                        assert(is_i64_lexeme(lex));
                        assert(false);
                    } else {
                        crate::encode::int_lexeme_valid(v0->Int_0);
                        assert(num_lexeme_int(lex) == v0->Int_0);
                    }
                }
            }
            Ok((Json::Int(i), j))
        },
        None => {
            let text = copy_range(s, pos, j);
            proof {
                assert(text@ == lex);
                assert forall|v0: Jv|
                    (v0 is Int || v0 is Num) && wf(v0) && #[trigger] val_at(
                    s@,
                    pos as int,
                    v0,
                ) implies v0 == Jv::Num(lex) by {
                    if v0 is Int {
                        crate::encode::int_lexeme_valid(v0->Int_0);
                        assert(is_i64_lexeme(lex));
                        assert(false);
                    } else {
                        assert(enc(v0) == v0->Num_0);
                    }
                }
            }
            Ok((Json::Num(text), j))
        },
    }
}



/// Classify a standalone number literal: an integer-shaped literal in
/// range becomes `Int`; any other valid literal is kept as its exact text;
/// text that is not a number literal of the wire format is refused.
///
/// Callers hold fractional quantities this way: the literal is carried
/// through the envelope byte for byte.
pub fn number_from_text(text: Vec<u8>) -> (r: Option<Json>)
    ensures
        r is Some <==> is_num_lexeme(text@),
        r matches Some(j) ==> wf(j@) && j@ == (if is_i64_lexeme(text@) {
            Jv::Int(num_lexeme_int(text@))
        } else {
            Jv::Num(text@)
        }),
{
    let n = text.len();
    let mut st: u8 = 0;
    let mut m: usize = 0;
    while m < n
        invariant
            m <= n,
            n == text@.len(),
            st as int == crate::lex::num_state(text@.take(m as int)),
        decreases n - m,
    {
        st = num_step_x(st, text[m]);
        proof {
            assert(text@.take(m + 1).drop_last() =~= text@.take(m as int));
            assert(text@.take(m + 1).last() == text@[m as int]);
        }
        m = m + 1;
    }
    proof {
        assert(text@.take(n as int) =~= text@);
    }
    if !(st == 2 || st == 3 || st == 5 || st == 8) {
        return None;
    }
    proof {
        assert(is_num_lexeme(text@));
        assert(text@.subrange(0, n as int) =~= text@);
    }
    match int_value_of(&text, 0, n) {
        Option::Some(i) => Some(Json::Int(i)),
        Option::None => Some(Json::Num(text)),
    }
}

/// Decode the element list of an array: `pos` stands at the first element's
/// text; elements parsed are appended to `acc`.
fn parse_elems(s: &Vec<u8>, pos: usize, acc: &mut Vec<Json>) -> (r: Result<usize, ()>)
    requires
        pos <= s@.len(),
    ensures
        r matches Ok(end) ==> pos < end <= s@.len(),
        r matches Ok(end) ==> old(acc)@.len() <= final(acc)@.len() && (forall|m: int|
            0 <= m < old(acc)@.len() ==> final(acc)@[m] == old(acc)@[m]) && (forall|m: int|
            old(acc)@.len() <= m < final(acc)@.len() ==> wf(#[trigger] final(acc)@[m]@)),
        forall|es0: Seq<Jv>|
            es0.len() >= 1 && wf_elems(es0) && #[trigger] elems_tail_at(s@, pos as int, es0) ==> (
            r matches Ok(end) && crate::value::views_of_elems(final(acc)@)
                == crate::value::views_of_elems(old(acc)@) + es0 && end == pos + enc_elems(
                es0,
            ).len() + 1),
    decreases s@.len() - pos, 1int,
{
    let ghost acc_in = acc@;
    proof {
        assert forall|es0: Seq<Jv>|
            es0.len() >= 1 && wf_elems(es0) && #[trigger] elems_tail_at(
            s@,
            pos as int,
            es0,
        ) implies val_at(s@, pos as int, es0[0]) && wf(es0[0]) by {
            elems_cand_split(s@, pos as int, es0);
        }
    }
    match parse_value(s, pos) {
        Err(()) => Err(()),
        Ok((v, p1)) => {
            acc.push(v);
            proof {
                assert(acc@.drop_last() =~= acc_in);
                assert(acc@.last() == v);
                assert(crate::value::views_of_elems(acc@) == crate::value::views_of_elems(
                    acc_in,
                ).push(v@));
            }
            let ghost acc_mid = acc@;
            let p2 = skip_ws(s, p1);
            proof {
                assert forall|es0: Seq<Jv>|
                    es0.len() >= 1 && wf_elems(es0) && #[trigger] elems_tail_at(
                    s@,
                    pos as int,
                    es0,
                ) implies v@ == es0[0] && p1 == pos + enc(es0[0]).len() && p2 == p1 && p1
                    < s@.len() by {
                    elems_cand_split(s@, pos as int, es0);
                    assert(!is_ws(s@[p1 as int]));
                }
            }
            if p2 < s.len() && s[p2] == 0x2C {
                let p3 = skip_ws(s, p2 + 1);
                proof {
                    assert forall|es0: Seq<Jv>|
                        es0.len() >= 1 && wf_elems(es0) && #[trigger] elems_tail_at(
                        s@,
                        pos as int,
                        es0,
                    ) implies es0.len() >= 2 && elems_tail_at(s@, p3 as int, es0.skip(1))
                        && es0.skip(1).len() >= 1 && wf_elems(es0.skip(1)) && p3 == p2 + 1 by {
                        elems_cand_split(s@, pos as int, es0);
                        if es0.len() == 1 {
                            assert(s@[p2 as int] == 0x5D);
                            assert(false);
                        }
                        assert(!is_ws(s@[p2 + 1]));
                    }
                }
                match parse_elems(s, p3, acc) {
                    Err(()) => Err(()),
                    Ok(end) => {
                        proof {
                            assert forall|es0: Seq<Jv>|
                                es0.len() >= 1 && wf_elems(es0) && #[trigger] elems_tail_at(
                                s@,
                                pos as int,
                                es0,
                            ) implies crate::value::views_of_elems(acc@)
                                == crate::value::views_of_elems(acc_in) + es0 && end == pos
                                + enc_elems(es0).len() + 1 by {
                                elems_cand_split(s@, pos as int, es0);
                                assert(crate::value::views_of_elems(acc@)
                                    == crate::value::views_of_elems(acc_mid) + es0.skip(1));
                                assert(crate::value::views_of_elems(acc_in).push(es0[0])
                                    + es0.skip(1) =~= crate::value::views_of_elems(acc_in) + es0);
                            }
                        }
                        Ok(end)
                    },
                }
            } else if p2 < s.len() && s[p2] == 0x5D {
                proof {
                    assert forall|es0: Seq<Jv>|
                        es0.len() >= 1 && wf_elems(es0) && #[trigger] elems_tail_at(
                        s@,
                        pos as int,
                        es0,
                    ) implies crate::value::views_of_elems(acc@) == crate::value::views_of_elems(
                        acc_in,
                    ) + es0 && p2 + 1 == pos + enc_elems(es0).len() + 1 by {
                        elems_cand_split(s@, pos as int, es0);
                        if es0.len() >= 2 {
                            assert(s@[p2 as int] == 0x2C);
                            assert(false);
                        }
                        assert(crate::value::views_of_elems(acc_in).push(es0[0])
                            =~= crate::value::views_of_elems(acc_in) + es0);
                    }
                }
                Ok(p2 + 1)
            } else {
                proof {
                    assert forall|es0: Seq<Jv>|
                        es0.len() >= 1 && wf_elems(es0) && #[trigger] elems_tail_at(
                        s@,
                        pos as int,
                        es0,
                    ) implies false by {
                        elems_cand_split(s@, pos as int, es0);
                    }
                }
                Err(())
            }
        },
    }
}

/// Decode the member list of an object: `pos` stands at the first key's
/// opening quote; members parsed are appended to `acc`.
#[verifier::rlimit(80)]
fn parse_pairs(s: &Vec<u8>, pos: usize, acc: &mut Vec<(Vec<u8>, Json)>) -> (r: Result<usize, ()>)
    requires
        pos <= s@.len(),
    ensures
        r matches Ok(end) ==> pos < end <= s@.len(),
        r matches Ok(end) ==> old(acc)@.len() <= final(acc)@.len() && (forall|m: int|
            0 <= m < old(acc)@.len() ==> final(acc)@[m] == old(acc)@[m]) && (forall|m: int|
            old(acc)@.len() <= m < final(acc)@.len() ==> wf(#[trigger] final(acc)@[m].1@)),
        forall|ps0: Seq<(Seq<u8>, Jv)>|
            ps0.len() >= 1 && wf_pairs(ps0) && #[trigger] pairs_tail_at(s@, pos as int, ps0) ==> (
            r matches Ok(end) && crate::value::views_of_pairs(final(acc)@)
                == crate::value::views_of_pairs(old(acc)@) + ps0 && end == pos + enc_pairs(
                ps0,
            ).len() + 1),
    decreases s@.len() - pos, 1int,
{
    let ghost acc_in = acc@;
    if !(pos < s.len() && s[pos] == 0x22) {
        proof {
            assert forall|ps0: Seq<(Seq<u8>, Jv)>|
                ps0.len() >= 1 && wf_pairs(ps0) && #[trigger] pairs_tail_at(
                s@,
                pos as int,
                ps0,
            ) implies false by {
                pairs_cand_split(s@, pos as int, ps0);
            }
        }
        return Err(());
    }
    proof {
        assert forall|ps0: Seq<(Seq<u8>, Jv)>|
            ps0.len() >= 1 && wf_pairs(ps0) && #[trigger] pairs_tail_at(
            s@,
            pos as int,
            ps0,
        ) implies str_tail_at(s@, pos + 1, ps0[0].0) by {
            pairs_cand_split(s@, pos as int, ps0);
        }
    }
    match parse_string_body(s, pos + 1) {
        Err(()) => Err(()),
        Ok((key, p1)) => {
            let p2 = skip_ws(s, p1);
            proof {
                assert forall|ps0: Seq<(Seq<u8>, Jv)>|
                    ps0.len() >= 1 && wf_pairs(ps0) && #[trigger] pairs_tail_at(
                    s@,
                    pos as int,
                    ps0,
                ) implies key@ == ps0[0].0 && p1 == pos + 2 + esc(ps0[0].0).len() && p2 == p1 && p1
                    < s@.len() && s@[p1 as int] == 0x3A by {
                    pairs_cand_split(s@, pos as int, ps0);
                    assert(!is_ws(s@[p1 as int]));
                }
            }
            if !(p2 < s.len() && s[p2] == 0x3A) {
                proof {
                    assert forall|ps0: Seq<(Seq<u8>, Jv)>|
                        ps0.len() >= 1 && wf_pairs(ps0) && #[trigger] pairs_tail_at(
                        s@,
                        pos as int,
                        ps0,
                    ) implies false by {
                        pairs_cand_split(s@, pos as int, ps0);
                    }
                }
                return Err(());
            }
            let p3 = skip_ws(s, p2 + 1);
            proof {
                assert forall|ps0: Seq<(Seq<u8>, Jv)>|
                    ps0.len() >= 1 && wf_pairs(ps0) && #[trigger] pairs_tail_at(
                    s@,
                    pos as int,
                    ps0,
                ) implies val_at(s@, p3 as int, ps0[0].1) && wf(ps0[0].1) && p3 == p2 + 1 by {
                    pairs_cand_split(s@, pos as int, ps0);
                    val_cand_first(s@, p2 + 1, ps0[0].1);
                }
            }
            match parse_value(s, p3) {
                Err(()) => Err(()),
                Ok((v, p4)) => {
                    acc.push((key, v));
                    proof {
                        assert(acc@.drop_last() =~= acc_in);
                        assert(acc@.last() == (key, v));
                        assert(crate::value::views_of_pairs(acc@) == crate::value::views_of_pairs(
                            acc_in,
                        ).push((key@, v@)));
                    }
                    let ghost acc_mid = acc@;
                    let p5 = skip_ws(s, p4);
                    proof {
                        assert forall|ps0: Seq<(Seq<u8>, Jv)>|
                            ps0.len() >= 1 && wf_pairs(ps0) && #[trigger] pairs_tail_at(
                            s@,
                            pos as int,
                            ps0,
                        ) implies v@ == ps0[0].1 && p4 == pos + 3 + esc(ps0[0].0).len() + enc(
                            ps0[0].1,
                        ).len() && p5 == p4 && p4 < s@.len() by {
                            pairs_cand_split(s@, pos as int, ps0);
                            assert(!is_ws(s@[p4 as int]));
                        }
                    }
                    if p5 < s.len() && s[p5] == 0x2C {
                        let p6 = skip_ws(s, p5 + 1);
                        proof {
                            assert forall|ps0: Seq<(Seq<u8>, Jv)>|
                                ps0.len() >= 1 && wf_pairs(ps0) && #[trigger] pairs_tail_at(
                                s@,
                                pos as int,
                                ps0,
                            ) implies ps0.len() >= 2 && pairs_tail_at(s@, p6 as int, ps0.skip(1))
                                && ps0.skip(1).len() >= 1 && wf_pairs(ps0.skip(1)) && p6 == p5
                                + 1 by {
                                pairs_cand_split(s@, pos as int, ps0);
                                if ps0.len() == 1 {
                                    assert(s@[p5 as int] == 0x7D);
                                    assert(false);
                                }
                                assert(s@[p5 + 1] == 0x22);
                                assert(!is_ws(s@[p5 + 1]));
                            }
                        }
                        match parse_pairs(s, p6, acc) {
                            Err(()) => Err(()),
                            Ok(end) => {
                                proof {
                                    assert forall|ps0: Seq<(Seq<u8>, Jv)>|
                                        ps0.len() >= 1 && wf_pairs(ps0) && #[trigger] pairs_tail_at(
                                        s@,
                                        pos as int,
                                        ps0,
                                    ) implies crate::value::views_of_pairs(acc@)
                                        == crate::value::views_of_pairs(acc_in) + ps0 && end == pos
                                        + enc_pairs(ps0).len() + 1 by {
                                        pairs_cand_split(s@, pos as int, ps0);
                                        assert(crate::value::views_of_pairs(acc@)
                                            == crate::value::views_of_pairs(acc_mid) + ps0.skip(
                                            1,
                                        ));
                                        assert(crate::value::views_of_pairs(acc_in).push(
                                            (ps0[0].0, ps0[0].1),
                                        ) + ps0.skip(1) =~= crate::value::views_of_pairs(acc_in)
                                            + ps0);
                                        assert((key@, v@) == (ps0[0].0, ps0[0].1));
                                    }
                                }
                                Ok(end)
                            },
                        }
                    } else if p5 < s.len() && s[p5] == 0x7D {
                        proof {
                            assert forall|ps0: Seq<(Seq<u8>, Jv)>|
                                ps0.len() >= 1 && wf_pairs(ps0) && #[trigger] pairs_tail_at(
                                s@,
                                pos as int,
                                ps0,
                            ) implies crate::value::views_of_pairs(acc@)
                                == crate::value::views_of_pairs(acc_in) + ps0 && p5 + 1 == pos
                                + enc_pairs(ps0).len() + 1 by {
                                pairs_cand_split(s@, pos as int, ps0);
                                if ps0.len() >= 2 {
                                    assert(s@[p5 as int] == 0x2C);
                                    assert(false);
                                }
                                assert((key@, v@) == (ps0[0].0, ps0[0].1));
                                assert(crate::value::views_of_pairs(acc_in).push((ps0[0].0, ps0[0].1))
                                    =~= crate::value::views_of_pairs(acc_in) + ps0);
                            }
                        }
                        Ok(p5 + 1)
                    } else {
                        proof {
                            assert forall|ps0: Seq<(Seq<u8>, Jv)>|
                                ps0.len() >= 1 && wf_pairs(ps0) && #[trigger] pairs_tail_at(
                                s@,
                                pos as int,
                                ps0,
                            ) implies false by {
                                pairs_cand_split(s@, pos as int, ps0);
                            }
                        }
                        Err(())
                    }
                },
            }
        },
    }
}

/// Decode one value whose text starts exactly at `pos`.
fn parse_value(s: &Vec<u8>, pos: usize) -> (r: Result<(Json, usize), ()>)
    requires
        pos <= s@.len(),
    ensures
        r matches Ok(p) ==> pos < p.1 <= s@.len() && wf(p.0@),
        forall|v0: Jv| wf(v0) && #[trigger] val_at(s@, pos as int, v0) ==> (r matches Ok(p) && p.0@
            == v0 && p.1 == pos + enc(v0).len()),
    decreases s@.len() - pos, 0int,
{
    if pos >= s.len() {
        proof {
            assert forall|v0: Jv| wf(v0) && #[trigger] val_at(s@, pos as int, v0) implies false by {
                val_cand_first(s@, pos as int, v0);
            }
        }
        return Err(());
    }
    let b = s[pos];
    proof {
        assert forall|v0: Jv| wf(v0) && #[trigger] val_at(s@, pos as int, v0) implies s@[pos as int]
            == enc(v0)[0] by {
            val_cand_first(s@, pos as int, v0);
        }
    }
    if b == 0x6E {
        if s.len() - pos < 4 || s[pos + 1] != 0x75 || s[pos + 2] != 0x6C || s[pos + 3] != 0x6C {
            proof {
                assert forall|v0: Jv|
                    wf(v0) && #[trigger] val_at(s@, pos as int, v0) implies false by {
                    val_cand_first(s@, pos as int, v0);
                    crate::encode::enc_first(v0);
                    assert(v0 is Null);
                    crate::lex::at_index(s@, pos as int, enc(v0), 1);
                    crate::lex::at_index(s@, pos as int, enc(v0), 2);
                    crate::lex::at_index(s@, pos as int, enc(v0), 3);
                }
            }
            Err(())
        } else {
            proof {
                assert forall|v0: Jv|
                    wf(v0) && #[trigger] val_at(s@, pos as int, v0) implies v0 == Jv::Null && enc(
                    v0,
                ).len() == 4 by {
                    crate::encode::enc_first(v0);
                }
            }
            Ok((Json::Null, pos + 4))
        }
    } else if b == 0x74 {
        if s.len() - pos < 4 || s[pos + 1] != 0x72 || s[pos + 2] != 0x75 || s[pos + 3] != 0x65 {
            proof {
                assert forall|v0: Jv|
                    wf(v0) && #[trigger] val_at(s@, pos as int, v0) implies false by {
                    val_cand_first(s@, pos as int, v0);
                    crate::encode::enc_first(v0);
                    assert(v0 == Jv::Bool(true));
                    crate::lex::at_index(s@, pos as int, enc(v0), 1);
                    crate::lex::at_index(s@, pos as int, enc(v0), 2);
                    crate::lex::at_index(s@, pos as int, enc(v0), 3);
                }
            }
            Err(())
        } else {
            proof {
                assert forall|v0: Jv|
                    wf(v0) && #[trigger] val_at(s@, pos as int, v0) implies v0 == Jv::Bool(true)
                    && enc(v0).len() == 4 by {
                    crate::encode::enc_first(v0);
                }
            }
            Ok((Json::Bool(true), pos + 4))
        }
    } else if b == 0x66 {
        if s.len() - pos < 5 || s[pos + 1] != 0x61 || s[pos + 2] != 0x6C || s[pos + 3] != 0x73
            || s[pos + 4] != 0x65 {
            proof {
                assert forall|v0: Jv|
                    wf(v0) && #[trigger] val_at(s@, pos as int, v0) implies false by {
                    val_cand_first(s@, pos as int, v0);
                    crate::encode::enc_first(v0);
                    assert(v0 == Jv::Bool(false));
                    crate::lex::at_index(s@, pos as int, enc(v0), 1);
                    crate::lex::at_index(s@, pos as int, enc(v0), 2);
                    crate::lex::at_index(s@, pos as int, enc(v0), 3);
                    crate::lex::at_index(s@, pos as int, enc(v0), 4);
                }
            }
            Err(())
        } else {
            proof {
                assert forall|v0: Jv|
                    wf(v0) && #[trigger] val_at(s@, pos as int, v0) implies v0 == Jv::Bool(false)
                    && enc(v0).len() == 5 by {
                    crate::encode::enc_first(v0);
                }
            }
            Ok((Json::Bool(false), pos + 5))
        }
    } else if b == 0x22 {
        proof {
            assert forall|v0: Jv| wf(v0) && #[trigger] val_at(s@, pos as int, v0) implies v0 is Str
                && str_tail_at(s@, pos + 1, v0->Str_0) && enc(v0).len() == 2 + esc(
                v0->Str_0,
            ).len() by {
                crate::encode::enc_first(v0);
                assert(enc(v0) =~= seq![0x22u8] + (esc(v0->Str_0) + seq![0x22u8]));
                crate::lex::at_concat(s@, pos as int, seq![0x22u8], esc(v0->Str_0) + seq![0x22u8]);
            }
        }
        match parse_string_body(s, pos + 1) {
            Err(()) => Err(()),
            Ok((c, end)) => Ok((Json::Str(c), end)),
        }
    } else if b == 0x5B {
        let p1 = skip_ws(s, pos + 1);
        proof {
            assert forall|v0: Jv| wf(v0) && #[trigger] val_at(s@, pos as int, v0) implies v0 is Arr
                && elems_tail_at(s@, p1 as int, v0->Arr_0) && p1 == pos + 1 && enc(v0).len() == 2
                + enc_elems(v0->Arr_0).len() && wf_elems(v0->Arr_0) by {
                crate::encode::enc_first(v0);
                assert(enc(v0) =~= seq![0x5Bu8] + (enc_elems(v0->Arr_0) + seq![0x5Du8]));
                crate::lex::at_concat(
                    s@,
                    pos as int,
                    seq![0x5Bu8],
                    enc_elems(v0->Arr_0) + seq![0x5Du8],
                );
                crate::lex::at_index(s@, pos + 1, enc_elems(v0->Arr_0) + seq![0x5Du8], 0);
                if v0->Arr_0.len() == 0 {
                    assert((enc_elems(v0->Arr_0) + seq![0x5Du8])[0] == 0x5D);
                    assert(!is_ws(s@[pos + 1]));
                } else {
                    crate::encode::enc_elems_first(v0->Arr_0);
                    crate::encode::enc_first(v0->Arr_0[0]);
                    assert((enc_elems(v0->Arr_0) + seq![0x5Du8])[0] == enc(v0->Arr_0[0])[0]);
                    assert(!is_ws(s@[pos + 1]));
                }
            }
        }
        if p1 < s.len() && s[p1] == 0x5D {
            proof {
                assert forall|v0: Jv|
                    wf(v0) && #[trigger] val_at(s@, pos as int, v0) implies v0->Arr_0.len() == 0
                    && v0 == Jv::Arr(Seq::<Jv>::empty()) && enc(v0).len() == 2 by {
                    if v0->Arr_0.len() >= 1 {
                        crate::encode::enc_elems_first(v0->Arr_0);
                        crate::encode::enc_first(v0->Arr_0[0]);
                        crate::lex::at_index(s@, pos + 1, enc_elems(v0->Arr_0) + seq![0x5Du8], 0);
                        assert(false);
                    }
                    assert(v0->Arr_0 =~= Seq::<Jv>::empty());
                }
            }
            let out: Vec<Json> = Vec::new();
            proof {
                assert(crate::value::views_of_elems(out@) =~= Seq::<Jv>::empty());
            }
            Ok((Json::Arr(out), p1 + 1))
        } else {
            let mut out: Vec<Json> = Vec::new();
            let ghost out0 = out@;
            match parse_elems(s, p1, &mut out) {
                Err(()) => {
                    proof {
                        assert forall|v0: Jv|
                            wf(v0) && #[trigger] val_at(s@, pos as int, v0) implies false by {
                            if v0->Arr_0.len() == 0 {
                                crate::lex::at_byte(s@, p1 as int, 0x5D);
                                assert(at(s@, p1 as int, Seq::<u8>::empty() + seq![0x5Du8]));
                                assert(Seq::<u8>::empty() + seq![0x5Du8] =~= seq![0x5Du8]);
                            }
                        }
                    }
                    Err(())
                },
                Ok(end) => {
                    proof {
                        crate::value::views_of_elems_props(out@);
                        assert forall|v0: Jv|
                            wf(v0) && #[trigger] val_at(s@, pos as int, v0) implies v0 == Jv::Arr(
                            crate::value::views_of_elems(out@),
                        ) && end == pos + enc(v0).len() by {
                            if v0->Arr_0.len() == 0 {
                                crate::lex::at_byte(s@, p1 as int, 0x5D);
                                assert(at(s@, p1 as int, Seq::<u8>::empty() + seq![0x5Du8]));
                                assert(Seq::<u8>::empty() + seq![0x5Du8] =~= seq![0x5Du8]);
                                assert(false);
                            }
                            assert(crate::value::views_of_elems(out@)
                                == crate::value::views_of_elems(out0) + v0->Arr_0);
                            assert(crate::value::views_of_elems(out0) + v0->Arr_0 =~= v0->Arr_0);
                        }
                        assert(wf(Jv::Arr(crate::value::views_of_elems(out@)))) by {
                            let vs = crate::value::views_of_elems(out@);
                            assert forall|i: int| 0 <= i < vs.len() implies wf(#[trigger] vs[i]) by {
                                assert(vs[i] == out@[i]@);
                                assert(wf(out@[i]@));
                            }
                        }
                    }
                    Ok((Json::Arr(out), end))
                },
            }
        }
    } else if b == 0x7B {
        let p1 = skip_ws(s, pos + 1);
        proof {
            assert forall|v0: Jv| wf(v0) && #[trigger] val_at(s@, pos as int, v0) implies v0 is Obj
                && pairs_tail_at(s@, p1 as int, v0->Obj_0) && p1 == pos + 1 && enc(v0).len() == 2
                + enc_pairs(v0->Obj_0).len() && wf_pairs(v0->Obj_0) by {
                crate::encode::enc_first(v0);
                assert(enc(v0) =~= seq![0x7Bu8] + (enc_pairs(v0->Obj_0) + seq![0x7Du8]));
                crate::lex::at_concat(
                    s@,
                    pos as int,
                    seq![0x7Bu8],
                    enc_pairs(v0->Obj_0) + seq![0x7Du8],
                );
                crate::lex::at_index(s@, pos + 1, enc_pairs(v0->Obj_0) + seq![0x7Du8], 0);
                if v0->Obj_0.len() == 0 {
                    assert((enc_pairs(v0->Obj_0) + seq![0x7Du8])[0] == 0x7D);
                    assert(!is_ws(s@[pos + 1]));
                } else {
                    crate::encode::enc_pairs_first(v0->Obj_0);
                    assert((enc_pairs(v0->Obj_0) + seq![0x7Du8])[0] == 0x22);
                    assert(!is_ws(s@[pos + 1]));
                }
            }
        }
        if p1 < s.len() && s[p1] == 0x7D {
            proof {
                assert forall|v0: Jv|
                    wf(v0) && #[trigger] val_at(s@, pos as int, v0) implies v0->Obj_0.len() == 0
                    && v0 == Jv::Obj(Seq::<(Seq<u8>, Jv)>::empty()) && enc(v0).len() == 2 by {
                    if v0->Obj_0.len() >= 1 {
                        crate::encode::enc_pairs_first(v0->Obj_0);
                        crate::lex::at_index(s@, pos + 1, enc_pairs(v0->Obj_0) + seq![0x7Du8], 0);
                        assert(false);
                    }
                    assert(v0->Obj_0 =~= Seq::<(Seq<u8>, Jv)>::empty());
                }
            }
            let out: Vec<(Vec<u8>, Json)> = Vec::new();
            proof {
                assert(crate::value::views_of_pairs(out@) =~= Seq::<(Seq<u8>, Jv)>::empty());
            }
            Ok((Json::Obj(out), p1 + 1))
        } else {
            let mut out: Vec<(Vec<u8>, Json)> = Vec::new();
            let ghost out0 = out@;
            match parse_pairs(s, p1, &mut out) {
                Err(()) => {
                    proof {
                        assert forall|v0: Jv|
                            wf(v0) && #[trigger] val_at(s@, pos as int, v0) implies false by {
                            if v0->Obj_0.len() == 0 {
                                crate::lex::at_byte(s@, p1 as int, 0x7D);
                                assert(at(s@, p1 as int, Seq::<u8>::empty() + seq![0x7Du8]));
                                assert(Seq::<u8>::empty() + seq![0x7Du8] =~= seq![0x7Du8]);
                            }
                        }
                    }
                    Err(())
                },
                Ok(end) => {
                    proof {
                        crate::value::views_of_pairs_props(out@);
                        assert forall|v0: Jv|
                            wf(v0) && #[trigger] val_at(s@, pos as int, v0) implies v0 == Jv::Obj(
                            crate::value::views_of_pairs(out@),
                        ) && end == pos + enc(v0).len() by {
                            if v0->Obj_0.len() == 0 {
                                crate::lex::at_byte(s@, p1 as int, 0x7D);
                                assert(at(s@, p1 as int, Seq::<u8>::empty() + seq![0x7Du8]));
                                assert(Seq::<u8>::empty() + seq![0x7Du8] =~= seq![0x7Du8]);
                                assert(false);
                            }
                            assert(crate::value::views_of_pairs(out@)
                                == crate::value::views_of_pairs(out0) + v0->Obj_0);
                            assert(crate::value::views_of_pairs(out0) + v0->Obj_0 =~= v0->Obj_0);
                        }
                        assert(wf(Jv::Obj(crate::value::views_of_pairs(out@)))) by {
                            let vs = crate::value::views_of_pairs(out@);
                            assert forall|i: int| 0 <= i < vs.len() implies wf(#[trigger] vs[i].1) by {
                                assert(vs[i] == (out@[i].0@, out@[i].1@));
                                assert(wf(out@[i].1@));
                            }
                        }
                    }
                    Ok((Json::Obj(out), end))
                },
            }
        }
    } else if b == 0x2D || (0x30 <= b && b <= 0x39) {
        proof {
            assert forall|v0: Jv| wf(v0) && #[trigger] val_at(s@, pos as int, v0) implies (v0
                is Int || v0 is Num) by {
                crate::encode::enc_first(v0);
            }
        }
        parse_number(s, pos)
    } else {
        proof {
            assert forall|v0: Jv| wf(v0) && #[trigger] val_at(s@, pos as int, v0) implies false by {
                crate::encode::enc_first(v0);
            }
        }
        Err(())
    }
}

/// Decode a complete document: one value, surrounded by nothing but
/// whitespace.
///
/// The second clause is the codec's round-trip completeness: on exactly the
/// canonical text of any well-formed value, decoding returns that value.
pub fn decode_value(s: &Vec<u8>) -> (r: Result<Json, ()>)
    ensures
        r matches Ok(v) ==> wf(v@),
        forall|v0: Jv| wf(v0) && s@ == enc(v0) ==> (r matches Ok(v) && v@ == v0),
{
    proof {
        assert forall|v0: Jv| wf(v0) && s@ == enc(v0) implies val_at(s@, 0, v0) && !is_ws(
            s@[0],
        ) by {
            crate::encode::enc_first(v0);
            assert(s@.subrange(0, enc(v0).len() as int) =~= enc(v0));
        }
    }
    let p0 = skip_ws(s, 0);
    match parse_value(s, p0) {
        Err(()) => Err(()),
        Ok((v, end)) => {
            let p1 = skip_ws(s, end);
            if p1 == s.len() {
                Ok(v)
            } else {
                proof {
                    assert forall|v0: Jv| wf(v0) && s@ == enc(v0) implies false by {
                        assert(p0 == 0);
                        assert(end == enc(v0).len());
                    }
                }
                Err(())
            }
        },
    }
}

/// The codec round-trip, stated on the functions themselves: decoding the
/// encoder's output gives the value back. The body exists to be checked;
/// the contract is the law.
pub fn codec_round_trip(v: &Json) -> (w: Json)
    requires
        wf(v@),
    ensures
        w@ == v@,
{
    let bytes = crate::encode::encode_value(v);
    match decode_value(&bytes) {
        Ok(w) => w,
        Err(()) => {
            proof {
                assert(false);
            }
            Json::Null
        },
    }
}


} // verus!
