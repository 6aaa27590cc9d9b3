//! Canonical serialization of request values.
//!
//! `enc` is the mathematical statement of the wire text of a value: no
//! insignificant whitespace, strings escaped minimally, integers in plain
//! decimal. `encode_value` produces exactly those bytes.

use vstd::prelude::*;

use crate::lex::{is_digit, is_num_lexeme, num_run, num_step};
use crate::value::{Json, Jv};

verus! {

// ---------------------------------------------------------------------------
// Integer literals.
// ---------------------------------------------------------------------------

/// The decimal digit sequence of `n`, most significant first.
pub open spec fn dec_digits(n: nat) -> Seq<u8>
    decreases n,
{
    if n < 10 {
        seq![(0x30 + n) as u8]
    } else {
        dec_digits(n / 10) + seq![(0x30 + n % 10) as u8]
    }
}

/// The canonical literal of an integer.
pub open spec fn int_lexeme(i: int) -> Seq<u8> {
    if i < 0 {
        seq![0x2Du8] + dec_digits((-i) as nat)
    } else {
        dec_digits(i as nat)
    }
}

pub open spec fn digits_only(s: Seq<u8>) -> bool {
    forall|j: int| 0 <= j < s.len() ==> is_digit(#[trigger] s[j])
}

/// The numeric value of a digit sequence.
pub open spec fn digits_value(s: Seq<u8>) -> int
    decreases s.len(),
{
    if s.len() == 0 {
        0
    } else {
        10 * digits_value(s.drop_last()) + (s.last() - 0x30)
    }
}

/// The digit portion of a number literal: the literal without its sign.
pub open spec fn num_body(s: Seq<u8>) -> Seq<u8> {
    if s.len() > 0 && s[0] == 0x2D {
        s.skip(1)
    } else {
        s
    }
}

/// A number literal of plain integer shape: an optional sign and digits,
/// no fraction and no exponent.
pub open spec fn is_int_syntax(s: Seq<u8>) -> bool {
    is_num_lexeme(s) && digits_only(num_body(s))
}

/// The integer a plain-integer literal denotes.
pub open spec fn num_lexeme_int(s: Seq<u8>) -> int {
    if s.len() > 0 && s[0] == 0x2D {
        -digits_value(num_body(s))
    } else {
        digits_value(s)
    }
}

/// A literal the `Int` form can hold exactly.
pub open spec fn is_i64_lexeme(s: Seq<u8>) -> bool {
    is_int_syntax(s) && i64::MIN <= num_lexeme_int(s) <= i64::MAX
}

pub proof fn dec_digits_shape(n: nat)
    ensures
        dec_digits(n).len() >= 1,
        digits_only(dec_digits(n)),
        n >= 1 ==> dec_digits(n)[0] != 0x30,
        n < 10 ==> dec_digits(n) =~= seq![(0x30 + n) as u8],
    decreases n,
{
    if n >= 10 {
        dec_digits_shape(n / 10);
        assert forall|j: int| 0 <= j < dec_digits(n).len() implies is_digit(
            #[trigger] dec_digits(n)[j],
        ) by {
            if j < dec_digits(n / 10).len() {
                assert(dec_digits(n)[j] == dec_digits(n / 10)[j]);
            }
        }
    }
}

pub proof fn dec_digits_value(n: nat)
    ensures
        digits_value(dec_digits(n)) == n,
    decreases n,
{
    assert(digits_value(Seq::<u8>::empty()) == 0);
    if n < 10 {
        assert(dec_digits(n).drop_last() =~= Seq::<u8>::empty());
        assert(dec_digits(n).last() == (0x30 + n) as u8);
        assert(digits_value(dec_digits(n)) == 10 * digits_value(Seq::<u8>::empty()) + ((0x30
            + n) as u8 - 0x30));
    } else {
        dec_digits_value(n / 10);
        let whole = dec_digits(n / 10) + seq![(0x30 + n % 10) as u8];
        assert(whole.drop_last() =~= dec_digits(n / 10));
        assert(whole.last() == (0x30 + n % 10) as u8);
        assert(digits_value(whole) == 10 * digits_value(dec_digits(n / 10)) + ((0x30 + n
            % 10) as u8 - 0x30));
        vstd::arithmetic::div_mod::lemma_fundamental_div_mod(n as int, 10);
    }
}

/// Reading the digits of `n` takes the number machine from an initial state
/// into the accepting integer-part state.
pub proof fn num_run_dec_digits(st: int, n: nat)
    requires
        st == 0 || st == 1,
    ensures
        num_run(st, dec_digits(n)) == if n == 0 { 2int } else { 3int },
    decreases n,
{
    if n < 10 {
        dec_digits_shape(n);
        crate::lex::num_run_singleton(st, (0x30 + n) as u8);
        assert(num_run(st, dec_digits(n)) == num_step(st, (0x30 + n) as u8));
    } else {
        num_run_dec_digits(st, n / 10);
        vstd::arithmetic::div_mod::lemma_div_non_zero(n as int, 10);
        let whole = dec_digits(n / 10) + seq![(0x30 + n % 10) as u8];
        assert(whole.drop_last() =~= dec_digits(n / 10));
        assert(whole.last() == (0x30 + n % 10) as u8);
        assert(num_run(st, dec_digits(n / 10)) == 3);
        assert(num_run(st, whole) == num_step(3, (0x30 + n % 10) as u8));
    }
}

/// The canonical integer literal is a valid number literal of integer shape,
/// and it denotes the integer it was made from.
pub proof fn int_lexeme_valid(i: int)
    ensures
        is_int_syntax(int_lexeme(i)),
        num_lexeme_int(int_lexeme(i)) == i,
        int_lexeme(i).len() >= 1,
        i >= 0 ==> is_digit(int_lexeme(i)[0]),
        i < 0 ==> int_lexeme(i)[0] == 0x2D,
{
    crate::lex::num_run_is_state(int_lexeme(i));
    if i < 0 {
        let m = (-i) as nat;
        dec_digits_shape(m);
        dec_digits_value(m);
        let lex = seq![0x2Du8] + dec_digits(m);
        assert(lex[0] == 0x2D);
        crate::lex::num_run_concat(0, seq![0x2Du8], dec_digits(m));
        assert(num_run(0, seq![0x2Du8]) == 1) by {
            assert(seq![0x2Du8].drop_last() =~= Seq::<u8>::empty());
            assert(num_run(0, Seq::<u8>::empty()) == 0);
            assert(seq![0x2Du8].last() == 0x2Du8);
        }
        num_run_dec_digits(1, m);
        assert(num_body(lex) =~= dec_digits(m));
    } else {
        dec_digits_shape(i as nat);
        dec_digits_value(i as nat);
        num_run_dec_digits(0, i as nat);
        assert(int_lexeme(i)[0] != 0x2D);
        assert(num_body(int_lexeme(i)) =~= dec_digits(i as nat));
    }
}


pub proof fn digits_value_nonneg(s: Seq<u8>)
    requires
        digits_only(s),
    ensures
        digits_value(s) >= 0,
    decreases s.len(),
{
    if s.len() > 0 {
        assert(digits_only(s.drop_last())) by {
            assert(forall|j: int| 0 <= j < s.len() - 1 ==> s.drop_last()[j] == #[trigger] s[j]);
        }
        digits_value_nonneg(s.drop_last());
        assert(is_digit(s.last()));
    }
}

// ---------------------------------------------------------------------------
// String escaping.
// ---------------------------------------------------------------------------

pub open spec fn hex_digit(n: int) -> u8 {
    if n < 10 {
        (0x30 + n) as u8
    } else {
        (0x57 + n) as u8
    }
}

/// The wire bytes of one content byte inside a string literal.
pub open spec fn esc1(b: u8) -> Seq<u8> {
    if b == 0x22 {
        seq![0x5Cu8, 0x22u8]
    } else if b == 0x5C {
        seq![0x5Cu8, 0x5Cu8]
    } else if b == 0x08 {
        seq![0x5Cu8, 0x62u8]
    } else if b == 0x09 {
        seq![0x5Cu8, 0x74u8]
    } else if b == 0x0A {
        seq![0x5Cu8, 0x6Eu8]
    } else if b == 0x0C {
        seq![0x5Cu8, 0x66u8]
    } else if b == 0x0D {
        seq![0x5Cu8, 0x72u8]
    } else if b < 0x20 {
        seq![0x5Cu8, 0x75u8, 0x30u8, 0x30u8, hex_digit(b as int / 16), hex_digit(b as int % 16)]
    } else {
        seq![b]
    }
}

/// The wire bytes of a whole string content.
pub open spec fn esc(s: Seq<u8>) -> Seq<u8>
    decreases s.len(),
{
    if s.len() == 0 {
        Seq::empty()
    } else {
        esc1(s[0]) + esc(s.skip(1))
    }
}

pub proof fn esc_concat(a: Seq<u8>, b: Seq<u8>)
    ensures
        esc(a + b) == esc(a) + esc(b),
    decreases a.len(),
{
    if a.len() == 0 {
        assert(a + b =~= b);
        assert(esc(a) + esc(b) =~= esc(b));
    } else {
        assert((a + b).skip(1) =~= a.skip(1) + b);
        esc_concat(a.skip(1), b);
        assert(esc1((a + b)[0]) + (esc(a.skip(1)) + esc(b)) =~= (esc1(a[0]) + esc(a.skip(1)))
            + esc(b));
    }
}

pub proof fn esc_snoc(s: Seq<u8>, b: u8)
    ensures
        esc(s.push(b)) == esc(s) + esc1(b),
{
    assert(s.push(b) =~= s + seq![b]);
    esc_concat(s, seq![b]);
    assert(seq![b].skip(1) =~= Seq::<u8>::empty());
    assert(seq![b][0] == b);
    assert(esc(Seq::<u8>::empty()) =~= Seq::<u8>::empty());
    assert(esc(seq![b]) == esc1(b) + esc(Seq::<u8>::empty()));
    assert(esc1(b) + Seq::<u8>::empty() =~= esc1(b));
}

/// A string literal of the wire format.
pub open spec fn str_lexeme(s: Seq<u8>) -> Seq<u8> {
    seq![0x22u8] + esc(s) + seq![0x22u8]
}

// ---------------------------------------------------------------------------
// Whole values.
// ---------------------------------------------------------------------------

/// The canonical wire text of a value.
pub open spec fn enc(v: Jv) -> Seq<u8>
    decreases v,
{
    match v {
        Jv::Null => seq![0x6Eu8, 0x75u8, 0x6Cu8, 0x6Cu8],
        Jv::Bool(b) => if b {
            seq![0x74u8, 0x72u8, 0x75u8, 0x65u8]
        } else {
            seq![0x66u8, 0x61u8, 0x6Cu8, 0x73u8, 0x65u8]
        },
        Jv::Int(i) => int_lexeme(i),
        Jv::Num(s) => s,
        Jv::Str(s) => str_lexeme(s),
        Jv::Arr(es) => seq![0x5Bu8] + enc_elems(es) + seq![0x5Du8],
        Jv::Obj(ps) => seq![0x7Bu8] + enc_pairs(ps) + seq![0x7Du8],
    }
}

/// The comma-separated element list of an array.
pub open spec fn enc_elems(es: Seq<Jv>) -> Seq<u8>
    decreases es,
{
    if es.len() == 0 {
        Seq::empty()
    } else if es.len() == 1 {
        enc(es[0])
    } else {
        enc(es[0]) + seq![0x2Cu8] + enc_elems(es.skip(1))
    }
}

/// The comma-separated member list of an object.
pub open spec fn enc_pairs(ps: Seq<(Seq<u8>, Jv)>) -> Seq<u8>
    decreases ps,
{
    if ps.len() == 0 {
        Seq::empty()
    } else if ps.len() == 1 {
        str_lexeme(ps[0].0) + seq![0x3Au8] + enc(ps[0].1)
    } else {
        str_lexeme(ps[0].0) + seq![0x3Au8] + enc(ps[0].1) + seq![0x2Cu8] + enc_pairs(ps.skip(1))
    }
}

pub proof fn enc_elems_snoc(es: Seq<Jv>, x: Jv)
    ensures
        es.len() == 0 ==> enc_elems(es.push(x)) == enc(x),
        es.len() > 0 ==> enc_elems(es.push(x)) == enc_elems(es) + seq![0x2Cu8] + enc(x),
    decreases es.len(),
{
    if es.len() == 0 {
        assert(es.push(x)[0] == x);
        assert(enc_elems(es.push(x)) == enc(x));
    } else {
        assert(es.push(x).skip(1) =~= es.skip(1).push(x));
        enc_elems_snoc(es.skip(1), x);
        assert(es.push(x)[0] == es[0]);
        if es.len() == 1 {
            assert(enc_elems(es.push(x)) == enc(es[0]) + seq![0x2Cu8] + enc_elems(
                es.skip(1).push(x),
            ));
            assert(enc_elems(es.skip(1).push(x)) == enc(x));
            assert(enc_elems(es) == enc(es[0]));
        } else {
            assert(enc(es[0]) + seq![0x2Cu8] + (enc_elems(es.skip(1)) + seq![0x2Cu8] + enc(x))
                =~= (enc(es[0]) + seq![0x2Cu8] + enc_elems(es.skip(1))) + seq![0x2Cu8] + enc(x));
        }
    }
}

pub proof fn enc_pairs_snoc(ps: Seq<(Seq<u8>, Jv)>, x: (Seq<u8>, Jv))
    ensures
        ps.len() == 0 ==> enc_pairs(ps.push(x)) == str_lexeme(x.0) + seq![0x3Au8] + enc(x.1),
        ps.len() > 0 ==> enc_pairs(ps.push(x)) == enc_pairs(ps) + seq![0x2Cu8] + (str_lexeme(x.0)
            + seq![0x3Au8] + enc(x.1)),
    decreases ps.len(),
{
    if ps.len() == 0 {
        assert(ps.push(x)[0] == x);
    } else {
        assert(ps.push(x).skip(1) =~= ps.skip(1).push(x));
        enc_pairs_snoc(ps.skip(1), x);
        assert(ps.push(x)[0] == ps[0]);
        if ps.len() == 1 {
            assert(enc_pairs(ps.push(x)) == str_lexeme(ps[0].0) + seq![0x3Au8] + enc(ps[0].1)
                + seq![0x2Cu8] + enc_pairs(ps.skip(1).push(x)));
            assert(str_lexeme(ps[0].0) + seq![0x3Au8] + enc(ps[0].1) + seq![0x2Cu8] + (str_lexeme(
                x.0,
            ) + seq![0x3Au8] + enc(x.1)) =~= enc_pairs(ps) + seq![0x2Cu8] + (str_lexeme(x.0)
                + seq![0x3Au8] + enc(x.1)));
        } else {
            assert(str_lexeme(ps[0].0) + seq![0x3Au8] + enc(ps[0].1) + seq![0x2Cu8] + (enc_pairs(
                ps.skip(1),
            ) + seq![0x2Cu8] + (str_lexeme(x.0) + seq![0x3Au8] + enc(x.1))) =~= (str_lexeme(
                ps[0].0,
            ) + seq![0x3Au8] + enc(ps[0].1) + seq![0x2Cu8] + enc_pairs(ps.skip(1))) + seq![0x2Cu8]
                + (str_lexeme(x.0) + seq![0x3Au8] + enc(x.1)));
        }
    }
}

// ---------------------------------------------------------------------------
// The encoder.
// ---------------------------------------------------------------------------

fn write_u64_dec(n: u64, out: &mut Vec<u8>)
    ensures
        final(out)@ == old(out)@ + dec_digits(n as nat),
    decreases n,
{
    if n < 10 {
        out.push(0x30 + n as u8);
        assert(final(out)@ =~= old(out)@ + dec_digits(n as nat));
    } else {
        write_u64_dec(n / 10, out);
        out.push(0x30 + (n % 10) as u8);
        assert(final(out)@ =~= old(out)@ + (dec_digits(n as nat / 10) + seq![
            (0x30 + n as nat % 10) as u8,
        ]));
    }
}

fn write_i64_dec(i: i64, out: &mut Vec<u8>)
    ensures
        final(out)@ == old(out)@ + int_lexeme(i as int),
{
    if i < 0 {
        out.push(0x2D);
        let m: u64 = if i == i64::MIN {
            9223372036854775808u64
        } else {
            (-i) as u64
        };
        assert(m as nat == (-(i as int)) as nat);
        write_u64_dec(m, out);
        assert(final(out)@ =~= old(out)@ + (seq![0x2Du8] + dec_digits((-(i as int)) as nat)));
    } else {
        write_u64_dec(i as u64, out);
    }
}

fn write_escaped_byte(b: u8, out: &mut Vec<u8>)
    ensures
        final(out)@ == old(out)@ + esc1(b),
{
    if b == 0x22 {
        out.push(0x5C);
        out.push(0x22);
    } else if b == 0x5C {
        out.push(0x5C);
        out.push(0x5C);
    } else if b == 0x08 {
        out.push(0x5C);
        out.push(0x62);
    } else if b == 0x09 {
        out.push(0x5C);
        out.push(0x74);
    } else if b == 0x0A {
        out.push(0x5C);
        out.push(0x6E);
    } else if b == 0x0C {
        out.push(0x5C);
        out.push(0x66);
    } else if b == 0x0D {
        out.push(0x5C);
        out.push(0x72);
    } else if b < 0x20 {
        out.push(0x5C);
        out.push(0x75);
        out.push(0x30);
        out.push(0x30);
        let hi = b / 16;
        let lo = b % 16;
        out.push(if hi < 10 { 0x30 + hi } else { 0x57 + hi });
        out.push(if lo < 10 { 0x30 + lo } else { 0x57 + lo });
    } else {
        out.push(b);
    }
    assert(final(out)@ =~= old(out)@ + esc1(b));
}

fn write_string(s: &Vec<u8>, out: &mut Vec<u8>)
    ensures
        final(out)@ == old(out)@ + str_lexeme(s@),
{
    out.push(0x22);
    let n = s.len();
    let mut k: usize = 0;
    while k < n
        invariant
            n == s@.len(),
            k <= n,
            out@ == old(out)@ + seq![0x22u8] + esc(s@.take(k as int)),
        decreases n - k,
    {
        write_escaped_byte(s[k], out);
        proof {
            assert(s@.take(k as int).push(s@[k as int]) =~= s@.take(k + 1));
            esc_snoc(s@.take(k as int), s@[k as int]);
        }
        k = k + 1;
    }
    out.push(0x22);
    proof {
        assert(s@.take(n as int) =~= s@);
        assert(old(out)@ + seq![0x22u8] + esc(s@) + seq![0x22u8] =~= old(out)@ + str_lexeme(s@));
    }
}

fn write_value(v: &Json, out: &mut Vec<u8>)
    ensures
        final(out)@ == old(out)@ + enc(v@),
    decreases v,
{
    match v {
        Json::Null => {
            out.push(0x6E);
            out.push(0x75);
            out.push(0x6C);
            out.push(0x6C);
            assert(final(out)@ =~= old(out)@ + enc(v@));
        },
        Json::Bool(b) => {
            if *b {
                out.push(0x74);
                out.push(0x72);
                out.push(0x75);
                out.push(0x65);
            } else {
                out.push(0x66);
                out.push(0x61);
                out.push(0x6C);
                out.push(0x73);
                out.push(0x65);
            }
            assert(final(out)@ =~= old(out)@ + enc(v@));
        },
        Json::Int(i) => {
            write_i64_dec(*i, out);
        },
        Json::Num(s) => {
            let n = s.len();
            let mut k: usize = 0;
            while k < n
                invariant
                    n == s@.len(),
                    k <= n,
                    out@ == old(out)@ + s@.take(k as int),
                decreases n - k,
            {
                out.push(s[k]);
                proof {
                    assert(old(out)@ + s@.take(k as int) + seq![s@[k as int]] =~= old(out)@
                        + s@.take(k + 1));
                }
                k = k + 1;
            }
            proof {
                assert(s@.take(n as int) =~= s@);
            }
        },
        Json::Str(s) => {
            write_string(s, out);
        },
        Json::Arr(es) => {
            let ghost ves = crate::value::views_of_elems(es@);
            proof {
                crate::value::views_of_elems_props(es@);
            }
            out.push(0x5B);
            let n = es.len();
            let mut k: usize = 0;
            while k < n
                invariant
                    n == es@.len(),
                    k <= n,
                    ves == crate::value::views_of_elems(es@),
                    ves.len() == n,
                    v is Arr && v->Arr_0 == *es,
                    forall|i: int| 0 <= i < n ==> ves[i] == #[trigger] es@[i]@,
                    v@ == Jv::Arr(ves),
                    out@ == old(out)@ + seq![0x5Bu8] + enc_elems(ves.take(k as int)),
                decreases n - k,
            {
                if k > 0 {
                    out.push(0x2C);
                }
                proof {
                    assert(decreases_to!(*v => v->Arr_0));
                    assert(decreases_to!(*es => es@));
                    assert(decreases_to!(es@ => es@[k as int]));
                }
                write_value(&es[k], out);
                proof {
                    assert(ves.take(k as int).push(es@[k as int]@) =~= ves.take(k + 1));
                    enc_elems_snoc(ves.take(k as int), es@[k as int]@);
                    assert(out@ =~= old(out)@ + seq![0x5Bu8] + enc_elems(ves.take(k + 1)));
                }
                k = k + 1;
            }
            out.push(0x5D);
            proof {
                assert(ves.take(n as int) =~= ves);
                assert(old(out)@ + seq![0x5Bu8] + enc_elems(ves) + seq![0x5Du8] =~= old(out)@
                    + enc(v@));
            }
        },
        Json::Obj(ps) => {
            let ghost vps = crate::value::views_of_pairs(ps@);
            proof {
                crate::value::views_of_pairs_props(ps@);
            }
            out.push(0x7B);
            let n = ps.len();
            let mut k: usize = 0;
            while k < n
                invariant
                    n == ps@.len(),
                    k <= n,
                    vps == crate::value::views_of_pairs(ps@),
                    vps.len() == n,
                    v is Obj && v->Obj_0 == *ps,
                    forall|i: int| 0 <= i < n ==> vps[i] == (#[trigger] ps@[i].0@, ps@[i].1@),
                    v@ == Jv::Obj(vps),
                    out@ == old(out)@ + seq![0x7Bu8] + enc_pairs(vps.take(k as int)),
                decreases n - k,
            {
                if k > 0 {
                    out.push(0x2C);
                }
                write_string(&ps[k].0, out);
                out.push(0x3A);
                proof {
                    assert(decreases_to!(*v => v->Obj_0));
                    assert(decreases_to!(*ps => ps@));
                    assert(decreases_to!(ps@ => ps@[k as int]));
                    assert(decreases_to!(ps@[k as int] => ps@[k as int].1));
                }
                write_value(&ps[k].1, out);
                proof {
                    assert(vps.take(k as int).push((ps@[k as int].0@, ps@[k as int].1@)) =~= vps.take(
                        k + 1,
                    ));
                    enc_pairs_snoc(vps.take(k as int), (ps@[k as int].0@, ps@[k as int].1@));
                    assert(out@ =~= old(out)@ + seq![0x7Bu8] + enc_pairs(vps.take(k + 1)));
                }
                k = k + 1;
            }
            out.push(0x7D);
            proof {
                assert(vps.take(n as int) =~= vps);
                assert(old(out)@ + seq![0x7Bu8] + enc_pairs(vps) + seq![0x7Du8] =~= old(out)@
                    + enc(v@));
            }
        },
    }
}

/// Serialize a value to its canonical wire bytes.
pub fn encode_value(v: &Json) -> (out: Vec<u8>)
    ensures
        out@ == enc(v@),
{
    let mut out: Vec<u8> = Vec::new();
    write_value(v, &mut out);
    out
}

// ---------------------------------------------------------------------------
// Facts the decoder needs about the canonical text.
// ---------------------------------------------------------------------------

/// The first byte of a value's wire text names its kind.
pub proof fn enc_first(v: Jv)
    requires
        crate::value::wf(v),
    ensures
        enc(v).len() >= 1,
        v is Null ==> enc(v)[0] == 0x6E,
        v is Bool && v->Bool_0 ==> enc(v)[0] == 0x74,
        v is Bool && !v->Bool_0 ==> enc(v)[0] == 0x66,
        v is Int ==> enc(v)[0] == 0x2D || is_digit(enc(v)[0]),
        v is Num ==> enc(v)[0] == 0x2D || is_digit(enc(v)[0]),
        v is Str ==> enc(v)[0] == 0x22,
        v is Arr ==> enc(v)[0] == 0x5B,
        v is Obj ==> enc(v)[0] == 0x7B,
        !crate::lex::is_ws(enc(v)[0]),
        !crate::lex::is_delim(enc(v)[0]),
        enc(v)[0] != 0x3A,
{
    match v {
        Jv::Int(i) => {
            int_lexeme_valid(i);
        },
        Jv::Num(s) => {
            crate::lex::num_lexeme_first(s);
        },
        Jv::Str(s) => {
            assert(enc(v)[0] == (seq![0x22u8] + esc(s) + seq![0x22u8])[0]);
        },
        Jv::Arr(es) => {
            assert(enc(v)[0] == (seq![0x5Bu8] + enc_elems(es) + seq![0x5Du8])[0]);
        },
        Jv::Obj(ps) => {
            assert(enc(v)[0] == (seq![0x7Bu8] + enc_pairs(ps) + seq![0x7Du8])[0]);
        },
        _ => {},
    }
}


/// A non-empty element list opens with its first value's text.
pub proof fn enc_elems_first(es: Seq<Jv>)
    requires
        es.len() >= 1,
        crate::value::wf(es[0]),
    ensures
        enc_elems(es).len() >= 1,
        enc_elems(es)[0] == enc(es[0])[0],
{
    enc_first(es[0]);
    if es.len() >= 2 {
        assert(enc_elems(es)[0] == (enc(es[0]) + seq![0x2Cu8] + enc_elems(es.skip(1)))[0]);
    }
}

/// A non-empty member list opens with a quote.
pub proof fn enc_pairs_first(ps: Seq<(Seq<u8>, Jv)>)
    requires
        ps.len() >= 1,
    ensures
        enc_pairs(ps).len() >= 1,
        enc_pairs(ps)[0] == 0x22,
{
    if ps.len() == 1 {
        assert(enc_pairs(ps)[0] == (str_lexeme(ps[0].0) + seq![0x3Au8] + enc(ps[0].1))[0]);
        assert((seq![0x22u8] + esc(ps[0].0) + seq![0x22u8])[0] == 0x22);
    } else {
        assert(enc_pairs(ps)[0] == (str_lexeme(ps[0].0) + seq![0x3Au8] + enc(ps[0].1)
            + seq![0x2Cu8] + enc_pairs(ps.skip(1)))[0]);
        assert((seq![0x22u8] + esc(ps[0].0) + seq![0x22u8])[0] == 0x22);
    }
}

/// Splitting the escaped text of a string at one content byte.
pub proof fn esc_split(c: Seq<u8>, k: int)
    requires
        0 <= k < c.len(),
    ensures
        esc(c) == esc(c.take(k)) + esc1(c[k]) + esc(c.skip(k + 1)),
{
    assert(c =~= c.take(k) + c.skip(k));
    esc_concat(c.take(k), c.skip(k));
    assert(esc(c.skip(k)) == esc1(c.skip(k)[0]) + esc(c.skip(k).skip(1)));
    assert(c.skip(k)[0] == c[k]);
    assert(c.skip(k).skip(1) =~= c.skip(k + 1));
    assert(esc(c.take(k)) + (esc1(c[k]) + esc(c.skip(k + 1))) =~= esc(c.take(k)) + esc1(c[k])
        + esc(c.skip(k + 1)));
}


} // verus!
// appended lemmas
