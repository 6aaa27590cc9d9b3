//! Lexical ground layer of the wire format: byte classes, a small
//! state machine defining the JSON number-literal grammar, and helpers
//! for reasoning about byte sequences matched at a position.

use vstd::prelude::*;

verus! {

pub open spec fn is_digit(b: u8) -> bool {
    0x30 <= b <= 0x39
}

/// The insignificant whitespace bytes of the wire format.
pub open spec fn is_ws(b: u8) -> bool {
    b == 0x20 || b == 0x09 || b == 0x0A || b == 0x0D
}

/// Bytes that may occur inside a number literal.
pub open spec fn is_num_char(b: u8) -> bool {
    is_digit(b) || b == 0x2D || b == 0x2B || b == 0x2E || b == 0x65 || b == 0x45
}

/// Bytes that may legitimately follow a value inside a larger document:
/// the separators and closers. A number literal never contains one, which
/// is what makes number lexing deterministic.
pub open spec fn is_delim(b: u8) -> bool {
    b == 0x2C || b == 0x5D || b == 0x7D
}

/// `t` stands in `s` at position `i`.
pub open spec fn at(s: Seq<u8>, i: int, t: Seq<u8>) -> bool {
    0 <= i && i + t.len() <= s.len() && s.subrange(i, i + t.len()) == t
}

pub proof fn at_concat(s: Seq<u8>, i: int, a: Seq<u8>, b: Seq<u8>)
    ensures
        at(s, i, a + b) <==> (at(s, i, a) && at(s, i + a.len(), b)),
{
    if at(s, i, a + b) {
        assert(s.subrange(i, i + a.len()) =~= a) by {
            assert forall|j: int| 0 <= j < a.len() implies s.subrange(i, i + a.len())[j] == a[j] by {
                assert(s.subrange(i, i + (a + b).len())[j] == (a + b)[j]);
            }
        }
        assert(s.subrange(i + a.len(), i + a.len() + b.len()) =~= b) by {
            assert forall|j: int| 0 <= j < b.len() implies s.subrange(
                i + a.len(),
                i + a.len() + b.len(),
            )[j] == b[j] by {
                assert(s.subrange(i, i + (a + b).len())[a.len() + j] == (a + b)[a.len() + j]);
            }
        }
    }
    if at(s, i, a) && at(s, i + a.len(), b) {
        assert(s.subrange(i, i + (a + b).len()) =~= a + b) by {
            assert forall|j: int| 0 <= j < (a + b).len() implies s.subrange(
                i,
                i + (a + b).len(),
            )[j] == (a + b)[j] by {
                if j < a.len() {
                    assert(s.subrange(i, i + a.len())[j] == a[j]);
                } else {
                    assert(s.subrange(i + a.len(), i + a.len() + b.len())[j - a.len()] == b[j
                        - a.len()]);
                }
            }
        }
    }
}

pub proof fn at_byte(s: Seq<u8>, i: int, x: u8)
    ensures
        at(s, i, seq![x]) <==> (0 <= i < s.len() && s[i] == x),
{
    if at(s, i, seq![x]) {
        assert(s.subrange(i, i + 1)[0] == x);
    }
    if 0 <= i < s.len() && s[i] == x {
        assert(s.subrange(i, i + 1) =~= seq![x]);
    }
}

/// Every byte of a matched sequence stands in `s` where the match says.
pub proof fn at_index(s: Seq<u8>, i: int, t: Seq<u8>, j: int)
    requires
        at(s, i, t),
        0 <= j < t.len(),
    ensures
        s[i + j] == t[j],
{
    assert(s.subrange(i, i + t.len())[j] == t[j]);
}

// ---------------------------------------------------------------------------
// The number-literal grammar, as a byte-at-a-time state machine:
//   number = '-'? ( '0' | [1-9][0-9]* ) ( '.' [0-9]+ )? ( [eE] [+-]? [0-9]+ )?
// States: 0 start, 1 after '-', 2 integer part is exactly "0", 3 inside a
// non-zero integer part, 4 after '.', 5 inside fraction digits, 6 after the
// exponent mark, 7 after an exponent sign, 8 inside exponent digits, 9 dead.
// ---------------------------------------------------------------------------

pub open spec fn num_step(st: int, b: u8) -> int {
    if st == 0 {
        if b == 0x2D {
            1
        } else if b == 0x30 {
            2
        } else if is_digit(b) {
            3
        } else {
            9
        }
    } else if st == 1 {
        if b == 0x30 {
            2
        } else if is_digit(b) {
            3
        } else {
            9
        }
    } else if st == 2 {
        if b == 0x2E {
            4
        } else if b == 0x65 || b == 0x45 {
            6
        } else {
            9
        }
    } else if st == 3 {
        if is_digit(b) {
            3
        } else if b == 0x2E {
            4
        } else if b == 0x65 || b == 0x45 {
            6
        } else {
            9
        }
    } else if st == 4 {
        if is_digit(b) {
            5
        } else {
            9
        }
    } else if st == 5 {
        if is_digit(b) {
            5
        } else if b == 0x65 || b == 0x45 {
            6
        } else {
            9
        }
    } else if st == 6 {
        if b == 0x2B || b == 0x2D {
            7
        } else if is_digit(b) {
            8
        } else {
            9
        }
    } else if st == 7 || st == 8 {
        if is_digit(b) {
            8
        } else {
            9
        }
    } else {
        9
    }
}

/// The state the machine reaches after reading all of `s`.
pub open spec fn num_state(s: Seq<u8>) -> int
    decreases s.len(),
{
    if s.len() == 0 {
        0
    } else {
        num_step(num_state(s.drop_last()), s.last())
    }
}

/// The state reached from `st` after reading all of `s`.
pub open spec fn num_run(st: int, s: Seq<u8>) -> int
    decreases s.len(),
{
    if s.len() == 0 {
        st
    } else {
        num_step(num_run(st, s.drop_last()), s.last())
    }
}

pub proof fn num_run_is_state(s: Seq<u8>)
    ensures
        num_state(s) == num_run(0, s),
    decreases s.len(),
{
    if s.len() > 0 {
        num_run_is_state(s.drop_last());
    }
}

pub proof fn num_run_singleton(st: int, b: u8)
    ensures
        num_run(st, seq![b]) == num_step(st, b),
{
    assert(seq![b].drop_last() =~= Seq::<u8>::empty());
    assert(seq![b].last() == b);
    assert(num_run(st, Seq::<u8>::empty()) == st);
}

pub proof fn num_run_concat(st: int, a: Seq<u8>, b: Seq<u8>)
    ensures
        num_run(st, a + b) == num_run(num_run(st, a), b),
    decreases b.len(),
{
    if b.len() == 0 {
        assert(a + b =~= a);
    } else {
        assert((a + b).drop_last() =~= a + b.drop_last());
        num_run_concat(st, a, b.drop_last());
    }
}

pub open spec fn num_accepting(st: int) -> bool {
    st == 2 || st == 3 || st == 5 || st == 8
}

/// `s` is a complete JSON number literal.
pub open spec fn is_num_lexeme(s: Seq<u8>) -> bool {
    num_accepting(num_state(s))
}

/// The machine never leaves the dead state.
pub proof fn num_state_dead(s: Seq<u8>, k: int)
    requires
        0 <= k <= s.len(),
        num_state(s.take(k)) == 9,
    ensures
        num_state(s) == 9,
    decreases s.len() - k,
{
    if k < s.len() {
        assert(s.take(k + 1).drop_last() =~= s.take(k));
        assert(s.take(k + 1).last() == s[k]);
        num_state_dead(s, k + 1);
    } else {
        assert(s.take(k) =~= s);
    }
}

/// A byte that takes any live state to the dead state.
pub open spec fn kills_all(b: u8) -> bool {
    forall|st: int| 0 <= st <= 8 ==> num_step(st, b) == 9
}

pub proof fn non_num_char_kills(b: u8)
    requires
        !is_num_char(b),
    ensures
        kills_all(b),
{
}

/// Number state is never negative or past the dead state.
pub proof fn num_state_range(s: Seq<u8>)
    ensures
        0 <= num_state(s) <= 9,
    decreases s.len(),
{
    if s.len() > 0 {
        num_state_range(s.drop_last());
    }
}

/// A valid number literal starts with a sign or a digit, and a sign is
/// never the whole literal.
pub proof fn num_lexeme_first(s: Seq<u8>)
    requires
        is_num_lexeme(s),
    ensures
        s.len() >= 1,
        s[0] == 0x2D || is_digit(s[0]),
        s[0] == 0x2D ==> s.len() >= 2,
{
    if s.len() >= 1 {
        assert(s.take(1).drop_last() =~= Seq::<u8>::empty());
        assert(s.take(1).last() == s[0]);
        assert(num_state(Seq::<u8>::empty()) == 0);
        assert(num_state(s.take(1)) == num_step(0, s[0]));
        if !(s[0] == 0x2D || is_digit(s[0])) {
            num_state_dead(s, 1);
        }
        if s[0] == 0x2D && s.len() == 1 {
            assert(s.take(1) =~= s);
        }
    }
}

/// A valid number literal consists of number bytes only.
pub proof fn num_lexeme_chars(s: Seq<u8>, j: int)
    requires
        is_num_lexeme(s),
        0 <= j < s.len(),
    ensures
        is_num_char(s[j]),
{
    if !is_num_char(s[j]) {
        non_num_char_kills(s[j]);
        assert(s.take(j + 1).drop_last() =~= s.take(j));
        assert(s.take(j + 1).last() == s[j]);
        num_state_range(s.take(j));
        num_state_dead(s, j + 1);
    }
}

} // verus!
