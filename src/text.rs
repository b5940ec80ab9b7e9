//! Decimal digits of numbers, and searching text for a character.

use vstd::prelude::*;
use vstd::string::*;

verus! {

/// The character of the decimal digit `d`.
pub open spec fn digit_char(d: nat) -> char {
    if d == 0 {
        '0'
    } else if d == 1 {
        '1'
    } else if d == 2 {
        '2'
    } else if d == 3 {
        '3'
    } else if d == 4 {
        '4'
    } else if d == 5 {
        '5'
    } else if d == 6 {
        '6'
    } else if d == 7 {
        '7'
    } else if d == 8 {
        '8'
    } else {
        '9'
    }
}

/// The decimal digits of `n`, without leading zeros.
pub open spec fn digits_text(n: nat) -> Seq<char>
    decreases n,
{
    if n < 10 {
        seq![digit_char(n)]
    } else {
        digits_text(n / 10).push(digit_char(n % 10))
    }
}

/// The last `width` decimal digits of `n`, with leading zeros.
pub open spec fn padded_text(n: nat, width: nat) -> Seq<char>
    decreases width,
{
    if width == 0 {
        seq![]
    } else {
        padded_text(n / 10, (width - 1) as nat).push(digit_char(n % 10))
    }
}

fn digit_str(d: u128) -> (r: &'static str)
    requires
        d < 10,
    ensures
        r@ == seq![digit_char(d as nat)],
{
    proof {
        reveal_strlit("0");
        reveal_strlit("1");
        reveal_strlit("2");
        reveal_strlit("3");
        reveal_strlit("4");
        reveal_strlit("5");
        reveal_strlit("6");
        reveal_strlit("7");
        reveal_strlit("8");
        reveal_strlit("9");
    }
    if d == 0 {
        "0"
    } else if d == 1 {
        "1"
    } else if d == 2 {
        "2"
    } else if d == 3 {
        "3"
    } else if d == 4 {
        "4"
    } else if d == 5 {
        "5"
    } else if d == 6 {
        "6"
    } else if d == 7 {
        "7"
    } else if d == 8 {
        "8"
    } else {
        "9"
    }
}

/// Appends the decimal digits of `n`.
pub fn push_digits(out: &mut String, n: u128)
    ensures
        final(out)@ == old(out)@ + digits_text(n as nat),
    decreases n,
{
    if n >= 10 {
        push_digits(out, n / 10);
    }
    out.append(digit_str(n % 10));
    assert(final(out)@ =~= old(out)@ + digits_text(n as nat));
}

/// Appends the last `width` decimal digits of `n`, with leading zeros.
pub fn push_padded(out: &mut String, n: u128, width: u8)
    ensures
        final(out)@ == old(out)@ + padded_text(n as nat, width as nat),
    decreases width,
{
    if width == 0 {
        assert(final(out)@ =~= old(out)@ + padded_text(n as nat, width as nat));
        return;
    }
    push_padded(out, n / 10, width - 1);
    out.append(digit_str(n % 10));
    assert(final(out)@ =~= old(out)@ + padded_text(n as nat, width as nat));
}

/// The decimal digits of `n`.
pub fn integer_text(n: u128) -> (r: String)
    ensures
        r@ == digits_text(n as nat),
{
    let mut out = String::new();
    push_digits(&mut out, n);
    assert(out@ =~= digits_text(n as nat));
    out
}

/// The index of the first `c` in `cs`, or the length of `cs` if there is none.
pub open spec fn first_index(cs: Seq<char>, c: char) -> nat
    decreases cs.len(),
{
    if cs.len() == 0 {
        0
    } else if cs[0] == c {
        0
    } else {
        1 + first_index(cs.drop_first(), c)
    }
}

/// An index before which `c` does not occur, and at which it does (or
/// the end), is the first index of `c`.
pub proof fn lemma_first_index(cs: Seq<char>, c: char, i: int)
    requires
        0 <= i <= cs.len(),
        forall|j: int| 0 <= j < i ==> cs[j] != c,
        i == cs.len() || cs[i] == c,
    ensures
        first_index(cs, c) == i,
    decreases i,
{
    if i > 0 {
        let rest = cs.drop_first();
        assert forall|j: int| 0 <= j < i - 1 implies rest[j] != c by {
            assert(rest[j] == cs[j + 1]);
        }
        lemma_first_index(rest, c, i - 1);
    }
}

/// The index of the first `c` in `s` between `from` and `to`, or `to`.
pub fn find_char(s: &str, from: usize, to: usize, c: char) -> (r: usize)
    requires
        from <= to <= s@.len(),
    ensures
        from <= r <= to,
        r - from == first_index(s@.subrange(from as int, to as int), c),
{
    let mut i = from;
    while i < to
        invariant
            from <= i <= to <= s@.len(),
            forall|j: int| from <= j < i ==> s@[j] != c,
        ensures
            from <= i <= to,
            forall|j: int| from <= j < i ==> s@[j] != c,
            i == to || s@[i as int] == c,
        decreases to - i,
    {
        if s.get_char(i) == c {
            break;
        }
        i = i + 1;
    }
    proof {
        let seg = s@.subrange(from as int, to as int);
        assert forall|j: int| 0 <= j < i - from implies seg[j] != c by {
            assert(seg[j] == s@[from + j]);
        }
        if i < to {
            assert(seg[i - from] == s@[i as int]);
        }
        lemma_first_index(seg, c, i - from);
    }
    i
}

} // verus!
