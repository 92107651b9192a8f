//! Numeric output: a number as Roman numerals on two lines, the overbars
//! above the letters they belong to.

use vstd::prelude::*;
use vstd::string::StringExecFns;
use vstd::utf8::{encode_utf8, is_ascii_chars, is_ascii_chars_encode_utf8};

verus! {

/// The letter and, above it, the bar of each symbol: `idx` 0 and 1 are the
/// unit of the decimal place, 2 its five and 3 the unit of the next place.
/// From the thousands on a unit is written in two ways, with the letter of
/// the place and with a barred or lower-case letter.
pub open spec fn symbol(place: nat, idx: nat) -> (char, char) {
    if place == 0 {
        if idx <= 1 {
            (' ', 'I')
        } else if idx == 2 {
            (' ', 'V')
        } else {
            (' ', 'X')
        }
    } else if place == 1 {
        if idx <= 1 {
            (' ', 'X')
        } else if idx == 2 {
            (' ', 'L')
        } else {
            (' ', 'C')
        }
    } else if place == 2 {
        if idx <= 1 {
            (' ', 'C')
        } else if idx == 2 {
            (' ', 'D')
        } else {
            (' ', 'M')
        }
    } else if place == 3 {
        if idx == 0 {
            (' ', 'M')
        } else if idx == 1 {
            ('_', 'I')
        } else if idx == 2 {
            ('_', 'V')
        } else {
            ('_', 'X')
        }
    } else if place == 4 {
        if idx <= 1 {
            ('_', 'X')
        } else if idx == 2 {
            ('_', 'L')
        } else {
            ('_', 'C')
        }
    } else if place == 5 {
        if idx <= 1 {
            ('_', 'C')
        } else if idx == 2 {
            ('_', 'D')
        } else {
            ('_', 'M')
        }
    } else if place == 6 {
        if idx == 0 {
            ('_', 'M')
        } else if idx == 1 {
            (' ', 'i')
        } else if idx == 2 {
            (' ', 'v')
        } else {
            (' ', 'x')
        }
    } else if place == 7 {
        if idx <= 1 {
            (' ', 'x')
        } else if idx == 2 {
            (' ', 'l')
        } else {
            (' ', 'c')
        }
    } else if place == 8 {
        if idx <= 1 {
            (' ', 'c')
        } else if idx == 2 {
            (' ', 'd')
        } else {
            (' ', 'm')
        }
    } else {
        if idx == 0 {
            (' ', 'm')
        } else if idx == 1 {
            ('_', 'i')
        } else if idx == 2 {
            ('_', 'v')
        } else {
            ('_', 'x')
        }
    }
}

/// The symbols that write a decimal digit, in reading order.
pub open spec fn digit_symbols(d: nat) -> Seq<nat> {
    if d == 1 {
        seq![0nat]
    } else if d == 2 {
        seq![0nat, 0nat]
    } else if d == 3 {
        seq![0nat, 0nat, 0nat]
    } else if d == 4 {
        seq![1nat, 2nat]
    } else if d == 5 {
        seq![2nat]
    } else if d == 6 {
        seq![2nat, 1nat]
    } else if d == 7 {
        seq![2nat, 1nat, 1nat]
    } else if d == 8 {
        seq![2nat, 1nat, 1nat, 1nat]
    } else if d == 9 {
        seq![1nat, 3nat]
    } else {
        seq![]
    }
}

/// The bars of one digit at one decimal place.
pub open spec fn digit_bars(d: nat, place: nat) -> Seq<char> {
    Seq::new(digit_symbols(d).len(), |i: int| symbol(place, digit_symbols(d)[i]).0)
}

/// The letters of one digit at one decimal place.
pub open spec fn digit_letters(d: nat, place: nat) -> Seq<char> {
    Seq::new(digit_symbols(d).len(), |i: int| symbol(place, digit_symbols(d)[i]).1)
}

/// The line of bars of `val`, whose last digit stands at `place`.
pub open spec fn bars(val: nat, place: nat) -> Seq<char>
    decreases val,
{
    if val == 0 {
        Seq::empty()
    } else {
        bars(val / 10, place + 1) + digit_bars(val % 10, place)
    }
}

/// The line of letters of `val`, whose last digit stands at `place`.
pub open spec fn letters(val: nat, place: nat) -> Seq<char>
    decreases val,
{
    if val == 0 {
        Seq::empty()
    } else {
        letters(val / 10, place + 1) + digit_letters(val % 10, place)
    }
}

/// The Roman text of `val`: the bars, a newline, the letters, a newline.
/// Zero is a lone bar over nothing.
pub open spec fn roman_spec(val: u32) -> Seq<char> {
    if val == 0 {
        seq!['_', '\n', '\n']
    } else {
        bars(val as nat, 0) + seq!['\n'] + letters(val as nat, 0) + seq!['\n']
    }
}

fn push_char(s: &mut String, c: char)
    requires
        c == ' ' || c == '_' || c == 'I' || c == 'V' || c == 'X' || c == 'L' || c == 'C' || c
            == 'D' || c == 'M' || c == 'i' || c == 'v' || c == 'x' || c == 'l' || c == 'c' || c
            == 'd' || c == 'm',
    ensures
        final(s)@ == old(s)@.push(c),
{
    proof {
        reveal_strlit(" ");
        reveal_strlit("_");
        reveal_strlit("I");
        reveal_strlit("V");
        reveal_strlit("X");
        reveal_strlit("L");
        reveal_strlit("C");
        reveal_strlit("D");
        reveal_strlit("M");
        reveal_strlit("i");
        reveal_strlit("v");
        reveal_strlit("x");
        reveal_strlit("l");
        reveal_strlit("c");
        reveal_strlit("d");
        reveal_strlit("m");
    }
    let lit: &str = if c == ' ' {
        " "
    } else if c == '_' {
        "_"
    } else if c == 'I' {
        "I"
    } else if c == 'V' {
        "V"
    } else if c == 'X' {
        "X"
    } else if c == 'L' {
        "L"
    } else if c == 'C' {
        "C"
    } else if c == 'D' {
        "D"
    } else if c == 'M' {
        "M"
    } else if c == 'i' {
        "i"
    } else if c == 'v' {
        "v"
    } else if c == 'x' {
        "x"
    } else if c == 'l' {
        "l"
    } else if c == 'c' {
        "c"
    } else if c == 'd' {
        "d"
    } else {
        "m"
    };
    assert(lit@ =~= seq![c]);
    s.append(lit);
    assert(s@ =~= old(s)@.push(c));
}

fn symbol_at(place: u32, idx: u32) -> (r: (char, char))
    requires
        idx <= 3,
    ensures
        r == symbol(place as nat, idx as nat),
{
    if place == 0 {
        if idx <= 1 {
            (' ', 'I')
        } else if idx == 2 {
            (' ', 'V')
        } else {
            (' ', 'X')
        }
    } else if place == 1 {
        if idx <= 1 {
            (' ', 'X')
        } else if idx == 2 {
            (' ', 'L')
        } else {
            (' ', 'C')
        }
    } else if place == 2 {
        if idx <= 1 {
            (' ', 'C')
        } else if idx == 2 {
            (' ', 'D')
        } else {
            (' ', 'M')
        }
    } else if place == 3 {
        if idx == 0 {
            (' ', 'M')
        } else if idx == 1 {
            ('_', 'I')
        } else if idx == 2 {
            ('_', 'V')
        } else {
            ('_', 'X')
        }
    } else if place == 4 {
        if idx <= 1 {
            ('_', 'X')
        } else if idx == 2 {
            ('_', 'L')
        } else {
            ('_', 'C')
        }
    } else if place == 5 {
        if idx <= 1 {
            ('_', 'C')
        } else if idx == 2 {
            ('_', 'D')
        } else {
            ('_', 'M')
        }
    } else if place == 6 {
        if idx == 0 {
            ('_', 'M')
        } else if idx == 1 {
            (' ', 'i')
        } else if idx == 2 {
            (' ', 'v')
        } else {
            (' ', 'x')
        }
    } else if place == 7 {
        if idx <= 1 {
            (' ', 'x')
        } else if idx == 2 {
            (' ', 'l')
        } else {
            (' ', 'c')
        }
    } else if place == 8 {
        if idx <= 1 {
            (' ', 'c')
        } else if idx == 2 {
            (' ', 'd')
        } else {
            (' ', 'm')
        }
    } else {
        if idx == 0 {
            (' ', 'm')
        } else if idx == 1 {
            ('_', 'i')
        } else if idx == 2 {
            ('_', 'v')
        } else {
            ('_', 'x')
        }
    }
}

fn symbols_of(d: u32) -> (r: Vec<u32>)
    ensures
        r@.len() == digit_symbols(d as nat).len(),
        forall|i: int| 0 <= i < r@.len() ==> r@[i] == digit_symbols(d as nat)[i] && r@[i] <= 3,
{
    if d == 1 {
        vec![0u32]
    } else if d == 2 {
        vec![0u32, 0u32]
    } else if d == 3 {
        vec![0u32, 0u32, 0u32]
    } else if d == 4 {
        vec![1u32, 2u32]
    } else if d == 5 {
        vec![2u32]
    } else if d == 6 {
        vec![2u32, 1u32]
    } else if d == 7 {
        vec![2u32, 1u32, 1u32]
    } else if d == 8 {
        vec![2u32, 1u32, 1u32, 1u32]
    } else if d == 9 {
        vec![1u32, 3u32]
    } else {
        Vec::new()
    }
}

/// The largest number whose last digit can stand at `place` when the whole
/// number fits in 32 bits.
pub open spec fn place_limit(place: nat) -> nat
    decreases place,
{
    if place == 0 {
        0xffff_ffff
    } else {
        place_limit((place - 1) as nat) / 10
    }
}

fn write_digits(val: u32, place: u32, l1: &mut String, l2: &mut String)
    requires
        place <= 10,
        val <= place_limit(place as nat),
    ensures
        final(l1)@ == old(l1)@ + bars(val as nat, place as nat),
        final(l2)@ == old(l2)@ + letters(val as nat, place as nat),
    decreases val,
{
    if val == 0 {
        assert(l1@ =~= old(l1)@ + bars(0, place as nat));
        assert(l2@ =~= old(l2)@ + letters(0, place as nat));
        return ;
    }
    assert(place < 10) by {
        reveal_with_fuel(place_limit, 11);
    }
    write_digits(val / 10, place + 1, l1, l2);
    let d: u32 = val % 10;
    let syms = symbols_of(d);
    let ghost mid1 = l1@;
    let ghost mid2 = l2@;
    let mut j: usize = 0;
    while j < syms.len()
        invariant
            j <= syms.len(),
            syms@.len() == digit_symbols(d as nat).len(),
            forall|i: int|
                0 <= i < syms@.len() ==> syms@[i] == digit_symbols(d as nat)[i] && syms@[i] <= 3,
            l1@ == mid1 + digit_bars(d as nat, place as nat).take(j as int),
            l2@ == mid2 + digit_letters(d as nat, place as nat).take(j as int),
        decreases syms.len() - j,
    {
        let (bar, letter) = symbol_at(place, syms[j]);
        push_char(l1, bar);
        push_char(l2, letter);
        proof {
            let b = digit_bars(d as nat, place as nat);
            let l = digit_letters(d as nat, place as nat);
            assert(b.take(j + 1) =~= b.take(j as int).push(bar));
            assert(l.take(j + 1) =~= l.take(j as int).push(letter));
            assert(l1@ =~= mid1 + b.take(j + 1));
            assert(l2@ =~= mid2 + l.take(j + 1));
        }
        j += 1;
    }
    proof {
        let b = digit_bars(d as nat, place as nat);
        let l = digit_letters(d as nat, place as nat);
        assert(b.take(syms.len() as int) =~= b);
        assert(l.take(syms.len() as int) =~= l);
        assert(l1@ =~= old(l1)@ + bars(val as nat, place as nat));
        assert(l2@ =~= old(l2)@ + letters(val as nat, place as nat));
    }
}

/// The Roman text of `val`.
pub fn to_roman(val: u32) -> (r: String)
    ensures
        r@ == roman_spec(val),
{
    proof {
        reveal_strlit("_\n\n");
        reveal_strlit("\n");
    }
    if val == 0 {
        let r = String::from_str("_\n\n");
        assert(r@ =~= roman_spec(val));
        return r;
    }
    let mut l1 = String::new();
    let mut l2 = String::new();
    write_digits(val, 0, &mut l1, &mut l2);
    l1.append("\n");
    l1.append(l2.as_str());
    l1.append("\n");
    assert("\n"@ =~= seq!['\n']);
    assert(l1@ =~= roman_spec(val));
    l1
}

proof fn lemma_lines_ascii(val: nat, place: nat)
    ensures
        is_ascii_chars(bars(val, place)),
        is_ascii_chars(letters(val, place)),
    decreases val,
{
    if val > 0 {
        lemma_lines_ascii(val / 10, place + 1);
        let b = bars(val, place);
        let l = letters(val, place);
        let hb = bars(val / 10, place + 1);
        let hl = letters(val / 10, place + 1);
        assert forall|i: int| 0 <= i < b.len() implies '\0' <= #[trigger] b[i] <= '\u{7f}' by {
            if i < hb.len() {
                assert(b[i] == hb[i]);
            } else {
                assert(b[i] == digit_bars(val % 10, place)[i - hb.len()]);
            }
        }
        assert forall|i: int| 0 <= i < l.len() implies '\0' <= #[trigger] l[i] <= '\u{7f}' by {
            if i < hl.len() {
                assert(l[i] == hl[i]);
            } else {
                assert(l[i] == digit_letters(val % 10, place)[i - hl.len()]);
            }
        }
    }
}

/// Roman text is plain: each of its characters is one byte of its
/// encoding.
pub proof fn lemma_roman_plain(val: u32)
    ensures
        is_ascii_chars(roman_spec(val)),
        encode_utf8(roman_spec(val)).len() == roman_spec(val).len(),
        forall|i: int|
            0 <= i < roman_spec(val).len() ==> #[trigger] encode_utf8(roman_spec(val))[i]
                == roman_spec(val)[i] as u8,
{
    lemma_lines_ascii(val as nat, 0);
    let r = roman_spec(val);
    assert forall|i: int| 0 <= i < r.len() implies '\0' <= #[trigger] r[i] <= '\u{7f}' by {
        if val != 0 {
            let b = bars(val as nat, 0);
            let l = letters(val as nat, 0);
            if i < b.len() {
                assert(r[i] == b[i]);
            } else if i == b.len() {
                assert(r[i] == '\n');
            } else if i < b.len() + 1 + l.len() {
                assert(r[i] == l[i - b.len() - 1]);
            } else {
                assert(r[i] == '\n');
            }
        }
    }
    is_ascii_chars_encode_utf8(r);
}

} // verus!
