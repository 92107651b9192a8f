//! Numeric input: a number spelled digit by digit in English words.

use vstd::prelude::*;
use vstd::string::{StrSliceExecFns, StringExecFns};
use crate::err::{plain, ErrCode, Error, ErrorV, Res};

verus! {

/// The characters that separate words: those with the Unicode property
/// White_Space.
pub open spec fn is_space(c: char) -> bool {
    let u = c as u32;
    ||| 0x09 <= u <= 0x0d
    ||| u == 0x20
    ||| u == 0x85
    ||| u == 0xa0
    ||| u == 0x1680
    ||| 0x2000 <= u <= 0x200a
    ||| u == 0x2028
    ||| u == 0x2029
    ||| u == 0x202f
    ||| u == 0x205f
    ||| u == 0x3000
}

/// The length of the word that `s` starts with: the characters up to the
/// first separator.
pub open spec fn word_len(s: Seq<char>) -> nat
    decreases s.len(),
{
    if s.len() == 0 || is_space(s[0]) {
        0
    } else {
        1 + word_len(s.drop_first())
    }
}

/// The words of a text: its maximal runs of characters that are no
/// separators, in order.
pub open spec fn words(s: Seq<char>) -> Seq<Seq<char>>
    decreases s.len(),
{
    if s.len() == 0 {
        Seq::empty()
    } else if is_space(s[0]) {
        words(s.drop_first())
    } else {
        let n = word_len(s) as int;
        if 0 < n <= s.len() {
            seq![s.take(n)] + words(s.skip(n))
        } else {
            Seq::empty()
        }
    }
}

/// The digit that a word names.
pub open spec fn digit_of(w: Seq<char>) -> Option<u8> {
    if w == "ZERO"@ || w == "OH"@ {
        Some(0u8)
    } else if w == "ONE"@ {
        Some(1u8)
    } else if w == "TWO"@ {
        Some(2u8)
    } else if w == "THREE"@ {
        Some(3u8)
    } else if w == "FOUR"@ {
        Some(4u8)
    } else if w == "FIVE"@ {
        Some(5u8)
    } else if w == "SIX"@ {
        Some(6u8)
    } else if w == "SEVEN"@ {
        Some(7u8)
    } else if w == "EIGHT"@ {
        Some(8u8)
    } else if w == "NINE"@ || w == "NINER"@ {
        Some(9u8)
    } else {
        None
    }
}

/// The number that the first `n` words spell, the first digit weighing
/// most, or the first of them that names no digit.
pub open spec fn spell(ws: Seq<Seq<char>>, n: nat) -> Result<nat, Seq<char>>
    decreases n,
{
    if n == 0 {
        Ok(0)
    } else {
        match spell(ws, (n - 1) as nat) {
            Err(w) => Err(w),
            Ok(v) => match digit_of(ws[n - 1]) {
                None => Err(ws[n - 1]),
                Some(d) => Ok(v * 10 + d as nat),
            },
        }
    }
}

/// What a text of digit words stands for: the number, an error that names
/// the first word that is no digit, or an overflow of 32 bits.
pub open spec fn english_spec(s: Seq<char>) -> Result<u32, ErrorV> {
    match spell(words(s), words(s).len()) {
        Err(w) => Err(ErrorV { code: ErrCode::IE579, line: None, text: Some(w) }),
        Ok(v) => if v > u32::MAX {
            Err(plain(ErrCode::IE533))
        } else {
            Ok(v as u32)
        },
    }
}

/// The first `n` words spell the same whatever follows them.
pub proof fn lemma_spell_prefix(ws: Seq<Seq<char>>, more: Seq<Seq<char>>, n: nat)
    requires
        n <= ws.len(),
    ensures
        spell(ws + more, n) == spell(ws, n),
    decreases n,
{
    if n > 0 {
        lemma_spell_prefix(ws, more, (n - 1) as nat);
        assert((ws + more)[n - 1] == ws[n - 1]);
    }
}

/// Once a word is no digit, no later word changes the outcome.
pub proof fn lemma_spell_error_sticks(ws: Seq<Seq<char>>, n: nat, m: nat)
    requires
        n <= m,
        spell(ws, n) is Err,
    ensures
        spell(ws, m) == spell(ws, n),
    decreases m,
{
    if m > n {
        lemma_spell_error_sticks(ws, n, (m - 1) as nat);
    }
}

/// A text that starts with a separator has the words of what follows it.
pub proof fn lemma_words_skip_space(s: Seq<char>, i: int)
    requires
        0 <= i < s.len(),
        is_space(s[i]),
    ensures
        words(s.skip(i)) == words(s.skip(i + 1)),
{
    assert(s.skip(i).drop_first() =~= s.skip(i + 1));
}

/// The word that starts at `i` and runs up to `j`.
pub proof fn lemma_word_len(s: Seq<char>, i: int, j: int)
    requires
        0 <= i <= j <= s.len(),
        forall|k: int| i <= k < j ==> !is_space(#[trigger] s[k]),
        j == s.len() || is_space(s[j]),
    ensures
        word_len(s.skip(i)) == j - i,
    decreases j - i,
{
    if i < j {
        assert(s.skip(i)[0] == s[i]);
        assert(s.skip(i).drop_first() =~= s.skip(i + 1));
        lemma_word_len(s, i + 1, j);
    } else if j < s.len() {
        assert(s.skip(i)[0] == s[j]);
    }
}

/// A text that starts with a word has that word and then the words of
/// what follows it.
pub proof fn lemma_words_take_word(s: Seq<char>, i: int, j: int)
    requires
        0 <= i < j <= s.len(),
        forall|k: int| i <= k < j ==> !is_space(#[trigger] s[k]),
        j == s.len() || is_space(s[j]),
    ensures
        words(s.skip(i)) == seq![s.subrange(i, j)] + words(s.skip(j)),
{
    lemma_word_len(s, i, j);
    assert(s.skip(i)[0] == s[i]);
    assert(s.skip(i).take(j - i) =~= s.subrange(i, j));
    assert(s.skip(i).skip(j - i) =~= s.skip(j));
}

fn space(c: char) -> (r: bool)
    ensures
        r == is_space(c),
{
    let u: u32 = c as u32;
    (0x09 <= u && u <= 0x0d) || u == 0x20 || u == 0x85 || u == 0xa0 || u == 0x1680 || (0x2000
        <= u && u <= 0x200a) || u == 0x2028 || u == 0x2029 || u == 0x202f || u == 0x205f || u
        == 0x3000
}

fn is_word(w: &String, lit: &str) -> (r: bool)
    ensures
        r == (w@ == lit@),
{
    let l = String::from_str(lit);
    *w == l
}

fn digit(w: &String) -> (r: Option<u8>)
    ensures
        r == digit_of(w@),
{
    if is_word(w, "ZERO") || is_word(w, "OH") {
        Some(0)
    } else if is_word(w, "ONE") {
        Some(1)
    } else if is_word(w, "TWO") {
        Some(2)
    } else if is_word(w, "THREE") {
        Some(3)
    } else if is_word(w, "FOUR") {
        Some(4)
    } else if is_word(w, "FIVE") {
        Some(5)
    } else if is_word(w, "SIX") {
        Some(6)
    } else if is_word(w, "SEVEN") {
        Some(7)
    } else if is_word(w, "EIGHT") {
        Some(8)
    } else if is_word(w, "NINE") || is_word(w, "NINER") {
        Some(9)
    } else {
        None
    }
}

/// Reads a number spelled as digit words: `ZERO` or `OH`, `ONE` to `NINE`,
/// and `NINER`. A text without any word stands for zero.
pub fn from_english(v: &str) -> (r: Res<u32>)
    ensures
        match r {
            Ok(x) => english_spec(v@) == Ok::<u32, ErrorV>(x),
            Err(e) => english_spec(v@) == Err::<u32, ErrorV>(e@),
        },
{
    let len = v.unicode_len();
    let mut i: usize = 0;
    let mut acc: u64 = 0;
    let mut over = false;
    let ghost mut seen: Seq<Seq<char>> = Seq::empty();
    let ghost mut value: nat = 0;
    assert(v@.skip(0) =~= v@);
    while i < len
        invariant
            i <= len,
            len == v@.len(),
            words(v@) == seen + words(v@.skip(i as int)),
            spell(seen, seen.len()) == Ok::<nat, Seq<char>>(value),
            !over ==> acc == value && acc <= u32::MAX,
            over ==> value > u32::MAX,
        decreases len - i,
    {
        let c = v.get_char(i);
        if space(c) {
            proof {
                lemma_words_skip_space(v@, i as int);
            }
            i += 1;
        } else {
            let mut j: usize = i + 1;
            while j < len && !space(v.get_char(j))
                invariant
                    i < j <= len,
                    len == v@.len(),
                    forall|k: int| i <= k < j ==> !is_space(#[trigger] v@[k]),
                decreases len - j,
            {
                j += 1;
            }
            let word = String::from_str(v.substring_char(i, j));
            proof {
                lemma_words_take_word(v@, i as int, j as int);
                let w = v@.subrange(i as int, j as int);
                assert(seen + (seq![w] + words(v@.skip(j as int))) =~= seen.push(w) + words(
                    v@.skip(j as int),
                ));
                lemma_spell_prefix(seen, seq![w], seen.len());
                assert(seen + seq![w] =~= seen.push(w));
            }
            match digit(&word) {
                None => {
                    proof {
                        let w = v@.subrange(i as int, j as int);
                        let all = words(v@);
                        let first = seen.push(w);
                        assert(spell(first, first.len()) == Err::<nat, Seq<char>>(w));
                        lemma_spell_prefix(first, words(v@.skip(j as int)), first.len());
                        lemma_spell_error_sticks(all, first.len(), all.len());
                    }
                    let e = Error { code: ErrCode::IE579, line: None, text: Some(word) };
                    return Err(e);
                },
                Some(d) => {
                    proof {
                        let w = v@.subrange(i as int, j as int);
                        seen = seen.push(w);
                        value = value * 10 + d as nat;
                    }
                    if !over {
                        acc = acc * 10 + d as u64;
                        if acc > 0xffff_ffff {
                            over = true;
                        }
                    }
                },
            }
            i = j;
        }
    }
    proof {
        assert(v@.skip(len as int) =~= Seq::<char>::empty());
        assert(words(v@) =~= seen);
    }
    if over {
        Err(Error::new(ErrCode::IE533))
    } else {
        Ok(acc as u32)
    }
}

} // verus!
