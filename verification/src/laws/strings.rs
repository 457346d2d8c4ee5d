//! What holds of texts and numerals.

use vstd::prelude::*;

use crate::text;

verus! {

/// What a digit counts, up to the hexadecimal ones; -1 for any other character.
pub open spec fn digit_value(c: char) -> int {
    if '0' <= c <= '9' {
        c as int - '0' as int
    } else if 'a' <= c <= 'f' {
        c as int - 'a' as int + 10
    } else {
        -1
    }
}

/// The number that a numeral stands for, its first digit counting most.
pub open spec fn numeral_value(s: Seq<char>, radix: int) -> int
    decreases s.len(),
{
    if s.len() == 0 {
        0
    } else {
        numeral_value(s.drop_last(), radix) * radix + digit_value(s.last())
    }
}

/// Every character is a digit below the radix.
pub open spec fn is_numeral(s: Seq<char>, radix: int) -> bool {
    s.len() > 0 && forall|i: int|
        0 <= i < s.len() ==> 0 <= #[trigger] digit_value(s[i]) < radix
}

/// The decimal numeral of a number stands for that number and has no needless
/// zero in front.
pub proof fn law_decimal_numerals(n: nat)
    ensures
        is_numeral(text::decimal_digits(n), 10),
        numeral_value(text::decimal_digits(n), 10) == n,
        text::decimal_digits(n)[0] == '0' ==> text::decimal_digits(n).len() == 1,
        n > 0 ==> text::decimal_digits(n)[0] != '0',
    decreases n,
{
    let s = text::decimal_digits(n);
    if n < 10 {
        assert(s =~= seq![s[0]]);
        assert(s.drop_last() =~= Seq::empty());
        assert(numeral_value(s.drop_last(), 10) == 0);
    } else {
        law_decimal_numerals(n / 10);
        let head = text::decimal_digits(n / 10);
        assert(s.drop_last() =~= head);
        assert forall|i: int| 0 <= i < s.len() implies 0 <= #[trigger] digit_value(s[i]) < 10 by {
            if i < head.len() {
                assert(s[i] == head[i]);
                assert(0 <= digit_value(head[i]) < 10);
            }
        }
        assert(s[0] == head[0]);
    }
}

/// Different numbers have different decimal numerals.
pub proof fn law_decimal_numerals_differ(m: nat, n: nat)
    requires
        text::decimal_digits(m) == text::decimal_digits(n),
    ensures
        m == n,
{
    law_decimal_numerals(m);
    law_decimal_numerals(n);
}

/// A signed number is a sign, if it is below zero, and the numeral of its size.
pub proof fn law_signed_numerals(n: int)
    ensures
        n >= 0 ==> text::signed_digits(n) == text::decimal_digits(n as nat),
        n < 0 ==> text::signed_digits(n) == seq!['-'] + text::decimal_digits((-n) as nat),
{
}

/// The octal numeral of a number stands for that number.
pub proof fn law_octal_numerals(n: nat)
    ensures
        is_numeral(text::octal_digits(n), 8),
        numeral_value(text::octal_digits(n), 8) == n,
        n > 0 ==> text::octal_digits(n)[0] != '0',
    decreases n,
{
    let s = text::octal_digits(n);
    if n < 8 {
        assert(s =~= seq![s[0]]);
        assert(s.drop_last() =~= Seq::empty());
        assert(numeral_value(s.drop_last(), 8) == 0);
    } else {
        law_octal_numerals(n / 8);
        let head = text::octal_digits(n / 8);
        assert(s.drop_last() =~= head);
        assert forall|i: int| 0 <= i < s.len() implies 0 <= #[trigger] digit_value(s[i]) < 8 by {
            if i < head.len() {
                assert(s[i] == head[i]);
                assert(0 <= digit_value(head[i]) < 8);
            }
        }
        assert(s[0] == head[0]);
    }
}

/// Each byte stands in hexadecimal at its own two places, the higher digit first.
pub proof fn law_hexadecimal_bytes(bytes: Seq<u8>, i: int)
    requires
        0 <= i < bytes.len(),
    ensures
        text::hex_digits(bytes).len() == 2 * bytes.len(),
        0 <= digit_value(text::hex_digits(bytes)[2 * i]) < 16,
        0 <= digit_value(text::hex_digits(bytes)[2 * i + 1]) < 16,
        digit_value(text::hex_digits(bytes)[2 * i]) * 16 + digit_value(
            text::hex_digits(bytes)[2 * i + 1],
        ) == bytes[i],
    decreases bytes.len(),
{
    text::lemma_hex_length(bytes);
    text::lemma_hex_length(bytes.drop_last());
    if i < bytes.len() - 1 {
        law_hexadecimal_bytes(bytes.drop_last(), i);
    }
}

/// Where two texts first differ decides their order; a text comes before what
/// goes on from it.
pub proof fn law_order_of_texts(a: Seq<char>, b: Seq<char>, k: int)
    requires
        0 <= k <= a.len(),
        k <= b.len(),
        a.take(k) == b.take(k),
        k < a.len() && k < b.len() ==> a[k] != b[k],
    ensures
        k < a.len() && k < b.len() ==> (text::lex_lt(a, b) <==> a[k] < b[k]),
        k == a.len() ==> (text::lex_lt(a, b) <==> a.len() < b.len()),
        k == b.len() ==> !text::lex_lt(a, b),
    decreases k,
{
    if k > 0 {
        assert(a.take(k)[0] == a[0] && b.take(k)[0] == b[0]);
        assert(a.drop_first().take(k - 1) =~= a.take(k).drop_first());
        assert(b.drop_first().take(k - 1) =~= b.take(k).drop_first());
        law_order_of_texts(a.drop_first(), b.drop_first(), k - 1);
    }
}

/// All blank.
pub open spec fn all_space(s: Seq<char>) -> bool {
    forall|i: int| 0 <= i < s.len() ==> text::is_space(#[trigger] s[i])
}

/// The whitespace characters.
pub proof fn law_whitespace(c: char)
    ensures
        text::is_space(c) <==> {
            ||| c == ' ' || c == '\t' || c == '\n' || c == '\r' || c == '\u{b}' || c == '\u{c}'
            ||| c == '\u{85}' || c == '\u{a0}' || c == '\u{1680}'
            ||| '\u{2000}' <= c <= '\u{200a}'
            ||| c == '\u{2028}' || c == '\u{2029}' || c == '\u{202f}' || c == '\u{205f}'
            ||| c == '\u{3000}'
        },
{
}

/// Trimming takes the blanks off both ends and nothing else.
pub proof fn law_trimming(s: Seq<char>) -> (cut: (Seq<char>, Seq<char>))
    ensures
        s == cut.0 + text::trimmed(s) + cut.1,
        all_space(cut.0),
        all_space(cut.1),
        text::trimmed(s).len() > 0 ==> !text::is_space(text::trimmed(s)[0]) && !text::is_space(
            text::trimmed(s).last(),
        ),
{
    let front = lemma_trimmed_start(s);
    let mid = text::trimmed_start(s);
    let back = lemma_trimmed_end(mid);
    assert(s =~= front + text::trimmed(s) + back);
    if text::trimmed(s).len() > 0 {
        assert(mid[0] == text::trimmed(s)[0]);
    }
    (front, back)
}

proof fn lemma_trimmed_start(s: Seq<char>) -> (front: Seq<char>)
    ensures
        s == front + text::trimmed_start(s),
        all_space(front),
        text::trimmed_start(s).len() > 0 ==> !text::is_space(text::trimmed_start(s)[0]),
    decreases s.len(),
{
    if s.len() > 0 && text::is_space(s[0]) {
        let rest = lemma_trimmed_start(s.drop_first());
        let front = seq![s[0]] + rest;
        assert(s =~= seq![s[0]] + s.drop_first());
        assert(s =~= front + text::trimmed_start(s));
        front
    } else {
        assert(s =~= Seq::<char>::empty() + text::trimmed_start(s));
        Seq::empty()
    }
}

proof fn lemma_trimmed_end(s: Seq<char>) -> (back: Seq<char>)
    ensures
        s == text::trimmed_end(s) + back,
        all_space(back),
        text::trimmed_end(s).len() > 0 ==> !text::is_space(text::trimmed_end(s).last()),
    decreases s.len(),
{
    if s.len() > 0 && text::is_space(s.last()) {
        let rest = lemma_trimmed_end(s.drop_last());
        let back = rest.push(s.last());
        assert(s =~= s.drop_last().push(s.last()));
        assert(s =~= text::trimmed_end(s) + back);
        back
    } else {
        assert(s =~= text::trimmed_end(s) + Seq::<char>::empty());
        Seq::empty()
    }
}

/// A text is blank exactly when it is nothing but whitespace.
pub proof fn law_blank_texts(s: Seq<char>)
    ensures
        text::is_blank(s) <==> all_space(s),
    decreases s.len(),
{
}

/// The pieces of a cut do not hold the character, and put together with it
/// between them they are the text.
pub proof fn law_cutting(s: Seq<char>, at: char)
    ensures
        text::cut(s, at).len() > 0,
        forall|i: int|
            0 <= i < text::cut(s, at).len() ==> !(#[trigger] text::cut(s, at)[i]).contains(at),
        text::joined(text::cut(s, at), seq![at]) == s,
    decreases s.len(),
{
    let all = text::cut(s, at);
    let sep = seq![at];
    if s.len() == 0 {
        assert(text::joined(all, sep) =~= s);
    } else {
        law_cutting(s.drop_last(), at);
        let before = text::cut(s.drop_last(), at);
        assert(s =~= s.drop_last().push(s.last()));
        if s.last() == at {
            assert(all.drop_last() =~= before);
            assert(text::joined(all, sep) =~= s);
            assert forall|i: int| 0 <= i < all.len() implies !(#[trigger] all[i]).contains(
                at,
            ) by {
                if i < before.len() {
                    assert(all[i] == before[i]);
                }
            }
        } else {
            let last = before.last();
            let grown = last.push(s.last());
            assert(all =~= before.drop_last().push(grown));
            assert forall|i: int| 0 <= i < all.len() implies !(#[trigger] all[i]).contains(
                at,
            ) by {
                if i < before.len() - 1 {
                    assert(all[i] == before[i]);
                } else {
                    assert(!before[before.len() - 1].contains(at));
                    if grown.contains(at) {
                        let k = grown.index_of(at);
                        assert(last[k] == at);
                    }
                }
            }
            assert(all.drop_last() =~= before.drop_last());
            assert(text::joined(all, sep) =~= text::joined(before, sep).push(s.last()));
        }
    }
}

/// Entries are joined in order, the separator between neighbours only.
pub proof fn law_joining(s: Seq<Seq<char>>, x: Seq<char>, sep: Seq<char>)
    ensures
        text::joined(Seq::empty(), sep) == Seq::<char>::empty(),
        text::joined(seq![x], sep) == x,
        s.len() > 0 ==> text::joined(s.push(x), sep) == text::joined(s, sep) + sep + x,
{
    assert(s.push(x).drop_last() =~= s);
}

/// The last entry that is not blank: none after it is anything but blank.
pub proof fn law_last_text(s: Seq<Seq<char>>) -> (i: int)
    ensures
        match text::last_text(s) {
            Some(x) => {
                &&& 0 <= i < s.len()
                &&& s[i] == x
                &&& !all_space(x)
                &&& forall|j: int| i < j < s.len() ==> all_space(#[trigger] s[j])
            },
            None => forall|j: int| 0 <= j < s.len() ==> all_space(#[trigger] s[j]),
        },
    decreases s.len(),
{
    if s.len() == 0 {
        0
    } else {
        law_blank_texts(s.last());
        let i = law_last_text(s.drop_last());
        let before = s.drop_last();
        if text::is_blank(s.last()) {
            assert forall|j: int|
                0 <= j < s.len() && (text::last_text(s) is None || i < j) implies all_space(
                #[trigger] s[j],
            ) by {
                if j < before.len() {
                    assert(s[j] == before[j]);
                }
            }
            i
        } else {
            s.len() - 1
        }
    }
}

/// A padded text is the text and blanks up to the width.
pub proof fn law_padding(s: Seq<char>, width: nat)
    ensures
        s.is_prefix_of(text::padded(s, width)),
        s.len() >= width ==> text::padded(s, width) == s,
        s.len() < width ==> text::padded(s, width).len() == width,
        forall|i: int|
            s.len() <= i < text::padded(s, width).len() ==> #[trigger] text::padded(
                s,
                width,
            )[i] == ' ',
{
}

/// What comes after a prefix is what, put behind it, gives the text.
pub proof fn law_prefixes(s: Seq<char>, prefix: Seq<char>, rest: Seq<char>)
    ensures
        text::after_prefix(s, prefix) == Some(rest) <==> s == prefix + rest,
{
    if text::after_prefix(s, prefix) == Some(rest) {
        assert(s =~= prefix + rest);
    }
    if s == prefix + rest {
        assert(s.take(prefix.len() as int) =~= prefix);
        assert(s.skip(prefix.len() as int) =~= rest);
    }
}

/// A port is read out of a decimal numeral, with or without a plus in front, and
/// only out of one that a port can hold.
pub proof fn law_ports_in_texts(s: Seq<char>)
    ensures
        ({
            let digits = if s.len() > 1 && s[0] == '+' {
                s.drop_first()
            } else {
                s
            };
            match text::u16_value(s) {
                Some(n) => is_numeral(digits, 10) && numeral_value(digits, 10) == n,
                None => !is_numeral(digits, 10) || numeral_value(digits, 10) > 65535,
            }
        }),
{
    let digits = text::unsigned_part(s);
    lemma_digits_value(digits);
    if s.len() == 1 && s[0] == '+' {
        assert(digit_value(s[0]) == -1);
    }
}

proof fn lemma_digits_value(s: Seq<char>)
    ensures
        text::all_digits(s) <==> forall|i: int|
            0 <= i < s.len() ==> 0 <= #[trigger] digit_value(s[i]) < 10,
        text::all_digits(s) ==> text::digits_value(s) == numeral_value(s, 10) && numeral_value(
            s,
            10,
        ) >= 0,
    decreases s.len(),
{
    if forall|i: int| 0 <= i < s.len() ==> 0 <= #[trigger] digit_value(s[i]) < 10 {
        assert forall|i: int| 0 <= i < s.len() implies '0' <= #[trigger] s[i] <= '9' by {
            assert(0 <= digit_value(s[i]) < 10);
        }
    }
    if s.len() > 0 {
        lemma_digits_value(s.drop_last());
    }
}

} // verus!
