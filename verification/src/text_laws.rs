//! What holds of texts and of numbers written as texts.
use vstd::prelude::*;

use crate::text::{
    before_dot, clipped, decimal, digit, hexadecimal, is_space, lower, same_but_case, trimmed,
};

verus! {

/// Whether all of a text outside a range is white space.
pub open spec fn spaces_around(s: Seq<char>, i: int, j: int) -> bool {
    &&& 0 <= i <= j <= s.len()
    &&& forall|k: int| 0 <= k < i ==> is_space(#[trigger] s[k])
    &&& forall|k: int| j <= k < s.len() ==> is_space(#[trigger] s[k])
}

/// Trimming takes white space off both ends, all of it, and nothing else.
pub proof fn law_trimming_takes_white_space_off_both_ends(s: Seq<char>)
    ensures
        exists|i: int, j: int|
            #[trigger] spaces_around(s, i, j) && trimmed(s) == s.subrange(i, j),
        trimmed(s).len() > 0 ==> !is_space(trimmed(s).first()) && !is_space(trimmed(s).last()),
    decreases s.len(),
{
    if s.len() > 0 && is_space(s.first()) {
        let rest = s.drop_first();
        law_trimming_takes_white_space_off_both_ends(rest);
        let (i, j) = choose|i: int, j: int|
            #[trigger] spaces_around(rest, i, j) && trimmed(rest) == rest.subrange(i, j);
        lemma_spaces_in_front(s, i, j);
        assert(trimmed(s) == s.subrange(i + 1, j + 1));
    } else if s.len() > 0 && is_space(s.last()) {
        let rest = s.drop_last();
        law_trimming_takes_white_space_off_both_ends(rest);
        let (i, j) = choose|i: int, j: int|
            #[trigger] spaces_around(rest, i, j) && trimmed(rest) == rest.subrange(i, j);
        lemma_spaces_behind(s, i, j);
        assert(trimmed(s) == s.subrange(i, j));
    } else {
        assert(s.subrange(0, s.len() as int) =~= s);
        assert(spaces_around(s, 0, s.len() as int));
    }
}

proof fn lemma_spaces_in_front(s: Seq<char>, i: int, j: int)
    requires
        s.len() > 0,
        is_space(s.first()),
        spaces_around(s.drop_first(), i, j),
    ensures
        spaces_around(s, i + 1, j + 1),
        s.drop_first().subrange(i, j) == s.subrange(i + 1, j + 1),
{
    let rest = s.drop_first();
    assert(rest.subrange(i, j) =~= s.subrange(i + 1, j + 1));
    assert forall|k: int| 0 <= k < i + 1 implies is_space(#[trigger] s[k]) by {
        if k > 0 {
            assert(is_space(rest[k - 1]));
        }
    }
    assert forall|k: int| j + 1 <= k < s.len() implies is_space(#[trigger] s[k]) by {
        assert(is_space(rest[k - 1]));
    }
}

proof fn lemma_spaces_behind(s: Seq<char>, i: int, j: int)
    requires
        s.len() > 0,
        is_space(s.last()),
        spaces_around(s.drop_last(), i, j),
    ensures
        spaces_around(s, i, j),
        s.drop_last().subrange(i, j) == s.subrange(i, j),
{
    let rest = s.drop_last();
    assert(rest.subrange(i, j) =~= s.subrange(i, j));
    assert forall|k: int| 0 <= k < i implies is_space(#[trigger] s[k]) by {
        assert(is_space(rest[k]));
    }
    assert forall|k: int| j <= k < s.len() implies is_space(#[trigger] s[k]) by {
        if k < rest.len() {
            assert(is_space(rest[k]));
        }
    }
}

/// Of the characters of ASCII, the blank and the five controls from the tab on are white space.
pub proof fn law_white_space_of_ascii(c: char)
    requires
        c <= '\u{7f}',
    ensures
        is_space(c) <==> c == ' ' || '\u{9}' <= c <= '\u{d}',
{
}

/// Beyond ASCII, white space is the next line, the blank that does not break, and the blanks,
/// separators and spaces of their own.
pub proof fn law_white_space_beyond_ascii(c: char)
    requires
        c > '\u{7f}',
    ensures
        is_space(c) <==> seq![
            0x85u32,
            0xa0u32,
            0x1680u32,
            0x2000u32,
            0x2001u32,
            0x2002u32,
            0x2003u32,
            0x2004u32,
            0x2005u32,
            0x2006u32,
            0x2007u32,
            0x2008u32,
            0x2009u32,
            0x200au32,
            0x2028u32,
            0x2029u32,
            0x202fu32,
            0x205fu32,
            0x3000u32,
        ].contains(c as u32),
{
    let all = seq![
        0x85u32,
        0xa0u32,
        0x1680u32,
        0x2000u32,
        0x2001u32,
        0x2002u32,
        0x2003u32,
        0x2004u32,
        0x2005u32,
        0x2006u32,
        0x2007u32,
        0x2008u32,
        0x2009u32,
        0x200au32,
        0x2028u32,
        0x2029u32,
        0x202fu32,
        0x205fu32,
        0x3000u32,
    ];
    assert(all[0] == 0x85 && all[1] == 0xa0 && all[2] == 0x1680);
    assert(all[3] == 0x2000 && all[4] == 0x2001 && all[5] == 0x2002 && all[6] == 0x2003);
    assert(all[7] == 0x2004 && all[8] == 0x2005 && all[9] == 0x2006 && all[10] == 0x2007);
    assert(all[11] == 0x2008 && all[12] == 0x2009 && all[13] == 0x200a && all[14] == 0x2028);
    assert(all[15] == 0x2029 && all[16] == 0x202f && all[17] == 0x205f && all[18] == 0x3000);
    if is_space(c) && '\u{2000}' <= c <= '\u{200a}' {
        let k = c as u32 - 0x2000 + 3;
        assert(all[k] == c as u32);
    }
}

/// The first segment is the text up to the first dot, or the whole of it.
pub proof fn law_the_first_segment_ends_at_the_first_dot(s: Seq<char>)
    ensures
        before_dot(s).len() <= s.len(),
        before_dot(s) == s.take(before_dot(s).len() as int),
        forall|k: int| 0 <= k < before_dot(s).len() ==> #[trigger] s[k] != '.',
        before_dot(s).len() < s.len() ==> s[before_dot(s).len() as int] == '.',
    decreases s.len(),
{
    if s.len() > 0 && s.first() != '.' {
        let rest = s.drop_first();
        law_the_first_segment_ends_at_the_first_dot(rest);
        assert(before_dot(s) =~= s.take(before_dot(s).len() as int)) by {
            assert forall|k: int| 1 <= k < before_dot(s).len() implies before_dot(s)[k] == s[k] by {
                assert(before_dot(rest)[k - 1] == rest.take(before_dot(rest).len() as int)[k - 1]);
            }
        }
        assert forall|k: int| 0 <= k < before_dot(s).len() implies #[trigger] s[k] != '.' by {
            if k > 0 {
                assert(rest[k - 1] == s[k]);
            }
        }
    } else {
        assert(before_dot(s) =~= s.take(0));
    }
}

/// A text is clipped to the characters in front that it has room for, in full where they fit.
pub proof fn law_clipping_keeps_the_front(s: Seq<char>, most: nat)
    ensures
        clipped(s, most).len() == if s.len() < most {
            s.len()
        } else {
            most
        },
        forall|k: int| 0 <= k < clipped(s, most).len() ==> clipped(s, most)[k] == #[trigger] s[k],
{
}

/// Whether one is the capital of the other, in ASCII.
pub open spec fn is_capital_of(x: char, y: char) -> bool {
    'A' <= x <= 'Z' && y as u32 == x as u32 + 32
}

/// Case is disregarded for the letters of ASCII and for nothing else.
pub proof fn law_only_the_case_of_letters_is_disregarded(a: Seq<char>, b: Seq<char>)
    ensures
        same_but_case(a, b) <==> a.len() == b.len() && forall|i: int|
            0 <= i < a.len() ==> (#[trigger] a[i] == b[i] || is_capital_of(a[i], b[i])
                || is_capital_of(b[i], a[i])),
{
    assert forall|x: char, y: char| #![trigger lower(x), lower(y)]
        lower(x) == lower(y) <==> (x == y || is_capital_of(x, y) || is_capital_of(y, x)) by {
        lemma_lower(x);
        lemma_lower(y);
    }
    if same_but_case(a, b) {
        assert forall|i: int| 0 <= i < a.len() implies (#[trigger] a[i] == b[i] || is_capital_of(
            a[i],
            b[i],
        ) || is_capital_of(b[i], a[i])) by {
            assert(lower(a[i]) == lower(b[i]));
        }
    }
}

proof fn lemma_lower(c: char)
    ensures
        lower(c) as u32 == if 'A' <= c <= 'Z' {
            (c as u32 + 32) as u32
        } else {
            c as u32
        },
{
}

/// What a digit stands for.
pub open spec fn digit_value(c: char) -> int {
    if '0' <= c <= '9' {
        c as u32 - 48
    } else {
        c as u32 - 55
    }
}

/// What digits stand for in a base, the highest first.
pub open spec fn number_value(s: Seq<char>, base: int) -> int
    decreases s.len(),
{
    if s.len() == 0 {
        0
    } else {
        number_value(s.drop_last(), base) * base + digit_value(s.last())
    }
}

proof fn lemma_digit(d: nat)
    requires
        d < 16,
    ensures
        digit(d).len() == 1,
        d < 10 ==> '0' <= digit(d)[0] <= '9',
        d >= 10 ==> 'A' <= digit(d)[0] <= 'F',
        digit_value(digit(d)[0]) == d,
        d > 0 ==> digit(d)[0] != '0',
{
    reveal_strlit("0");
    reveal_strlit("1");
    reveal_strlit("2");
    reveal_strlit("3");
    reveal_strlit("4");
    reveal_strlit("5");
    reveal_strlit("6");
    reveal_strlit("7");
    reveal_strlit("8");
    reveal_strlit("9");
    reveal_strlit("A");
    reveal_strlit("B");
    reveal_strlit("C");
    reveal_strlit("D");
    reveal_strlit("E");
    reveal_strlit("F");
}

/// A number in decimal is the digits that stand for it, without a zero in front.
pub proof fn law_decimal_digits_stand_for_the_number(n: nat)
    ensures
        number_value(decimal(n), 10) == n,
        decimal(n).len() > 0,
        forall|i: int| 0 <= i < decimal(n).len() ==> '0' <= #[trigger] decimal(n)[i] <= '9',
        n > 0 ==> decimal(n)[0] != '0',
    decreases n,
{
    lemma_digit(n % 10);
    if n < 10 {
        assert(decimal(n).drop_last() =~= Seq::empty());
        assert(number_value(Seq::empty(), 10) == 0);
    } else {
        law_decimal_digits_stand_for_the_number(n / 10);
        let s = decimal(n);
        assert(s.drop_last() =~= decimal(n / 10));
        assert(s.last() == digit(n % 10)[0]);
        assert forall|i: int| 0 <= i < s.len() implies '0' <= #[trigger] s[i] <= '9' by {
            if i < s.len() - 1 {
                assert(s[i] == decimal(n / 10)[i]);
            }
        }
        assert(s[0] == decimal(n / 10)[0]);
    }
}

/// How many numbers a width has room for, in hexadecimal.
pub open spec fn hexadecimal_room(width: nat) -> nat
    decreases width,
{
    if width == 0 {
        1
    } else {
        16 * hexadecimal_room((width - 1) as nat)
    }
}

/// A number in hexadecimal is as many digits as asked for, in capitals, and stands for the number
/// where there is room for it.
pub proof fn law_hexadecimal_digits_stand_for_the_number(n: nat, width: nat)
    ensures
        hexadecimal(n, width).len() == width,
        forall|i: int|
            0 <= i < width ==> '0' <= #[trigger] hexadecimal(n, width)[i] <= '9' || 'A'
                <= hexadecimal(n, width)[i] <= 'F',
        n < hexadecimal_room(width) ==> number_value(hexadecimal(n, width), 16) == n,
    decreases width,
{
    if width > 0 {
        let less = (width - 1) as nat;
        law_hexadecimal_digits_stand_for_the_number(n / 16, less);
        lemma_digit(n % 16);
        let s = hexadecimal(n, width);
        assert(s.drop_last() =~= hexadecimal(n / 16, less));
        assert(s.last() == digit(n % 16)[0]);
        assert forall|i: int| 0 <= i < width implies '0' <= #[trigger] s[i] <= '9' || 'A' <= s[i]
            <= 'F' by {
            if i < less {
                assert(s[i] == hexadecimal(n / 16, less)[i]);
            }
        }
    }
}

/// Eight digits have room for the number of any device.
pub proof fn law_eight_digits_have_room_for_any_device(device: u32)
    ensures
        (device as nat) < hexadecimal_room(8),
        number_value(hexadecimal(device as nat, 8), 16) == device,
{
    reveal_with_fuel(hexadecimal_room, 9);
    law_hexadecimal_digits_stand_for_the_number(device as nat, 8);
}

} // verus!
