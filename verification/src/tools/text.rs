//! Numbers as a sentence writes them.
use vstd::prelude::*;

use crate::words::{
    cat4, dec, decimal, digit, digit_value, digits, letters, natural_value, naturals_are_not_negative,
    not_digits, spell,
};

verus! {

/// Where the decimal point of a number stands, or the end of it.
pub open spec fn point_at(text: Seq<char>) -> int
    decreases text.len(),
{
    if text.len() == 0 || text[0] == '.' {
        0
    } else {
        1 + point_at(text.skip(1))
    }
}

/// The whole part of a decimal.
pub open spec fn whole_part(text: Seq<char>) -> Seq<char> {
    text.take(point_at(text))
}

/// The digit at a place behind the decimal point, and nothing where there is none.
pub open spec fn fraction_digit(text: Seq<char>, index: int) -> int {
    let at = point_at(text) + 1 + index;
    if at < text.len() {
        text[at] as int - '0' as int
    } else {
        0
    }
}

/// The whole part of a decimal as a number, and nothing where it is none.
pub open spec fn whole_of(text: Seq<char>) -> int {
    match natural_value(whole_part(text)) {
        Some(n) => n,
        None => 0,
    }
}

/// A decimal in tenths, its next digit rounded half up.
pub open spec fn tenths_of(text: Seq<char>) -> int {
    whole_of(text) * 10 + fraction_digit(text, 0) + if fraction_digit(text, 1) >= 5 {
        1int
    } else {
        0int
    }
}

/// Whether there are only digits behind the decimal point, where there is one.
pub open spec fn countable(text: Seq<char>) -> bool {
    forall|i: int| point_at(text) < i < text.len() ==> '0' <= #[trigger] text[i] <= '9'
}

fn find_point(all: &Vec<char>) -> (r: usize)
    ensures
        r == point_at(all@),
        r <= all@.len(),
{
    let mut i: usize = 0;
    proof {
        assert(all@.skip(0) =~= all@);
    }
    while i < all.len()
        invariant
            i <= all@.len(),
            point_at(all@) == i + point_at(all@.skip(i as int)),
        decreases all@.len() - i,
    {
        if all[i] == '.' {
            return i;
        }
        proof {
            assert(all@.skip(i as int).skip(1) =~= all@.skip(i as int + 1));
        }
        i += 1;
    }
    i
}

fn digit_at(all: &Vec<char>, at: usize) -> (r: u64)
    requires
        at < all@.len(),
        '0' <= all@[at as int] <= '9',
    ensures
        r == all@[at as int] as int - '0' as int,
        r <= 9,
{
    all[at] as u32 as u64 - 48
}

proof fn digits_end(n: nat)
    ensures
        digits(n).len() >= 1,
        (digits(n).len() == 1) == (n < 10),
        digits(n).last() == digit((n % 10) as int),
        n >= 10 ==> digits(n).drop_last() == digits(n / 10),
    decreases n,
{
    if n >= 10 {
        digits_end(n / 10);
        assert(digits(n).drop_last() =~= digits(n / 10));
    }
}

fn next_digit(c: char) -> (r: char)
    requires
        exists|d: int| 0 <= d < 9 && c == digit(d),
    ensures
        forall|d: int| 0 <= d < 9 && c == #[trigger] digit(d) ==> r == digit(d + 1),
{
    match c {
        '0' => '1',
        '1' => '2',
        '2' => '3',
        '3' => '4',
        '4' => '5',
        '5' => '6',
        '6' => '7',
        '7' => '8',
        _ => '9',
    }
}

/// One more than a number, in decimal.
fn raise(number: &mut Vec<char>)
    requires
        exists|n: nat| old(number)@ == digits(n),
    ensures
        forall|n: nat| old(number)@ == #[trigger] digits(n) ==> final(number)@ == digits(n + 1),
    decreases old(number)@.len(),
{
    let ghost before = number@;
    proof {
        let n = choose|n: nat| before == digits(n);
        digits_end(n);
    }
    match number.pop() {
        None => {},
        Some(c) => {
            proof {
                let n = choose|n: nat| before == digits(n);
                digits_end(n);
                assert(number@ =~= before.drop_last());
                assert(c == digit((n % 10) as int));
            }
            if c == '9' {
                if number.len() == 0 {
                    number.push('1');
                } else {
                    proof {
                        let n = choose|n: nat| before == digits(n);
                        digits_end(n);
                        assert(number@ == digits(n / 10));
                    }
                    raise(number);
                }
                let ghost high = number@;
                number.push('0');
                proof {
                    assert forall|n: nat| before == #[trigger] digits(n) implies number@ == digits(
                        n + 1,
                    ) by {
                        digits_end(n);
                        assert(n % 10 == 9);
                        assert((n + 1) / 10 == n / 10 + 1);
                        if n < 10 {
                            assert(high =~= seq!['1']);
                            assert(digits(1) =~= seq!['1']);
                        } else {
                            assert(high == digits(n / 10 + 1));
                        }
                        assert(number@ =~= digits(n + 1));
                    }
                }
            } else {
                let ghost high = number@;
                number.push(next_digit(c));
                proof {
                    assert forall|n: nat| before == #[trigger] digits(n) implies number@ == digits(
                        n + 1,
                    ) by {
                        digits_end(n);
                        assert(n % 10 < 9);
                        assert((n + 1) / 10 == n / 10);
                        assert((n + 1) % 10 == n % 10 + 1);
                        assert(number@.last() == digit(((n + 1) % 10) as int));
                        if n < 10 {
                            assert(number@ =~= digits(n + 1));
                        } else {
                            assert(high == digits(n / 10));
                            assert(number@ =~= digits(n + 1));
                        }
                    }
                }
            }
        },
    }
}

/// The whole part of a decimal, with no leading zero.
fn whole_digits(all: &Vec<char>, point: usize) -> (r: Vec<char>)
    requires
        point == point_at(all@),
        point <= all@.len(),
    ensures
        whole_of(all@) >= 0,
        r@ == digits(whole_of(all@) as nat),
{
    let ghost part = whole_part(all@);
    let mut out: Vec<char> = Vec::new();
    out.push('0');
    let mut zero: bool = true;
    let mut i: usize = 0;
    proof {
        naturals_are_not_negative(part);
        assert(out@ =~= digits(0));
    }
    while i < point
        invariant
            i <= point <= all@.len(),
            part == all@.take(point as int),
            whole_of(all@) >= 0,
            part == whole_part(all@),
            i == 0 ==> zero && out@ == digits(0),
            i > 0 ==> (natural_value(part.take(i as int)) matches Some(n) && n >= 0 && out@ == digits(
                n as nat,
            ) && zero == (n == 0)),
        decreases point - i,
    {
        let c = all[i];
        let ghost high = part.take(i as int);
        let ghost longer = part.take(i + 1);
        proof {
            assert(longer.drop_last() =~= high);
            assert(longer.last() == c);
            naturals_are_not_negative(high);
        }
        if c < '0' || c > '9' {
            proof {
                not_digits(part, i as int);
            }
            let mut none: Vec<char> = Vec::new();
            none.push('0');
            proof {
                assert(none@ =~= digits(0));
            }
            return none;
        }
        let ghost d = digit_value(c)->0;
        let ghost n: int = if i == 0 {
            0
        } else {
            natural_value(high)->0
        };
        proof {
            assert(digit_value(c) is Some && 0 <= d < 10 && digit(d) == c);
            assert(natural_value(longer) == Some(n * 10 + d));
        }
        if zero {
            out = Vec::new();
        }
        let ghost was = out@;
        out.push(c);
        proof {
            assert((n * 10 + d) / 10 == n && (n * 10 + d) % 10 == d);
            if n == 0 {
                assert(out@ =~= digits(d as nat));
            } else {
                assert(out@ =~= digits((n * 10 + d) as nat));
            }
        }
        zero = zero && c == '0';
        i += 1;
    }
    proof {
        assert(part.take(point as int) =~= part);
        if point == 0 {
            assert(natural_value(part) is None);
        }
    }
    out
}

/// One decimal place, rounded the way Java's formatter rounds, which the other kind of bot uses.
///
/// Java rounds the shortest decimal that reads back as the value, half up, so 0.35 is "0.4".
/// Rounding the exact binary value, which is a hair under 0.35, would say "0.3": a distance that
/// differs between the two kinds in the last digit. So the rounding is done on the shortest decimal
/// of the value's magnitude, with the sign put back in front.
pub fn one_decimal(shortest: &str, negative: bool) -> (r: String)
    requires
        countable(shortest@),
    ensures
        r@ == (if negative {
            "-"@
        } else {
            ""@
        }) + dec(tenths_of(shortest@) / 10) + "."@ + dec(tenths_of(shortest@) % 10),
{
    let all = letters(shortest);
    let point: usize = find_point(&all);
    let mut whole = whole_digits(&all, point);
    let rest: usize = all.len() - point;
    let first: u64 = if rest > 1 {
        digit_at(&all, point + 1)
    } else {
        0
    };
    let second: u64 = if rest > 2 {
        digit_at(&all, point + 2)
    } else {
        0
    };
    let mut tenth: u64 = if second >= 5 {
        first + 1
    } else {
        first
    };
    let ghost n = whole_of(shortest@) as nat;
    proof {
        assert(first == fraction_digit(shortest@, 0));
        assert(second == fraction_digit(shortest@, 1));
    }
    if tenth == 10 {
        proof {
            assert(whole@ == digits(n));
        }
        raise(&mut whole);
        tenth = 0;
        proof {
            assert(tenths_of(shortest@) == (n + 1) * 10);
        }
    }
    proof {
        assert(tenths_of(shortest@) / 10 >= 0);
        assert(whole@ == dec(tenths_of(shortest@) / 10));
        assert(tenth == tenths_of(shortest@) % 10);
    }
    let sign: &str = if negative {
        "-"
    } else {
        ""
    };
    cat4(sign, spell(&whole, 0, whole.len()).as_str(), ".", decimal(tenth).as_str())
}

/// A decimal in tenths: its whole part ten times, its first digit behind the point, and one more where
/// the second is five or above.
pub proof fn a_decimal_is_rounded_half_up(whole: Seq<char>, a: char, b: char, rest: Seq<char>, n: int)
    requires
        natural_value(whole) == Some(n),
        !whole.contains('.'),
        '0' <= a <= '9',
        '0' <= b <= '9',
    ensures
        ({
            let text = whole + seq!['.', a, b] + rest;
            let first = a as int - '0' as int;
            &&& b >= '5' ==> tenths_of(text) == 10 * n + first + 1
            &&& b < '5' ==> tenths_of(text) == 10 * n + first
        }),
{
    let text = whole + seq!['.', a, b] + rest;
    point_behind(whole, seq!['.', a, b] + rest);
    assert(text =~= whole + (seq!['.', a, b] + rest));
    assert(text.take(whole.len() as int) =~= whole);
}

proof fn point_behind(whole: Seq<char>, rest: Seq<char>)
    requires
        !whole.contains('.'),
        rest.len() > 0,
        rest[0] == '.',
    ensures
        point_at(whole + rest) == whole.len(),
    decreases whole.len(),
{
    let text = whole + rest;
    if whole.len() == 0 {
        assert(text =~= rest);
    } else {
        assert(whole.contains(whole[0]));
        let less = whole.skip(1);
        assert(!less.contains('.')) by {
            if less.contains('.') {
                let i = less.index_of('.');
                assert(whole[i + 1] == '.');
            }
        }
        point_behind(less, rest);
        assert(text.skip(1) =~= less + rest);
    }
}

} // verus!
