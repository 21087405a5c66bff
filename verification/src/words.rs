//! Text as sequences of characters: the small operations that everything else spells its answers
//! with, each stated over the characters it reads.
use vstd::prelude::*;

verus! {

/// `String::push` puts one character behind what the string held.
pub assume_specification[ String::push ](s: &mut String, c: char)
    ensures
        final(s)@ == old(s)@.push(c),
;

/// What `str::to_lowercase` makes of a text.
pub uninterp spec fn lowercase_of(s: Seq<char>) -> Seq<char>;

/// `str::to_lowercase`, whose result is a function of the characters alone.
#[verifier::external_body]
pub(crate) fn lowercase(s: &str) -> (r: String)
    ensures
        r@ == lowercase_of(s@),
{
    s.to_lowercase()
}

/// Whether two texts have the same characters.
pub fn same(a: &str, b: &str) -> (r: bool)
    ensures
        r == (a@ == b@),
{
    a.to_owned() == b.to_owned()
}

/// The characters of a text, one by one.
pub fn letters(s: &str) -> (r: Vec<char>)
    ensures
        r@ == s@,
{
    let mut out: Vec<char> = Vec::new();
    for c in it: s.chars()
        invariant
            it.seq() == s@,
            out@ == s@.take(it.index()),
    {
        out.push(c);
    }
    proof {
        assert(s@.take(s@.len() as int) =~= s@);
    }
    out
}

/// The text that the characters in `from..to` spell.
pub fn spell(letters: &Vec<char>, from: usize, to: usize) -> (r: String)
    requires
        from <= to <= letters@.len(),
    ensures
        r@ == letters@.subrange(from as int, to as int),
{
    let mut out: String = String::new();
    let mut i: usize = from;
    proof {
        reveal_strlit("");
    }
    while i < to
        invariant
            from <= i <= to <= letters@.len(),
            out@ == letters@.subrange(from as int, i as int),
        decreases to - i,
    {
        out.push(letters[i]);
        i += 1;
    }
    out
}

pub fn cat2(a: &str, b: &str) -> (r: String)
    ensures
        r@ == a@ + b@,
{
    let mut out: String = a.to_owned();
    out.append(b);
    out
}

pub fn cat3(a: &str, b: &str, c: &str) -> (r: String)
    ensures
        r@ == a@ + b@ + c@,
{
    let mut out: String = cat2(a, b);
    out.append(c);
    out
}

pub fn cat4(a: &str, b: &str, c: &str, d: &str) -> (r: String)
    ensures
        r@ == a@ + b@ + c@ + d@,
{
    let mut out: String = cat3(a, b, c);
    out.append(d);
    out
}

pub fn cat5(a: &str, b: &str, c: &str, d: &str, e: &str) -> (r: String)
    ensures
        r@ == a@ + b@ + c@ + d@ + e@,
{
    let mut out: String = cat4(a, b, c, d);
    out.append(e);
    out
}

pub fn cat6(a: &str, b: &str, c: &str, d: &str, e: &str, f: &str) -> (r: String)
    ensures
        r@ == a@ + b@ + c@ + d@ + e@ + f@,
{
    let mut out: String = cat5(a, b, c, d, e);
    out.append(f);
    out
}

pub fn cat7(a: &str, b: &str, c: &str, d: &str, e: &str, f: &str, g: &str) -> (r: String)
    ensures
        r@ == a@ + b@ + c@ + d@ + e@ + f@ + g@,
{
    let mut out: String = cat6(a, b, c, d, e, f);
    out.append(g);
    out
}

/// The decimal digit that stands for `d`.
pub open spec fn digit(d: int) -> char {
    if d == 0 {
        '0'
    } else if d == 1 {
        '1'
    } else if d == 2 {
        '2'
    } else if d == 3 {
        '3'
    } else if d == 4 {
        '4'
    } else if d == 5 {
        '5'
    } else if d == 6 {
        '6'
    } else if d == 7 {
        '7'
    } else if d == 8 {
        '8'
    } else {
        '9'
    }
}

/// A natural number in decimal, with no leading zero.
pub open spec fn digits(n: nat) -> Seq<char>
    decreases n,
{
    if n < 10 {
        seq![digit(n as int)]
    } else {
        digits(n / 10).push(digit((n % 10) as int))
    }
}

/// An integer in decimal, a minus sign before a negative one.
pub open spec fn dec(n: int) -> Seq<char> {
    if n < 0 {
        seq!['-'] + digits((-n) as nat)
    } else {
        digits(n as nat)
    }
}

fn digit_of(d: u64) -> (c: char)
    requires
        d < 10,
    ensures
        c == digit(d as int),
{
    match d {
        0 => '0',
        1 => '1',
        2 => '2',
        3 => '3',
        4 => '4',
        5 => '5',
        6 => '6',
        7 => '7',
        8 => '8',
        _ => '9',
    }
}

/// `n` in decimal.
pub fn decimal(n: u64) -> (r: String)
    ensures
        r@ == digits(n as nat),
        r@ == dec(n as int),
    decreases n,
{
    if n < 10 {
        let mut out: String = String::new();
        proof {
            reveal_strlit("");
        }
        out.push(digit_of(n));
        proof {
            assert(out@ =~= seq![digit(n as int)]);
        }
        out
    } else {
        let mut out: String = decimal(n / 10);
        out.push(digit_of(n % 10));
        out
    }
}

/// `n` in decimal, with its sign.
pub fn signed(n: i64) -> (r: String)
    ensures
        r@ == dec(n as int),
{
    if n < 0 {
        let magnitude: u64 = if n == i64::MIN {
            0x8000_0000_0000_0000
        } else {
            (-n) as u64
        };
        let rest = decimal(magnitude);
        let mut out: String = String::new();
        proof {
            reveal_strlit("");
        }
        out.push('-');
        out.append(rest.as_str());
        proof {
            assert(out@ =~= seq!['-'] + digits(magnitude as nat));
        }
        out
    } else {
        decimal(n as u64)
    }
}

/// Whether a character is white space as Unicode has it.
pub open spec fn white(c: char) -> bool {
    ||| '\u{9}' <= c <= '\u{d}'
    ||| c == '\u{20}'
    ||| c == '\u{85}'
    ||| c == '\u{a0}'
    ||| c == '\u{1680}'
    ||| '\u{2000}' <= c <= '\u{200a}'
    ||| c == '\u{2028}'
    ||| c == '\u{2029}'
    ||| c == '\u{202f}'
    ||| c == '\u{205f}'
    ||| c == '\u{3000}'
}

pub fn is_white(c: char) -> (r: bool)
    ensures
        r == white(c),
{
    ('\u{9}' <= c && c <= '\u{d}') || c == '\u{20}' || c == '\u{85}' || c == '\u{a0}' || c
        == '\u{1680}' || ('\u{2000}' <= c && c <= '\u{200a}') || c == '\u{2028}' || c == '\u{2029}'
        || c == '\u{202f}' || c == '\u{205f}' || c == '\u{3000}'
}

/// A text without the white space in front of it.
pub open spec fn trimmed_front(s: Seq<char>) -> Seq<char>
    decreases s.len(),
{
    if s.len() > 0 && white(s[0]) {
        trimmed_front(s.drop_first())
    } else {
        s
    }
}

/// A text without the white space behind it.
pub open spec fn trimmed_back(s: Seq<char>) -> Seq<char>
    decreases s.len(),
{
    if s.len() > 0 && white(s.last()) {
        trimmed_back(s.drop_last())
    } else {
        s
    }
}

/// A text without the white space on either side of it.
pub open spec fn trimmed(s: Seq<char>) -> Seq<char> {
    trimmed_back(trimmed_front(s))
}

pub fn trim(s: &str) -> (r: String)
    ensures
        r@ == trimmed(s@),
{
    let all = letters(s);
    let mut from: usize = 0;
    let mut to: usize = all.len();
    proof {
        assert(s@.subrange(0, s@.len() as int) =~= s@);
    }
    while from < to && is_white(all[from])
        invariant
            from <= to == all@.len(),
            all@ == s@,
            trimmed_front(s@) == trimmed_front(s@.subrange(from as int, to as int)),
        decreases to - from,
    {
        proof {
            let here = s@.subrange(from as int, to as int);
            assert(here.drop_first() =~= s@.subrange(from as int + 1, to as int));
        }
        from += 1;
    }
    let ghost front = trimmed_front(s@);
    proof {
        assert(front == s@.subrange(from as int, to as int));
    }
    while from < to && is_white(all[to - 1])
        invariant
            from <= to <= all@.len(),
            all@ == s@,
            trimmed_back(front) == trimmed_back(s@.subrange(from as int, to as int)),
        decreases to - from,
    {
        proof {
            let here = s@.subrange(from as int, to as int);
            assert(here.drop_last() =~= s@.subrange(from as int, to as int - 1));
        }
        to -= 1;
    }
    spell(&all, from, to)
}

/// Whether `part` stands in `s` with its first character at `at`.
pub open spec fn stands_at(s: Seq<char>, part: Seq<char>, at: int) -> bool {
    0 <= at && at + part.len() <= s.len() && s.subrange(at, at + part.len()) == part
}

/// Whether `part` occurs in `s`.
pub open spec fn occurs(s: Seq<char>, part: Seq<char>) -> bool {
    exists|at: int| stands_at(s, part, at)
}

/// Whether `s` begins with `part`.
pub open spec fn begins(s: Seq<char>, part: Seq<char>) -> bool {
    stands_at(s, part, 0)
}

/// Whether `part` stands in `s` at `at`.
pub fn matches_at(s: &Vec<char>, part: &Vec<char>, at: usize) -> (r: bool)
    ensures
        r == stands_at(s@, part@, at as int),
{
    if at > s.len() || part.len() > s.len() - at {
        return false;
    }
    let mut i: usize = 0;
    while i < part.len()
        invariant
            i <= part@.len(),
            at + part@.len() <= s@.len() <= usize::MAX,
            forall|k: int| 0 <= k < i ==> s@[at + k] == part@[k],
        decreases part@.len() - i,
    {
        if s[at + i] != part[i] {
            proof {
                assert(s@.subrange(at as int, at + part@.len())[i as int] != part@[i as int]);
            }
            return false;
        }
        i += 1;
    }
    proof {
        assert(s@.subrange(at as int, at + part@.len()) =~= part@);
    }
    true
}

/// Where `part` first stands in `s` from `from` on.
pub fn find_from(s: &Vec<char>, part: &Vec<char>, from: usize) -> (r: Option<usize>)
    ensures
        match r {
            Some(at) => from <= at && stands_at(s@, part@, at as int) && forall|k: int|
                from <= k < at ==> !#[trigger] stands_at(s@, part@, k),
            None => forall|k: int| from <= k ==> !#[trigger] stands_at(s@, part@, k),
        },
{
    let mut at: usize = from;
    while at <= s.len() && part.len() <= s.len() - at
        invariant
            from <= at,
            at <= s@.len() + 1 || at == from,
            forall|k: int| from <= k < at ==> !#[trigger] stands_at(s@, part@, k),
        decreases s@.len() + 1 - at,
    {
        if matches_at(s, part, at) {
            return Some(at);
        }
        if at == usize::MAX {
            return None;
        }
        at += 1;
    }
    None
}

pub fn contains(s: &str, part: &str) -> (r: bool)
    ensures
        r == occurs(s@, part@),
{
    let all = letters(s);
    let piece = letters(part);
    match find_from(&all, &piece, 0) {
        Some(at) => {
            proof {
                assert(stands_at(s@, part@, at as int));
            }
            true
        },
        None => {
            proof {
                if occurs(s@, part@) {
                    let at = choose|at: int| stands_at(s@, part@, at);
                    assert(!stands_at(s@, part@, at));
                }
            }
            false
        },
    }
}

pub fn starts_with(s: &str, part: &str) -> (r: bool)
    ensures
        r == begins(s@, part@),
{
    let all = letters(s);
    let piece = letters(part);
    matches_at(&all, &piece, 0)
}

/// `s` with what it has before `from` left out.
pub fn after(s: &str, from: usize) -> (r: String)
    requires
        from <= s@.len(),
    ensures
        r@ == s@.skip(from as int),
{
    let all = letters(s);
    spell(&all, from, all.len())
}

/// The characters of each text of a list.
pub open spec fn texts(list: Seq<String>) -> Seq<Seq<char>> {
    Seq::new(list.len(), |i: int| list[i]@)
}

/// A list of texts in one, `gap` between each two.
pub open spec fn joined(list: Seq<Seq<char>>, gap: Seq<char>) -> Seq<char>
    decreases list.len(),
{
    if list.len() == 0 {
        Seq::empty()
    } else if list.len() == 1 {
        list[0]
    } else {
        joined(list.drop_last(), gap) + gap + list.last()
    }
}

pub fn join(list: &Vec<String>, gap: &str) -> (r: String)
    ensures
        r@ == joined(texts(list@), gap@),
{
    let mut out: String = String::new();
    let mut i: usize = 0;
    proof {
        reveal_strlit("");
        assert(out@ =~= joined(texts(list@).take(0), gap@));
    }
    while i < list.len()
        invariant
            i <= list@.len(),
            out@ == joined(texts(list@).take(i as int), gap@),
        decreases list@.len() - i,
    {
        if i > 0 {
            out.append(gap);
        }
        out.append(list[i].as_str());
        proof {
            let next = texts(list@).take(i as int + 1);
            assert(next.drop_last() =~= texts(list@).take(i as int));
            assert(next.last() == list@[i as int]@);
            if i == 0 {
                assert(out@ =~= next[0]);
            }
        }
        i += 1;
    }
    proof {
        assert(texts(list@).take(list@.len() as int) =~= texts(list@));
    }
    out
}

/// The pieces of a text between the places where `gap` stands, an empty text being one empty piece.
pub open spec fn split_by(s: Seq<char>, gap: char) -> Seq<Seq<char>>
    decreases s.len(),
{
    if s.len() == 0 {
        seq![Seq::empty()]
    } else {
        let before = split_by(s.drop_last(), gap);
        if s.last() == gap {
            before.push(Seq::empty())
        } else {
            before.update(before.len() - 1, before.last().push(s.last()))
        }
    }
}

/// A text has at least one piece.
pub proof fn split_is_never_empty(s: Seq<char>, gap: char)
    ensures
        split_by(s, gap).len() >= 1,
    decreases s.len(),
{
    if s.len() > 0 {
        split_is_never_empty(s.drop_last(), gap);
    }
}

/// Splitting and joining again with the same gap gives the text back.
pub proof fn splitting_keeps_the_text(s: Seq<char>, gap: char)
    ensures
        joined(split_by(s, gap), seq![gap]) == s,
    decreases s.len(),
{
    let pieces = split_by(s, gap);
    if s.len() > 0 {
        let before = split_by(s.drop_last(), gap);
        splitting_keeps_the_text(s.drop_last(), gap);
        split_is_never_empty(s.drop_last(), gap);
        if s.last() == gap {
            assert(pieces.drop_last() =~= before);
            assert(joined(pieces, seq![gap]) == joined(before, seq![gap]) + seq![gap]
                + Seq::<char>::empty());
        } else {
            assert(pieces.drop_last() =~= before.drop_last());
            if before.len() > 1 {
                assert(joined(pieces, seq![gap]) == joined(before.drop_last(), seq![gap])
                    + seq![gap] + before.last().push(s.last()));
            }
        }
        assert(s.drop_last().push(s.last()) =~= s);
        assert(joined(pieces, seq![gap]) =~= s.drop_last().push(s.last()));
    } else {
        assert(joined(pieces, seq![gap]) =~= s);
    }
}

pub fn split(s: &str, gap: char) -> (r: Vec<String>)
    ensures
        texts(r@) == split_by(s@, gap),
        r@.len() >= 1,
{
    let all = letters(s);
    let mut out: Vec<String> = Vec::new();
    let mut piece: String = String::new();
    let mut i: usize = 0;
    proof {
        reveal_strlit("");
        assert(texts(out@).push(piece@) =~= split_by(s@.take(0), gap));
    }
    while i < all.len()
        invariant
            i <= all@.len(),
            all@ == s@,
            texts(out@).push(piece@) == split_by(s@.take(i as int), gap),
        decreases all@.len() - i,
    {
        let c = all[i];
        let ghost before = texts(out@).push(piece@);
        proof {
            let next = s@.take(i as int + 1);
            assert(next.drop_last() =~= s@.take(i as int));
        }
        if c == gap {
            out.push(piece);
            piece = String::new();
            proof {
                reveal_strlit("");
                assert(texts(out@).push(piece@) =~= before.push(Seq::empty()));
            }
        } else {
            piece.push(c);
            proof {
                assert(texts(out@).push(piece@) =~= before.update(
                    before.len() - 1,
                    before.last().push(c),
                ));
            }
        }
        i += 1;
    }
    proof {
        assert(s@.take(s@.len() as int) =~= s@);
    }
    let ghost held = out@;
    out.push(piece);
    proof {
        assert(texts(out@) =~= texts(held).push(out@.last()@));
    }
    out
}

/// The number a decimal digit stands for.
pub open spec fn digit_value(c: char) -> Option<int> {
    if '0' <= c <= '9' {
        Some(c as int - '0' as int)
    } else {
        None
    }
}

/// The number a run of decimal digits stands for, where it is one.
pub open spec fn natural_value(s: Seq<char>) -> Option<int>
    decreases s.len(),
{
    if s.len() == 0 {
        None
    } else if s.len() == 1 {
        digit_value(s[0])
    } else {
        match (natural_value(s.drop_last()), digit_value(s.last())) {
            (Some(high), Some(low)) => Some(high * 10 + low),
            _ => None,
        }
    }
}

/// The integer a text spells: digits, with at most one sign in front.
pub open spec fn integer_value(s: Seq<char>) -> Option<int> {
    if s.len() > 0 && s[0] == '-' {
        match natural_value(s.drop_first()) {
            Some(n) => Some(-n),
            None => None,
        }
    } else if s.len() > 0 && s[0] == '+' {
        natural_value(s.drop_first())
    } else {
        natural_value(s)
    }
}

/// The value of the digits in `from..`, where they are digits and it is at most `most`.
fn natural(all: &Vec<char>, from: usize, most: u64) -> (r: Option<u64>)
    requires
        from <= all@.len(),
        most <= 0x8000_0000_0000_0000_u64 || most == u64::MAX,
    ensures
        r == match natural_value(all@.skip(from as int)) {
            Some(n) => if n <= most {
                Some(n as u64)
            } else {
                None
            },
            None => None,
        },
{
    let ghost rest = all@.skip(from as int);
    if from == all.len() {
        return None;
    }
    let mut value: u64 = 0;
    let mut i: usize = from;
    let mut over: bool = false;
    while i < all.len()
        invariant
            from <= i <= all@.len(),
            from < all@.len(),
            rest == all@.skip(from as int),
            !over ==> value <= most,
            i == from ==> value == 0 && !over,
            i > from ==> natural_value(rest.take(i - from)) is Some,
            i > from && over ==> natural_value(rest.take(i - from)).unwrap() > most,
            i > from && !over ==> natural_value(rest.take(i - from)) == Some(value as int),
        decreases all@.len() - i,
    {
        let c = all[i];
        proof {
            let next = rest.take(i - from + 1);
            assert(next.drop_last() =~= rest.take(i - from));
            assert(next.last() == c);
        }
        if !('0' <= c && c <= '9') {
            proof {
                not_digits(rest, i - from);
            }
            return None;
        }
        let d: u64 = (c as u32 as u64) - 48;
        if !over {
            match value.checked_mul(10) {
                Some(ten) => match ten.checked_add(d) {
                    Some(sum) => {
                        if sum <= most {
                            value = sum;
                        } else {
                            over = true;
                        }
                    },
                    None => {
                        over = true;
                    },
                },
                None => {
                    over = true;
                },
            }
        }
        i += 1;
    }
    proof {
        assert(rest.take(rest.len() as int) =~= rest);
    }
    if over {
        None
    } else {
        Some(value)
    }
}

/// A run with a character that is no digit is no number.
pub proof fn not_digits(s: Seq<char>, at: int)
    requires
        0 <= at < s.len(),
        digit_value(s[at]) is None,
    ensures
        natural_value(s) is None,
    decreases s.len(),
{
    if s.len() > 1 && at < s.len() - 1 {
        not_digits(s.drop_last(), at);
    }
}

/// A run that begins with a sign is no run of digits.
pub proof fn signs_are_no_digits(s: Seq<char>)
    requires
        s.len() > 0,
        s[0] == '+' || s[0] == '-',
    ensures
        natural_value(s) is None,
{
    not_digits(s, 0);
}

/// A run of digits stands for no negative number.
pub proof fn naturals_are_not_negative(s: Seq<char>)
    ensures
        natural_value(s) matches Some(n) ==> n >= 0,
    decreases s.len(),
{
    if s.len() > 1 {
        naturals_are_not_negative(s.drop_last());
    }
}

/// The integer `s` spells, where it spells one that fits in 64 bits.
pub fn parse_i64(s: &str) -> (r: Option<i64>)
    ensures
        r == match integer_value(s@) {
            Some(n) => if i64::MIN <= n <= i64::MAX {
                Some(n as i64)
            } else {
                None
            },
            None => None,
        },
{
    let all = letters(s);
    if all.len() > 0 && all[0] == '-' {
        proof {
            assert(s@.skip(1) =~= s@.drop_first());
            naturals_are_not_negative(s@.drop_first());
        }
        match natural(&all, 1, 0x8000_0000_0000_0000) {
            Some(n) => if n == 0x8000_0000_0000_0000 {
                Some(i64::MIN)
            } else {
                Some(-(n as i64))
            },
            None => None,
        }
    } else {
        let from: usize = if all.len() > 0 && all[0] == '+' {
            1
        } else {
            0
        };
        proof {
            assert(s@.skip(0) =~= s@);
            if s@.len() > 0 {
                assert(s@.skip(1) =~= s@.drop_first());
            }
            naturals_are_not_negative(s@.skip(from as int));
        }
        match natural(&all, from, 0x7fff_ffff_ffff_ffff) {
            Some(n) => Some(n as i64),
            None => None,
        }
    }
}

/// The natural number a text spells: digits, with at most a plus sign in front.
pub open spec fn unsigned_value(s: Seq<char>) -> Option<int> {
    if s.len() > 0 && s[0] == '+' {
        natural_value(s.drop_first())
    } else {
        natural_value(s)
    }
}

/// The natural number `s` spells, where it spells one that fits in 64 bits.
pub fn parse_u64(s: &str) -> (r: Option<u64>)
    ensures
        r == match unsigned_value(s@) {
            Some(n) => if n <= u64::MAX {
                Some(n as u64)
            } else {
                None
            },
            None => None,
        },
        r matches Some(n) ==> unsigned_value(s@) == Some(n as int),
{
    let all = letters(s);
    let from: usize = if all.len() > 0 && all[0] == '+' {
        1
    } else {
        0
    };
    proof {
        assert(s@.skip(0) =~= s@);
        if s@.len() > 0 {
            assert(s@.skip(1) =~= s@.drop_first());
            naturals_are_not_negative(s@.drop_first());
        }
        naturals_are_not_negative(s@);
    }
    natural(&all, from, u64::MAX)
}

/// Whether one text comes before another, character by character, the shorter first.
pub open spec fn before(a: Seq<char>, b: Seq<char>) -> bool
    decreases a.len(),
{
    if b.len() == 0 {
        false
    } else if a.len() == 0 {
        true
    } else if a[0] != b[0] {
        a[0] < b[0]
    } else {
        before(a.drop_first(), b.drop_first())
    }
}

/// Of two different texts one comes before the other, and not both.
pub proof fn texts_are_ordered(a: Seq<char>, b: Seq<char>)
    ensures
        !(before(a, b) && before(b, a)),
        a == b || before(a, b) || before(b, a),
        a == b ==> !before(a, b),
    decreases a.len(),
{
    if a.len() > 0 && b.len() > 0 {
        texts_are_ordered(a.drop_first(), b.drop_first());
        if a.drop_first() == b.drop_first() && a[0] == b[0] {
            assert(a =~= seq![a[0]] + a.drop_first());
            assert(b =~= seq![b[0]] + b.drop_first());
        }
    }
    if a.len() == 0 && b.len() == 0 {
        assert(a =~= b);
    }
}

/// What comes before something that comes before a third comes before the third.
pub proof fn order_carries_over(a: Seq<char>, b: Seq<char>, c: Seq<char>)
    requires
        !before(b, a),
        !before(c, b),
    ensures
        !before(c, a),
    decreases a.len(),
{
    if a.len() > 0 && b.len() > 0 && c.len() > 0 {
        if a[0] == b[0] && b[0] == c[0] {
            order_carries_over(a.drop_first(), b.drop_first(), c.drop_first());
        }
    }
}

pub fn is_before(a: &str, b: &str) -> (r: bool)
    ensures
        r == before(a@, b@),
{
    let left = letters(a);
    let right = letters(b);
    let mut i: usize = 0;
    proof {
        assert(a@.skip(0) =~= a@);
        assert(b@.skip(0) =~= b@);
    }
    while i < left.len() && i < right.len()
        invariant
            left@ == a@,
            right@ == b@,
            i <= left@.len(),
            i <= right@.len(),
            before(a@, b@) == before(a@.skip(i as int), b@.skip(i as int)),
        decreases left@.len() - i,
    {
        if left[i] != right[i] {
            return left[i] < right[i];
        }
        proof {
            assert(a@.skip(i as int).drop_first() =~= a@.skip(i as int + 1));
            assert(b@.skip(i as int).drop_first() =~= b@.skip(i as int + 1));
        }
        i += 1;
    }
    i == left.len() && i < right.len()
}

/// `s` with every `part` in it, from the left and without overlap, made `with`.
pub open spec fn replaced(s: Seq<char>, part: Seq<char>, with: Seq<char>) -> Seq<char>
    decreases s.len(),
{
    if part.len() == 0 || s.len() == 0 {
        s
    } else if begins(s, part) {
        with + replaced(s.skip(part.len() as int), part, with)
    } else {
        seq![s[0]] + replaced(s.skip(1), part, with)
    }
}

pub fn replace(s: &str, part: &str, with: &str) -> (r: String)
    requires
        part@.len() > 0,
    ensures
        r@ == replaced(s@, part@, with@),
{
    let all = letters(s);
    let piece = letters(part);
    let mut out: String = String::new();
    let mut i: usize = 0;
    proof {
        reveal_strlit("");
        assert(s@.skip(0) =~= s@);
        assert(out@ + replaced(s@.skip(0), part@, with@) =~= replaced(s@, part@, with@));
    }
    while i < all.len()
        invariant
            i <= all@.len(),
            all@ == s@,
            piece@ == part@,
            part@.len() > 0,
            out@ + replaced(s@.skip(i as int), part@, with@) == replaced(s@, part@, with@),
        decreases all@.len() - i,
    {
        let ghost rest = s@.skip(i as int);
        let ghost held = out@;
        if matches_at(&all, &piece, i) {
            proof {
                assert(rest.subrange(0, part@.len() as int) =~= s@.subrange(
                    i as int,
                    i + part@.len(),
                ));
                assert(rest.skip(part@.len() as int) =~= s@.skip(i + part@.len()));
            }
            out.append(with);
            i += piece.len();
            proof {
                assert(out@ + replaced(s@.skip(i as int), part@, with@) =~= held + replaced(
                    rest,
                    part@,
                    with@,
                ));
            }
        } else {
            proof {
                assert(!begins(rest, part@)) by {
                    if begins(rest, part@) {
                        assert(s@.subrange(i as int, i + part@.len()) =~= rest.subrange(
                            0,
                            part@.len() as int,
                        ));
                    }
                }
                assert(rest.skip(1) =~= s@.skip(i as int + 1));
            }
            out.push(all[i]);
            i += 1;
            proof {
                assert(out@ + replaced(s@.skip(i as int), part@, with@) =~= held + replaced(
                    rest,
                    part@,
                    with@,
                ));
            }
        }
    }
    proof {
        assert(s@.skip(s@.len() as int) =~= Seq::<char>::empty());
        assert(out@ + Seq::<char>::empty() =~= out@);
    }
    out
}

/// How many UTF-16 code units a text takes.
pub open spec fn units(s: Seq<char>) -> nat
    decreases s.len(),
{
    if s.len() == 0 {
        0
    } else {
        units(s.drop_last()) + if s.last() >= '\u{10000}' {
            2nat
        } else {
            1nat
        }
    }
}

/// A text takes at most two units for each character.
pub proof fn units_are_bounded(s: Seq<char>)
    ensures
        s.len() <= units(s) <= 2 * s.len(),
    decreases s.len(),
{
    if s.len() > 0 {
        units_are_bounded(s.drop_last());
    }
}

pub fn utf16_len(s: &str) -> (r: u128)
    ensures
        r == units(s@),
{
    let all = letters(s);
    let mut n: u128 = 0;
    let mut i: usize = 0;
    while i < all.len()
        invariant
            i <= all@.len(),
            all@ == s@,
            n <= 2 * i,
            n == units(s@.take(i as int)),
        decreases all@.len() - i,
    {
        proof {
            assert(s@.take(i as int + 1).drop_last() =~= s@.take(i as int));
        }
        n += if all[i] >= '\u{10000}' {
            2
        } else {
            1
        };
        i += 1;
    }
    proof {
        assert(s@.take(s@.len() as int) =~= s@);
    }
    n
}

/// A text in double quotes.
pub open spec fn quoted(s: Seq<char>) -> Seq<char> {
    "\""@ + s + "\""@
}

pub fn quote(s: &str) -> (r: String)
    ensures
        r@ == quoted(s@),
{
    cat3("\"", s, "\"")
}

/// A name without the game's own namespace in front of it.
pub open spec fn bare(name: Seq<char>) -> Seq<char> {
    if begins(name, "minecraft:"@) {
        name.skip("minecraft:"@.len() as int)
    } else {
        name
    }
}

pub fn unprefixed(name: &str) -> (r: String)
    ensures
        r@ == bare(name@),
{
    if starts_with(name, "minecraft:") {
        proof {
            reveal_strlit("minecraft:");
        }
        after(name, 10)
    } else {
        name.to_owned()
    }
}

/// Whether `s` ends with `part`.
pub open spec fn ends(s: Seq<char>, part: Seq<char>) -> bool {
    stands_at(s, part, s.len() - part.len())
}

pub fn ends_with(s: &str, part: &str) -> (r: bool)
    ensures
        r == ends(s@, part@),
{
    let all = letters(s);
    let piece = letters(part);
    piece.len() <= all.len() && matches_at(&all, &piece, all.len() - piece.len())
}

/// The characters of each text of a list of literals.
pub open spec fn literals(list: Seq<&'static str>) -> Seq<Seq<char>> {
    Seq::new(list.len(), |i: int| list[i]@)
}

/// A number cut to 32 bits.
pub fn wrapped_u32(n: i64) -> (r: u32)
    ensures
        r == n as int % 0x1_0000_0000,
{
    if n >= 0 {
        (n as u64 % 0x1_0000_0000) as u32
    } else {
        let below: u64 = (-(n + 1)) as u64;
        (0xffff_ffff - below % 0x1_0000_0000) as u32
    }
}

/// A number cut to 8 bits.
pub fn wrapped_u8(n: i64) -> (r: u8)
    ensures
        r == n as int % 0x100,
{
    if n >= 0 {
        (n as u64 % 0x100) as u8
    } else {
        let below: u64 = (-(n + 1)) as u64;
        (0xff - below % 0x100) as u8
    }
}

/// A number cut to 64 bits without a sign.
pub fn wrapped_u64(n: i64) -> (r: u64)
    ensures
        r == n as int % 0x1_0000_0000_0000_0000,
{
    if n >= 0 {
        n as u64
    } else {
        let below: u64 = (-(n + 1)) as u64;
        0xffff_ffff_ffff_ffff - below
    }
}

/// A letter of the Latin alphabet without its case.
pub open spec fn ascii_lower(c: char) -> char {
    if 'A' <= c <= 'Z' {
        (c as u32 + 32) as char
    } else {
        c
    }
}

/// Whether two texts are the same but for the case of their ASCII letters.
pub open spec fn same_but_case(a: Seq<char>, b: Seq<char>) -> bool {
    a.len() == b.len() && forall|i: int|
        0 <= i < a.len() ==> ascii_lower(#[trigger] a[i]) == ascii_lower(b[i])
}

fn same_letter(a: char, b: char) -> (r: bool)
    ensures
        r == (ascii_lower(a) == ascii_lower(b)),
{
    let x: u32 = if 'A' <= a && a <= 'Z' {
        a as u32 + 32
    } else {
        a as u32
    };
    let y: u32 = if 'A' <= b && b <= 'Z' {
        b as u32 + 32
    } else {
        b as u32
    };
    x == y
}

pub fn equals_ignoring_case(a: &str, b: &str) -> (r: bool)
    ensures
        r == same_but_case(a@, b@),
{
    let left = letters(a);
    let right = letters(b);
    if left.len() != right.len() {
        return false;
    }
    let mut i: usize = 0;
    while i < left.len()
        invariant
            i <= left@.len() == right@.len(),
            left@ == a@,
            right@ == b@,
            forall|k: int| 0 <= k < i ==> ascii_lower(#[trigger] a@[k]) == ascii_lower(b@[k]),
        decreases left@.len() - i,
    {
        if !same_letter(left[i], right[i]) {
            proof {
                assert(ascii_lower(a@[i as int]) != ascii_lower(b@[i as int]));
            }
            return false;
        }
        i += 1;
    }
    true
}

/// A number in decimal reads back as that number.
pub proof fn a_number_reads_back(n: nat)
    ensures
        natural_value(digits(n)) == Some(n as int),
        digits(n).len() >= 1,
    decreases n,
{
    if n >= 10 {
        a_number_reads_back(n / 10);
        assert(digits(n).drop_last() =~= digits(n / 10));
        assert(digits(n).last() == digit((n % 10) as int));
    }
}

/// An integer in decimal reads back as that integer, a minus sign before a negative one.
pub proof fn an_integer_reads_back(n: int)
    ensures
        integer_value(dec(n)) == Some(n),
        n < 0 ==> dec(n)[0] == '-',
{
    a_number_reads_back(
        if n < 0 {
            (-n) as nat
        } else {
            n as nat
        },
    );
    if n < 0 {
        assert(dec(n).drop_first() =~= digits((-n) as nat));
    } else {
        let d = digits(n as nat);
        if d[0] == '-' || d[0] == '+' {
            signs_are_no_digits(d);
        }
    }
}

/// What is left of a text once the white space around it is taken off has none at either end, and is a
/// part of the text.
pub proof fn nothing_white_is_left_around(s: Seq<char>)
    ensures
        trimmed(s).len() > 0 ==> !white(trimmed(s)[0]) && !white(trimmed(s).last()),
        occurs(s, trimmed(s)),
        trimmed(s).len() == 0 <==> forall|i: int| 0 <= i < s.len() ==> white(#[trigger] s[i]),
{
    front_is_off(s);
    let front = trimmed_front(s);
    back_is_off(front);
    let a = s.len() - front.len();
    assert(s.subrange(a, a + trimmed(s).len()) =~= front.take(trimmed(s).len() as int));
    assert(stands_at(s, trimmed(s), a));
    if trimmed(s).len() == 0 {
        assert forall|i: int| 0 <= i < s.len() implies white(#[trigger] s[i]) by {
            if i >= a {
                assert(front[i - a] == s[i]);
            }
        }
    } else {
        assert(trimmed(s)[0] == front[0]);
        assert(front[0] == s[a]);
        assert(!white(s[a]));
    }
}

proof fn front_is_off(s: Seq<char>)
    ensures
        trimmed_front(s).len() <= s.len(),
        trimmed_front(s) == s.skip(s.len() - trimmed_front(s).len()),
        trimmed_front(s).len() > 0 ==> !white(trimmed_front(s)[0]),
        forall|i: int| 0 <= i < s.len() - trimmed_front(s).len() ==> white(#[trigger] s[i]),
    decreases s.len(),
{
    if s.len() > 0 && white(s[0]) {
        let rest = s.drop_first();
        front_is_off(rest);
        assert(trimmed_front(s) =~= s.skip(s.len() - trimmed_front(s).len()));
        assert forall|i: int| 0 <= i < s.len() - trimmed_front(s).len() implies white(#[trigger] s[i]) by {
            if i > 0 {
                assert(rest[i - 1] == s[i]);
            }
        }
    } else {
        assert(s.skip(0) =~= s);
    }
}

proof fn back_is_off(s: Seq<char>)
    ensures
        trimmed_back(s).len() <= s.len(),
        trimmed_back(s) == s.take(trimmed_back(s).len() as int),
        trimmed_back(s).len() > 0 ==> !white(trimmed_back(s).last()),
        forall|i: int| trimmed_back(s).len() <= i < s.len() ==> white(#[trigger] s[i]),
    decreases s.len(),
{
    if s.len() > 0 && white(s.last()) {
        let rest = s.drop_last();
        back_is_off(rest);
        assert(trimmed_back(s) =~= s.take(trimmed_back(s).len() as int));
        assert forall|i: int| trimmed_back(s).len() <= i < s.len() implies white(#[trigger] s[i]) by {
            if i < rest.len() {
                assert(rest[i] == s[i]);
            }
        }
    } else {
        assert(s.take(s.len() as int) =~= s);
    }
}

/// A name is bare once the game's own namespace is off it, and any other stays.
pub proof fn a_bare_name_has_no_namespace(name: Seq<char>)
    ensures
        bare("minecraft:"@ + name) == name,
        !begins(name, "minecraft:"@) ==> bare(name) == name,
{
    let full = "minecraft:"@ + name;
    assert(full.subrange(0, "minecraft:"@.len() as int) =~= "minecraft:"@);
    assert(full.skip("minecraft:"@.len() as int) =~= name);
}

/// A text begins with its front, ends with its back, and both occur in it.
pub proof fn a_text_has_its_front_and_back(a: Seq<char>, b: Seq<char>, c: Seq<char>)
    ensures
        begins(a + b, a),
        ends(a + b, b),
        occurs(a + b + c, b),
        quoted(a) == "\""@ + a + "\""@,
{
    assert((a + b).subrange(0, a.len() as int) =~= a);
    assert((a + b).subrange(a.len() as int, (a + b).len() as int) =~= b);
    assert((a + b + c).subrange(a.len() as int, (a.len() + b.len()) as int) =~= b);
    assert(stands_at(a + b + c, b, a.len() as int));
}

/// A list joined reads its texts one after the other with the gap between each two.
pub proof fn a_list_is_joined_with_gaps(list: Seq<Seq<char>>, text: Seq<char>, gap: Seq<char>)
    ensures
        joined(Seq::empty(), gap).len() == 0,
        joined(seq![text], gap) == text,
        list.len() > 0 ==> joined(list.push(text), gap) == joined(list, gap) + gap + text,
{
    assert(list.push(text).drop_last() =~= list);
}

/// Two texts are the same but for case where each letter is, whichever case it is in.
pub proof fn case_makes_no_difference(a: Seq<char>, b: Seq<char>)
    ensures
        same_but_case(a, a),
        same_but_case(a, b) ==> same_but_case(b, a),
        a.len() != b.len() ==> !same_but_case(a, b),
        same_but_case(seq!['A'], seq!['a']) && same_but_case(seq!['z'], seq!['Z']),
        !same_but_case(seq!['a'], seq!['b']),
{
    assert(ascii_lower('A') == ascii_lower('a'));
    assert(ascii_lower('z') == ascii_lower('Z'));
    assert(ascii_lower(seq!['a'][0]) != ascii_lower(seq!['b'][0]));
}

/// Replacing takes out every occurrence of a part, read from the front, and leaves the rest.
pub proof fn replacing_takes_out_the_part(part: Seq<char>, rest: Seq<char>, with: Seq<char>)
    requires
        part.len() > 0,
    ensures
        replaced(part + rest, part, with) == with + replaced(rest, part, with),
        rest.len() > 0 && !begins(rest, part) ==> replaced(rest, part, with) == seq![rest[0]] + replaced(
            rest.skip(1),
            part,
            with,
        ),
{
    assert((part + rest).subrange(0, part.len() as int) =~= part);
    assert((part + rest).skip(part.len() as int) =~= rest);
}

} // verus!
