//! Wide strings for the Windows interfaces: UTF-16, terminated by a zero unit.

use crate::text::chars_of;
use vstd::prelude::*;

verus! {

/// The UTF-16 units of one character: itself below 0x10000, else a surrogate pair.
pub open spec fn units_of(c: char) -> Seq<u16> {
    let n = c as u32;
    if n < 0x10000 {
        seq![n as u16]
    } else {
        seq![
            (0xD800 + (n - 0x10000) / 0x400) as u16,
            (0xDC00 + (n - 0x10000) % 0x400) as u16,
        ]
    }
}

/// The UTF-16 units of a text.
pub open spec fn encode(s: Seq<char>) -> Seq<u16>
    decreases s.len(),
{
    if s.len() == 0 {
        seq![]
    } else {
        units_of(s[0]) + encode(s.drop_first())
    }
}

/// The text that a run of UTF-16 units stands for, a unit pair at a time where the first of
/// the pair is a leading surrogate.
pub open spec fn decode(u: Seq<u16>) -> Seq<char>
    decreases u.len(),
{
    if u.len() == 0 {
        seq![]
    } else if 0xD800 <= u[0] < 0xDC00 && u.len() >= 2 {
        seq![(0x10000 + (u[0] - 0xD800) * 0x400 + (u[1] - 0xDC00)) as char] + decode(u.skip(2))
    } else {
        seq![u[0] as char] + decode(u.skip(1))
    }
}

/// The bytes of a run of units, low byte first.
pub open spec fn little_endian(u: Seq<u16>) -> Seq<u8> {
    Seq::new(
        2 * u.len(),
        |i: int|
            if i % 2 == 0 {
                (u[i / 2] % 256) as u8
            } else {
                (u[i / 2] / 256) as u8
            },
    )
}

/// The text in UTF-16, with a zero unit behind it.
pub fn wide(s: &str) -> (v: Vec<u16>)
    ensures
        v@ == encode(s@).push(0),
{
    let cs: Vec<char> = chars_of(s);
    let mut v: Vec<u16> = Vec::new();
    let mut i: usize = 0;
    proof {
        assert(s@.skip(0) == s@);
    }
    while i < cs.len()
        invariant
            cs@ == s@,
            0 <= i <= cs.len(),
            v@ + encode(s@.skip(i as int)) == encode(s@),
        decreases cs.len() - i,
    {
        let n: u32 = cs[i] as u32;
        let ghost before = v@;
        if n < 0x10000 {
            v.push(n as u16);
        } else {
            let m: u32 = n - 0x10000;
            let high: u32 = 0xD800 + m / 0x400;
            let low: u32 = 0xDC00 + m % 0x400;
            v.push(high as u16);
            v.push(low as u16);
        }
        proof {
            let rest = s@.skip(i as int);
            assert(v@ == before + units_of(rest[0]));
            assert(rest.drop_first() == s@.skip(i + 1));
            assert(v@ + encode(s@.skip(i + 1)) == before + encode(rest));
        }
        i = i + 1;
    }
    proof {
        assert(s@.skip(s@.len() as int) == Seq::<char>::empty());
        assert(v@ == encode(s@));
    }
    v.push(0);
    v
}

/// The bytes of a run of units, low byte first.
pub fn bytes_of(units: &Vec<u16>) -> (b: Vec<u8>)
    ensures
        b@ == little_endian(units@),
{
    let mut b: Vec<u8> = Vec::new();
    let mut i: usize = 0;
    while i < units.len()
        invariant
            0 <= i <= units.len(),
            b@ == little_endian(units@.take(i as int)),
        decreases units.len() - i,
    {
        let unit: u16 = units[i];
        b.push((unit % 256) as u8);
        b.push((unit / 256) as u8);
        proof {
            assert(b@ == little_endian(units@.take(i + 1)));
        }
        i = i + 1;
    }
    proof {
        assert(units@.take(units@.len() as int) == units@);
    }
    b
}

/// The units of one character, and how they are read back.
proof fn lemma_units(c: char, after: Seq<u16>)
    ensures
        decode(units_of(c) + after) == seq![c] + decode(after),
        c != '\0' ==> !units_of(c).contains(0u16),
{
    let n = c as u32;
    let u = units_of(c) + after;
    assert(n <= 0x10FFFF);
    assert(!(0xD800 <= n < 0xE000));
    if n < 0x10000 {
        assert(u[0] == n);
        assert(u.skip(1) == after);
        assert(u[0] as char == c);
    } else {
        assert(u.skip(2) == after);
        assert(u[0] == 0xD800 + (n - 0x10000) / 0x400);
        assert(u[1] == 0xDC00 + (n - 0x10000) % 0x400);
        assert(0x10000 + (u[0] - 0xD800) * 0x400 + (u[1] - 0xDC00) == n);
    }
}

/// Nothing is lost in a wide string: decoding gives the text back.
pub proof fn law_decode_undoes_encode(s: Seq<char>)
    ensures
        decode(encode(s)) == s,
    decreases s.len(),
{
    if s.len() > 0 {
        let rest = s.drop_first();
        law_decode_undoes_encode(rest);
        lemma_units(s[0], encode(rest));
        assert(s == seq![s[0]] + rest);
    }
}

/// The terminator is where it is looked for: a text without a zero character has no zero unit
/// of its own.
pub proof fn law_only_the_terminator_is_zero(s: Seq<char>)
    requires
        !s.contains('\0'),
    ensures
        !encode(s).contains(0u16),
    decreases s.len(),
{
    if s.len() > 0 {
        let rest = s.drop_first();
        assert forall|i: int| 0 <= i < rest.len() implies rest[i] != '\0' by {
            assert(rest[i] == s[i + 1]);
        }
        law_only_the_terminator_is_zero(rest);
        assert(s[0] != '\0');
        lemma_units(s[0], encode(rest));
        let u = encode(s);
        assert forall|i: int| 0 <= i < u.len() implies u[i] != 0 by {
            let k = units_of(s[0]).len();
            if i >= k {
                assert(u[i] == encode(rest)[i - k]);
            } else {
                assert(u[i] == units_of(s[0])[i]);
            }
        }
    }
}

/// A text is encoded letter by letter, in order: one unit of its own number for a letter below
/// 0x10000, and two for any other, which give back its number from 0x10000 on.
pub proof fn law_letters_are_encoded_in_turn(c: char, rest: Seq<char>)
    ensures
        encode(Seq::<char>::empty()) == Seq::<u16>::empty(),
        (c as int) < 0x10000 ==> encode(seq![c] + rest).len() == 1 + encode(rest).len()
            && encode(seq![c] + rest)[0] == c as int && encode(seq![c] + rest).skip(1) == encode(
            rest,
        ),
        (c as int) >= 0x10000 ==> encode(seq![c] + rest).len() == 2 + encode(rest).len()
            && 0xD800 <= encode(seq![c] + rest)[0] < 0xDC00 && 0xDC00 <= encode(seq![c] + rest)[1]
            < 0xE000 && 0x10000 + (encode(seq![c] + rest)[0] - 0xD800) * 0x400 + (encode(
            seq![c] + rest,
        )[1] - 0xDC00) == c as int && encode(seq![c] + rest).skip(2) == encode(rest),
{
    let s = seq![c] + rest;
    assert(s.drop_first() == rest);
    assert(encode(s) == units_of(c) + encode(rest));
    let n = c as u32;
    assert(n <= 0x10FFFF);
    if n < 0x10000 {
        assert(encode(s).skip(1) == encode(rest));
    } else {
        assert(encode(s)[0] == 0xD800 + (n - 0x10000) / 0x400);
        assert(encode(s)[1] == 0xDC00 + (n - 0x10000) % 0x400);
        assert(encode(s).skip(2) == encode(rest));
    }
}

/// Each unit gives two bytes, the low one first, and they make up the unit again.
pub proof fn law_bytes_make_up_their_units(u: Seq<u16>)
    ensures
        little_endian(u).len() == 2 * u.len(),
        forall|i: int|
            0 <= i < u.len() ==> little_endian(u)[2 * i] + 256 * little_endian(u)[2 * i + 1]
                == #[trigger] u[i],
{
    assert forall|i: int| 0 <= i < u.len() implies little_endian(u)[2 * i] + 256 * little_endian(
        u,
    )[2 * i + 1] == #[trigger] u[i] by {
        assert((2 * i) / 2 == i && (2 * i) % 2 == 0);
        assert((2 * i + 1) / 2 == i && (2 * i + 1) % 2 == 1);
    }
}

} // verus!
