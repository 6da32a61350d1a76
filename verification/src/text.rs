//! Small text operations over the characters of a string, with exact contracts.

use vstd::prelude::*;

verus! {

/// `needle` stands in `hay` at character position `k`.
pub open spec fn occurs_at(hay: Seq<char>, needle: Seq<char>, k: int) -> bool {
    &&& 0 <= k
    &&& k + needle.len() <= hay.len()
    &&& hay.subrange(k, k + needle.len()) == needle
}

/// `needle` stands somewhere in `hay`.
pub open spec fn occurs(hay: Seq<char>, needle: Seq<char>) -> bool {
    exists|k: int| occurs_at(hay, needle, k)
}

/// The ASCII letters `A` to `Z` become `a` to `z`; every other character stays.
pub open spec fn ascii_lower(c: char) -> char {
    if 'A' <= c <= 'Z' {
        ((c as u32) + 32) as char
    } else {
        c
    }
}

/// `ascii_lower` on every character.
pub open spec fn ascii_lowered(s: Seq<char>) -> Seq<char> {
    s.map_values(|c: char| ascii_lower(c))
}

/// The two texts differ in the case of ASCII letters at most.
pub open spec fn same_but_ascii_case(a: Seq<char>, b: Seq<char>) -> bool {
    ascii_lowered(a) == ascii_lowered(b)
}

/// What `char::to_lowercase` makes of a character beyond ASCII.
pub uninterp spec fn unicode_lower(c: char) -> Seq<char>;

/// One character in lower case, as Unicode has it: one character or several.
pub open spec fn lower_of(c: char) -> Seq<char> {
    if c <= '\u{7f}' {
        seq![ascii_lower(c)]
    } else {
        unicode_lower(c)
    }
}

/// `char::to_lowercase`: the character in lower case, by Unicode's own rules and so the same for
/// every user and language. The ASCII letters become their small ones and the rest of ASCII
/// stays; what becomes of the other characters is left to the name of the result.
#[verifier::external_body]
fn to_lower(c: char) -> (r: Vec<char>)
    ensures
        r@ == (if c <= '\u{7f}' {
            seq![ascii_lower(c)]
        } else {
            unicode_lower(c)
        }),
{
    c.to_lowercase().collect()
}

/// The ASCII letters `a` to `z` become `A` to `Z`; every other character stays.
pub open spec fn ascii_upper(c: char) -> char {
    if 'a' <= c <= 'z' {
        ((c as u32) - 32) as char
    } else {
        c
    }
}

/// What `char::to_uppercase` makes of a character beyond ASCII.
pub uninterp spec fn unicode_upper(c: char) -> Seq<char>;

/// One character in upper case, as Unicode has it: one character or several.
pub open spec fn upper_of(c: char) -> Seq<char> {
    if c <= '\u{7f}' {
        seq![ascii_upper(c)]
    } else {
        unicode_upper(c)
    }
}

/// `char::to_uppercase`: the character in upper case, by Unicode's own rules and so the same for
/// every user and language. The ASCII letters become their capitals and the rest of ASCII stays;
/// what becomes of the other characters is left to the name of the result.
#[verifier::external_body]
fn to_upper(c: char) -> (r: Vec<char>)
    ensures
        r@ == (if c <= '\u{7f}' {
            seq![ascii_upper(c)]
        } else {
            unicode_upper(c)
        }),
{
    c.to_uppercase().collect()
}

/// One character with its case left out: the small letter of its capital, so that small letters
/// which share a capital become one (as the two forms of the Greek sigma do). A character whose
/// capital is written with several letters becomes its own small letter.
pub open spec fn caseless(c: char) -> Seq<char> {
    if upper_of(c).len() == 1 {
        lower_of(upper_of(c)[0])
    } else {
        lower_of(c)
    }
}

/// A text with letter case left out, letter by letter: what becomes of a letter does not depend
/// on where it stands.
pub open spec fn fold(s: Seq<char>) -> Seq<char>
    decreases s.len(),
{
    if s.len() == 0 {
        seq![]
    } else {
        fold(s.drop_last()) + caseless(s.last())
    }
}

/// The characters of a string, in order.
pub fn chars_of(s: &str) -> (v: Vec<char>)
    ensures
        v@ == s@,
{
    let mut v: Vec<char> = Vec::new();
    for c in it: s.chars()
        invariant
            it.seq() == s@,
            v@ == s@.take(it.index()),
    {
        proof {
            assert(s@.take(it.index() + 1) == s@.take(it.index()).push(s@[it.index()]));
        }
        v.push(c);
    }
    proof {
        assert(s@.take(s@.len() as int) == s@);
    }
    v
}

/// Do two strings hold the same characters?
pub fn same_text(a: &str, b: &str) -> (r: bool)
    ensures
        r == (a@ == b@),
{
    let x: Vec<char> = chars_of(a);
    let y: Vec<char> = chars_of(b);
    if x.len() != y.len() {
        return false;
    }
    let mut i: usize = 0;
    while i < x.len()
        invariant
            x.len() == y.len(),
            x@ == a@,
            y@ == b@,
            0 <= i <= x.len(),
            x@.take(i as int) == y@.take(i as int),
        decreases x.len() - i,
    {
        if x[i] != y[i] {
            proof {
                assert(a@[i as int] != b@[i as int]);
            }
            return false;
        }
        proof {
            assert(x@.take(i + 1) == x@.take(i as int).push(x@[i as int]));
            assert(y@.take(i + 1) == y@.take(i as int).push(y@[i as int]));
        }
        i = i + 1;
    }
    proof {
        assert(x@.take(x@.len() as int) == x@);
        assert(y@.take(y@.len() as int) == y@);
    }
    true
}

/// Does `needle` stand in `hay` at position `k`?
fn found_at(hay: &Vec<char>, needle: &Vec<char>, k: usize) -> (r: bool)
    ensures
        r == occurs_at(hay@, needle@, k as int),
{
    if k > hay.len() || needle.len() > hay.len() - k {
        return false;
    }
    let ghost window = hay@.subrange(k as int, k + needle@.len());
    let mut i: usize = 0;
    while i < needle.len()
        invariant
            k + needle.len() <= hay.len(),
            window == hay@.subrange(k as int, k + needle@.len()),
            0 <= i <= needle.len(),
            forall|j: int| 0 <= j < i ==> window[j] == needle@[j],
        decreases needle.len() - i,
    {
        if hay[k + i] != needle[i] {
            proof {
                assert(window[i as int] != needle@[i as int]);
            }
            return false;
        }
        i = i + 1;
    }
    proof {
        assert(window == needle@);
    }
    true
}

/// Does `needle` stand anywhere in `hay`?
pub fn found(hay: &Vec<char>, needle: &Vec<char>) -> (r: bool)
    ensures
        r == occurs(hay@, needle@),
{
    let mut k: usize = 0;
    while k < hay.len()
        invariant
            0 <= k <= hay.len(),
            forall|j: int| 0 <= j < k ==> !occurs_at(hay@, needle@, j),
        decreases hay.len() - k,
    {
        if found_at(hay, needle, k) {
            return true;
        }
        k = k + 1;
    }
    found_at(hay, needle, k)
}

/// Does the text hold `needle`?
pub fn contains(hay: &str, needle: &str) -> (r: bool)
    ensures
        r == occurs(hay@, needle@),
{
    let h: Vec<char> = chars_of(hay);
    let n: Vec<char> = chars_of(needle);
    found(&h, &n)
}

/// Does the text start with `prefix`?
pub fn starts_with(s: &str, prefix: &str) -> (r: bool)
    ensures
        r == prefix@.is_prefix_of(s@),
{
    let h: Vec<char> = chars_of(s);
    let n: Vec<char> = chars_of(prefix);
    found_at(&h, &n, 0)
}

/// One character with its case left out.
fn caseless_char(c: char) -> (r: Vec<char>)
    ensures
        r@ == caseless(c),
{
    let upper: Vec<char> = to_upper(c);
    if upper.len() == 1 {
        to_lower(upper[0])
    } else {
        to_lower(c)
    }
}

/// The characters of a text with letter case left out, letter by letter.
pub fn folded(s: &str) -> (v: Vec<char>)
    ensures
        v@ == fold(s@),
{
    let cs: Vec<char> = chars_of(s);
    let mut v: Vec<char> = Vec::new();
    let mut i: usize = 0;
    while i < cs.len()
        invariant
            cs@ == s@,
            0 <= i <= cs.len(),
            v@ == fold(s@.take(i as int)),
        decreases cs.len() - i,
    {
        let mut letters: Vec<char> = caseless_char(cs[i]);
        v.append(&mut letters);
        proof {
            assert(s@.take(i + 1).drop_last() == s@.take(i as int));
        }
        i = i + 1;
    }
    proof {
        assert(s@.take(s@.len() as int) == s@);
    }
    v
}

/// Folding two texts one after the other is folding them as one.
proof fn lemma_fold_joins(a: Seq<char>, b: Seq<char>)
    ensures
        fold(a + b) == fold(a) + fold(b),
    decreases b.len(),
{
    if b.len() == 0 {
        assert(a + b == a);
    } else {
        lemma_fold_joins(a, b.drop_last());
        assert((a + b).drop_last() == a + b.drop_last());
        assert((a + b).last() == b.last());
        assert(fold(a + b) == fold(a) + fold(b));
    }
}

/// A text that holds another one letter for letter still holds it with letter case left out.
pub proof fn law_folding_keeps_what_is_held(hay: Seq<char>, needle: Seq<char>)
    requires
        occurs(hay, needle),
    ensures
        occurs(fold(hay), fold(needle)),
{
    let k = choose|k: int| occurs_at(hay, needle, k);
    let before = hay.take(k);
    let after = hay.skip(k + needle.len());
    assert(hay == before + needle + after);
    lemma_fold_joins(before + needle, after);
    lemma_fold_joins(before, needle);
    let at = fold(before).len() as int;
    assert(fold(hay).subrange(at, at + fold(needle).len()) == fold(needle));
    assert(occurs_at(fold(hay), fold(needle), at));
}

/// With its case left out, an ASCII character is what it is in ASCII lower case.
proof fn lemma_ascii_is_caseless(c: char)
    ensures
        c <= '\u{7f}' ==> caseless(c) == seq![ascii_lower(c)],
{
}

/// A character and one that differs from it in ASCII case at most are alike with case left out.
proof fn lemma_caseless_ignores_ascii_case(c: char, d: char)
    requires
        ascii_lower(c) == ascii_lower(d),
    ensures
        caseless(c) == caseless(d),
{
    lemma_ascii_is_caseless(c);
    lemma_ascii_is_caseless(d);
}

/// Two texts that are the same in capitals, letter by letter.
pub open spec fn same_capitals(a: Seq<char>, b: Seq<char>) -> bool {
    &&& a.len() == b.len()
    &&& forall|i: int|
        0 <= i < a.len() ==> upper_of(#[trigger] a[i]) == upper_of(b[i]) && upper_of(a[i]).len()
            == 1
}

/// Texts that are the same in capitals are alike with letter case left out.
pub proof fn law_folding_ignores_case(a: Seq<char>, b: Seq<char>)
    requires
        same_capitals(a, b),
    ensures
        fold(a) == fold(b),
    decreases a.len(),
{
    if a.len() > 0 {
        assert forall|i: int| 0 <= i < a.len() - 1 implies upper_of(#[trigger] a.drop_last()[i])
            == upper_of(b.drop_last()[i]) && upper_of(a.drop_last()[i]).len() == 1 by {
            assert(a.drop_last()[i] == a[i]);
        }
        law_folding_ignores_case(a.drop_last(), b.drop_last());
        assert(a[a.len() - 1] == a.last());
    }
}

/// Texts that differ in the case of ASCII letters at most are alike with letter case left out.
pub proof fn law_folding_ignores_ascii_case(a: Seq<char>, b: Seq<char>)
    requires
        same_but_ascii_case(a, b),
    ensures
        fold(a) == fold(b),
    decreases a.len(),
{
    assert(ascii_lowered(a).len() == a.len() && ascii_lowered(b).len() == b.len());
    if a.len() > 0 {
        assert(ascii_lowered(a).drop_last() == ascii_lowered(a.drop_last()));
        assert(ascii_lowered(b).drop_last() == ascii_lowered(b.drop_last()));
        law_folding_ignores_ascii_case(a.drop_last(), b.drop_last());
        assert(ascii_lowered(a).last() == ascii_lower(a.last()));
        assert(ascii_lowered(b).last() == ascii_lower(b.last()));
        lemma_caseless_ignores_ascii_case(a.last(), b.last());
    }
}

/// A character in lower case is so already.
proof fn lemma_ascii_lower_is_idempotent(c: char)
    ensures
        ascii_lower(ascii_lower(c)) == ascii_lower(c),
{
}

/// A text that holds another one when the case of ASCII letters is ignored holds it with letter
/// case left out.
pub proof fn law_folding_keeps_ascii_matches(hay: Seq<char>, needle: Seq<char>)
    requires
        occurs(ascii_lowered(hay), ascii_lowered(needle)),
    ensures
        occurs(fold(hay), fold(needle)),
{
    assert forall|s: Seq<char>| #[trigger] same_but_ascii_case(s, ascii_lowered(s)) by {
        assert forall|i: int| 0 <= i < s.len() implies ascii_lowered(ascii_lowered(s))[i]
            == ascii_lowered(s)[i] by {
            lemma_ascii_lower_is_idempotent(s[i]);
        }
        assert(ascii_lowered(ascii_lowered(s)) == ascii_lowered(s));
    }
    assert(same_but_ascii_case(hay, ascii_lowered(hay)));
    assert(same_but_ascii_case(needle, ascii_lowered(needle)));
    law_folding_ignores_ascii_case(hay, ascii_lowered(hay));
    law_folding_ignores_ascii_case(needle, ascii_lowered(needle));
    law_folding_keeps_what_is_held(ascii_lowered(hay), ascii_lowered(needle));
}

/// On ASCII texts leaving letter case out is ASCII lower case, and so matching is matching with
/// the case of ASCII letters ignored.
pub proof fn law_ascii_folds_to_ascii(s: Seq<char>)
    requires
        forall|i: int| 0 <= i < s.len() ==> #[trigger] s[i] <= '\u{7f}',
    ensures
        fold(s) == ascii_lowered(s),
    decreases s.len(),
{
    if s.len() > 0 {
        assert forall|i: int| 0 <= i < s.drop_last().len() implies #[trigger] s.drop_last()[i]
            <= '\u{7f}' by {
            assert(s.drop_last()[i] == s[i]);
        }
        law_ascii_folds_to_ascii(s.drop_last());
        assert(s.last() <= '\u{7f}');
        lemma_ascii_is_caseless(s.last());
        assert(ascii_lowered(s) == ascii_lowered(s.drop_last()).push(ascii_lower(s.last())));
    } else {
        assert(fold(s) == ascii_lowered(s));
    }
}

/// The digit of value `d`, upper case above nine.
pub open spec fn digit(d: nat) -> char {
    if d < 10 {
        (48 + d) as char
    } else {
        (55 + d) as char
    }
}

/// A number in decimal, without leading zeros.
pub open spec fn decimal(n: nat) -> Seq<char>
    decreases n,
{
    if n < 10 {
        seq![digit(n)]
    } else {
        decimal(n / 10).push(digit(n % 10))
    }
}

/// The lowest `width` hexadecimal digits of a number, upper case, with leading zeros.
pub open spec fn hex(n: nat, width: nat) -> Seq<char>
    decreases width,
{
    if width == 0 {
        seq![]
    } else {
        hex(n / 16, (width - 1) as nat).push(digit(n % 16))
    }
}

/// The text of one digit below sixteen.
fn digit_text(d: u64) -> (r: &'static str)
    requires
        d < 16,
    ensures
        r@ == seq![digit(d as nat)],
{
    proof {
        reveal_strlit("0");
        reveal_strlit("1");
        reveal_strlit("2");
        reveal_strlit("3");
        reveal_strlit("4");
        reveal_strlit("5");
        reveal_strlit("6");
        reveal_strlit("7");
        reveal_strlit("8");
        reveal_strlit("9");
        reveal_strlit("A");
        reveal_strlit("B");
        reveal_strlit("C");
        reveal_strlit("D");
        reveal_strlit("E");
        reveal_strlit("F");
    }
    match d {
        0 => "0",
        1 => "1",
        2 => "2",
        3 => "3",
        4 => "4",
        5 => "5",
        6 => "6",
        7 => "7",
        8 => "8",
        9 => "9",
        10 => "A",
        11 => "B",
        12 => "C",
        13 => "D",
        14 => "E",
        _ => "F",
    }
}

/// A number in decimal.
pub fn decimal_text(n: u64) -> (r: String)
    ensures
        r@ == decimal(n as nat),
    decreases n,
{
    if n < 10 {
        digit_text(n).to_owned()
    } else {
        let mut s: String = decimal_text(n / 10);
        s.append(digit_text(n % 10));
        s
    }
}

/// A number in hexadecimal, `width` digits wide.
fn hex_text(n: u64, width: usize) -> (r: String)
    ensures
        r@ == hex(n as nat, width as nat),
    decreases width,
{
    if width == 0 {
        String::new()
    } else {
        let mut s: String = hex_text(n / 16, width - 1);
        s.append(digit_text(n % 16));
        s
    }
}

/// A 32-bit number as eight hexadecimal digits.
pub fn hex8_text(n: u32) -> (r: String)
    ensures
        r@ == hex(n as nat, 8),
{
    hex_text(n as u64, 8)
}

/// The pieces in order, with `sep` between neighbours.
pub open spec fn joined(pieces: Seq<Seq<char>>, sep: Seq<char>) -> Seq<char>
    decreases pieces.len(),
{
    if pieces.len() == 0 {
        seq![]
    } else if pieces.len() == 1 {
        pieces[0]
    } else {
        joined(pieces.drop_last(), sep) + sep + pieces.last()
    }
}

/// The characters of each string of a list.
pub open spec fn texts(list: Seq<String>) -> Seq<Seq<char>> {
    list.map_values(|s: String| s@)
}

/// The strings in order, with `sep` between neighbours.
pub fn join(pieces: &Vec<String>, sep: &str) -> (r: String)
    ensures
        r@ == joined(texts(pieces@), sep@),
{
    let mut r: String = String::new();
    let ghost all = texts(pieces@);
    let mut i: usize = 0;
    while i < pieces.len()
        invariant
            0 <= i <= pieces.len(),
            all == texts(pieces@),
            r@ == joined(all.take(i as int), sep@),
        decreases pieces.len() - i,
    {
        proof {
            assert(all.take(i + 1).drop_last() == all.take(i as int));
            assert(all.take(i + 1).last() == pieces@[i as int]@);
        }
        if i > 0 {
            r.append(sep);
        }
        r.append(pieces[i].as_str());
        i = i + 1;
    }
    proof {
        assert(all.take(all.len() as int) == all);
    }
    r
}

/// Two texts, one after the other.
pub fn concat2(a: &str, b: &str) -> (r: String)
    ensures
        r@ == a@ + b@,
{
    let mut r: String = a.to_owned();
    r.append(b);
    r
}

/// Three texts, one after the other.
pub fn concat3(a: &str, b: &str, c: &str) -> (r: String)
    ensures
        r@ == a@ + b@ + c@,
{
    let mut r: String = concat2(a, b);
    r.append(c);
    r
}

/// A text holds another one exactly where it is made of something, that text, and something
/// more.
pub proof fn law_held_text_stands_between(hay: Seq<char>, needle: Seq<char>)
    ensures
        occurs(hay, needle) <==> exists|before: Seq<char>, after: Seq<char>|
            hay == #[trigger] (before + needle + after),
{
    if occurs(hay, needle) {
        let k = choose|k: int| occurs_at(hay, needle, k);
        assert(hay == hay.take(k) + needle + hay.skip(k + needle.len()));
    }
    if exists|before: Seq<char>, after: Seq<char>| hay == #[trigger] (before + needle + after) {
        let (before, after) = choose|before: Seq<char>, after: Seq<char>|
            hay == #[trigger] (before + needle + after);
        let k = before.len() as int;
        assert(hay.subrange(k, k + needle.len()) == needle);
        assert(occurs_at(hay, needle, k));
    }
}

/// In ASCII lower case the 26 capitals stand 32 places further on, and nothing else has moved.
pub proof fn law_ascii_lower_moves_capitals(c: char)
    ensures
        65 <= c as int <= 90 ==> ascii_lower(c) as int == c as int + 32,
        !(65 <= c as int <= 90) ==> ascii_lower(c) == c,
        97 <= c as int <= 122 ==> ascii_upper(c) as int == c as int - 32,
        !(97 <= c as int <= 122) ==> ascii_upper(c) == c,
{
}

/// A text in ASCII lower case has the same length, and each letter in its own place.
pub proof fn law_ascii_lowered_keeps_places(s: Seq<char>)
    ensures
        ascii_lowered(s).len() == s.len(),
        forall|i: int|
            0 <= i < s.len() ==> (#[trigger] ascii_lowered(s)[i]) as int == (if 65 <= s[i] as int
                <= 90 {
                s[i] as int + 32
            } else {
                s[i] as int
            }),
{
    assert forall|i: int| 0 <= i < s.len() implies (#[trigger] ascii_lowered(s)[i]) as int == (if 65
        <= s[i] as int <= 90 {
        s[i] as int + 32
    } else {
        s[i] as int
    }) by {
        law_ascii_lower_moves_capitals(s[i]);
    }
}

/// Letter case is left out letter by letter: of two texts one after the other, what is left of
/// the first comes before what is left of the second, and an empty text leaves nothing.
pub proof fn law_folding_goes_letter_by_letter(a: Seq<char>, b: Seq<char>)
    ensures
        fold(a + b) == fold(a) + fold(b),
        fold(Seq::<char>::empty()) == Seq::<char>::empty(),
{
    lemma_fold_joins(a, b);
}

/// What is left of a single letter when case is left out. An ASCII letter leaves its small one.
/// Beyond ASCII a letter with a single capital leaves what that capital leaves, which is the
/// capital's own small letter; one without leaves its own small letter.
pub proof fn law_folding_one_letter(c: char)
    ensures
        c as int <= 127 ==> fold(seq![c]).len() == 1 && fold(seq![c])[0] as int == (if 65 <= c as int
            <= 90 {
            c as int + 32
        } else {
            c as int
        }),
        c as int > 127 && unicode_upper(c).len() == 1 && unicode_upper(c)[0] as int > 127 ==> fold(
            seq![c],
        ) == unicode_lower(unicode_upper(c)[0]),
        c as int > 127 && unicode_upper(c).len() == 1 && unicode_upper(c)[0] as int <= 127 ==> fold(
            seq![c],
        ) == fold(unicode_upper(c)),
        c as int > 127 && unicode_upper(c).len() != 1 ==> fold(seq![c]) == unicode_lower(c),
{
    reveal_with_fuel(fold, 2);
    let s = seq![c];
    assert(s.drop_last() == Seq::<char>::empty());
    assert(fold(s) == caseless(c));
    lemma_ascii_is_caseless(c);
    if c as int > 127 && unicode_upper(c).len() == 1 && unicode_upper(c)[0] as int <= 127 {
        let u = unicode_upper(c);
        assert(u.drop_last() == Seq::<char>::empty());
        assert(fold(u) == caseless(u[0]));
        lemma_ascii_is_caseless(u[0]);
    }
}

/// A number in decimal: its last digit stands last, behind the tenth part in decimal, and a
/// number below ten is its digit alone.
pub proof fn law_decimal_is_positional(n: nat, d: nat)
    requires
        d < 10,
    ensures
        decimal(d).len() == 1,
        decimal(d)[0] as int == 48 + d,
        n > 0 ==> decimal(10 * n + d) == decimal(n).push(decimal(d)[0]),
{
    if n > 0 {
        assert((10 * n + d) / 10 == n);
        assert((10 * n + d) % 10 == d);
    }
}

/// A number in hexadecimal is as many digits as asked for, and the last one stands for what
/// remains of the number by sixteen: `0` to `9`, then `A` to `F`.
pub proof fn law_hex_is_positional(n: nat, d: nat, width: nat)
    requires
        d < 16,
    ensures
        hex(n, width).len() == width,
        hex(16 * n + d, width + 1).take(width as int) == hex(n, width),
        hex(16 * n + d, width + 1)[width as int] as int == (if d < 10 {
            48 + d
        } else {
            55 + d
        }),
    decreases width,
{
    lemma_hex_len(n, width);
    assert((16 * n + d) / 16 == n);
    assert((16 * n + d) % 16 == d);
    assert(hex(16 * n + d, width + 1) == hex(n, width).push(digit(d)));
}

proof fn lemma_hex_len(n: nat, width: nat)
    ensures
        hex(n, width).len() == width,
    decreases width,
{
    if width > 0 {
        lemma_hex_len(n / 16, (width - 1) as nat);
    }
}

/// Joining puts the separator between neighbours and nowhere else.
pub proof fn law_joining_separates_neighbours(
    pieces: Seq<Seq<char>>,
    piece: Seq<char>,
    sep: Seq<char>,
)
    ensures
        joined(Seq::<Seq<char>>::empty(), sep) == Seq::<char>::empty(),
        joined(seq![piece], sep) == piece,
        pieces.len() > 0 ==> joined(pieces.push(piece), sep) == joined(pieces, sep) + sep + piece,
{
    if pieces.len() > 0 {
        assert(pieces.push(piece).drop_last() == pieces);
    }
}

/// The texts of a list are those of its strings, each in its own place.
pub proof fn law_texts_keep_places(list: Seq<String>)
    ensures
        texts(list).len() == list.len(),
        forall|i: int| 0 <= i < list.len() ==> #[trigger] texts(list)[i] == list[i]@,
{
}

} // verus!
