//! Character sequences: conversions between strings and vectors of
//! characters, searching, stripping and number formatting.

use vstd::prelude::*;
use vstd::utf8::{decode_utf8, valid_utf8};

verus! {

/// `String::push` of the standard library appends one character to the end of
/// the string and leaves the characters before it unchanged.
pub assume_specification[ String::push ](s: &mut String, c: char)
    ensures
        final(s)@ == old(s)@.push(c),
;

/// `std::str::from_utf8` gives the bytes back as a string slice where they
/// are valid UTF-8, and an error where they are not.
#[verifier::external_body]
pub(crate) fn as_text(bytes: &[u8]) -> (text: Option<&str>)
    ensures
        text is Some <==> valid_utf8(bytes@),
        text matches Some(slice) ==> slice@ == decode_utf8(bytes@),
{
    match std::str::from_utf8(bytes) {
        Ok(slice) => Some(slice),
        Err(_) => None,
    }
}

/// The characters of `s`, in order.
pub fn to_chars(s: &str) -> (chars: Vec<char>)
    ensures
        chars@ == s@,
{
    let mut chars: Vec<char> = Vec::new();
    for c in it: s.chars()
        invariant
            chars@ == it.seq().take(it.index()),
            it.seq() == s@,
    {
        chars.push(c);
    }
    chars
}

/// The string made of `chars`, in order.
pub fn from_chars(chars: &Vec<char>) -> (s: String)
    ensures
        s@ == chars@,
{
    let mut s = String::new();
    let mut i: usize = 0;
    while i < chars.len()
        invariant
            i <= chars.len(),
            s@ == chars@.take(i as int),
        decreases chars.len() - i,
    {
        s.push(chars[i]);
        i += 1;
    }
    s
}

/// `part` stands in `text` at position `at`.
pub open spec fn occurs_at(text: Seq<char>, part: Seq<char>, at: int) -> bool {
    0 <= at && at + part.len() <= text.len() && text.subrange(at, at + part.len()) == part
}

/// `part` stands somewhere in `text` as one unbroken run.
pub open spec fn occurs(text: Seq<char>, part: Seq<char>) -> bool {
    exists|at: int| occurs_at(text, part, at)
}

/// Whether `part` stands in `text` at position `at`.
pub fn stands_at(text: &Vec<char>, part: &Vec<char>, at: usize) -> (yes: bool)
    ensures
        yes == occurs_at(text@, part@, at as int),
{
    if at > text.len() || part.len() > text.len() - at {
        return false;
    }
    let mut k: usize = 0;
    while k < part.len()
        invariant
            k <= part.len(),
            at + part.len() <= text.len(),
            forall|j: int| 0 <= j < k ==> text@[at + j] == part@[j],
        decreases part.len() - k,
    {
        if text[at + k] != part[k] {
            assert(text@.subrange(at as int, at + part.len())[k as int] == text@[at + k]);
            return false;
        }
        k += 1;
    }
    assert(text@.subrange(at as int, at + part.len()) =~= part@);
    true
}

/// Whether `part` stands somewhere in `text` as one unbroken run. The empty
/// run stands everywhere.
pub fn contains(text: &str, part: &str) -> (found: bool)
    ensures
        found == occurs(text@, part@),
{
    let hay = to_chars(text);
    let run = to_chars(part);
    if run.len() == 0 {
        assert(occurs_at(text@, part@, 0)) by {
            assert(text@.subrange(0, 0) =~= part@);
        }
        return true;
    }
    if run.len() > hay.len() {
        return false;
    }
    let last = hay.len() - run.len();
    let mut at: usize = 0;
    while at <= last
        invariant
            at <= last + 1,
            last == hay.len() - run.len(),
            run.len() > 0,
            hay@ == text@,
            run@ == part@,
            forall|j: int| 0 <= j < at ==> !occurs_at(text@, part@, j),
        decreases last + 1 - at,
    {
        if stands_at(&hay, &run, at) {
            return true;
        }
        at += 1;
    }
    false
}

/// The lower-case hexadecimal digit of a value below sixteen: `0` has the
/// code 48, and `a`, which stands for ten, the code 97.
pub open spec fn hex_digit(value: int) -> char {
    if value < 10 {
        (48 + value) as char
    } else {
        (87 + value) as char
    }
}

/// The lower-case hexadecimal text of `bytes`: two digits for each byte, the
/// high half first.
pub open spec fn hex(bytes: Seq<u8>) -> Seq<char> {
    Seq::new(
        2 * bytes.len(),
        |i: int|
            if i % 2 == 0 {
                hex_digit(bytes[i / 2] as int / 16)
            } else {
                hex_digit(bytes[i / 2] as int % 16)
            },
    )
}

fn hex_char(value: u8) -> (digit: char)
    requires
        value < 16,
    ensures
        digit == hex_digit(value as int),
{
    if value < 10 {
        (48 + value) as char
    } else {
        (87 + value) as char
    }
}

/// The lower-case hexadecimal text of `bytes`.
pub fn to_hex(bytes: &[u8]) -> (text: String)
    ensures
        text@ == hex(bytes@),
{
    let mut text = String::new();
    let mut i: usize = 0;
    while i < bytes.len()
        invariant
            i <= bytes.len(),
            text@ == hex(bytes@.take(i as int)),
        decreases bytes.len() - i,
    {
        let byte = bytes[i];
        text.push(hex_char(byte / 16));
        text.push(hex_char(byte % 16));
        i += 1;
        assert(text@ =~= hex(bytes@.take(i as int)));
    }
    assert(bytes@.take(bytes.len() as int) == bytes@);
    text
}

/// The decimal digit of a value below ten: `0` has the code 48.
pub open spec fn decimal_digit(value: int) -> char {
    (48 + value) as char
}

/// The decimal text of `n`, without leading zeros.
pub open spec fn decimal(n: nat) -> Seq<char>
    decreases n,
{
    if n < 10 {
        seq![decimal_digit(n as int)]
    } else {
        decimal(n / 10).push(decimal_digit((n % 10) as int))
    }
}

/// Different numbers have different decimal texts.
pub proof fn lemma_decimal_is_one_to_one(a: nat, b: nat)
    requires
        decimal(a) == decimal(b),
    ensures
        a == b,
    decreases a,
{
    let last_a = decimal_digit((a % 10) as int);
    let last_b = decimal_digit((b % 10) as int);
    assert(last_a as int == 48 + a % 10);
    assert(last_b as int == 48 + b % 10);
    if a < 10 && b < 10 {
        assert(decimal(a)[0] == last_a);
        assert(decimal(b)[0] == last_b);
        assert(a % 10 == b % 10);
    } else if a >= 10 && b >= 10 {
        assert(decimal(a / 10) =~= decimal(a).drop_last());
        assert(decimal(b / 10) =~= decimal(b).drop_last());
        assert(decimal(a).last() == last_a);
        assert(decimal(b).last() == last_b);
        lemma_decimal_is_one_to_one(a / 10, b / 10);
        assert(a % 10 == b % 10);
    } else if a < 10 {
        assert(decimal(a).len() == 1);
        assert(decimal(b).len() == decimal(b / 10).len() + 1);
        assert(decimal(b / 10).len() >= 1);
    } else {
        assert(decimal(b).len() == 1);
        assert(decimal(a).len() == decimal(a / 10).len() + 1);
        assert(decimal(a / 10).len() >= 1);
    }
}

/// Appends the decimal text of `n` to `text`.
pub fn push_decimal(text: &mut String, n: u32)
    ensures
        final(text)@ == old(text)@ + decimal(n as nat),
    decreases n,
{
    if n >= 10 {
        push_decimal(text, n / 10);
    }
    let digit: u8 = (n % 10) as u8;
    text.push((48 + digit) as char);
    assert(final(text)@ =~= old(text)@ + decimal(n as nat));
}

/// The decimal text of `n`, without leading zeros.
pub fn to_decimal(n: u32) -> (text: String)
    ensures
        text@ == decimal(n as nat),
{
    let mut text = String::new();
    push_decimal(&mut text, n);
    assert(text@ =~= decimal(n as nat));
    text
}

/// `text` with every occurrence of `part` taken out: the occurrences are
/// found from the left and do not overlap. An empty `part` takes nothing
/// out.
pub open spec fn without(text: Seq<char>, part: Seq<char>) -> Seq<char>
    decreases text.len(),
{
    if part.len() == 0 || text.len() < part.len() {
        text
    } else if text.subrange(0, part.len() as int) == part {
        without(text.subrange(part.len() as int, text.len() as int), part)
    } else {
        seq![text[0]] + without(text.subrange(1, text.len() as int), part)
    }
}

/// Taking out what is not there changes nothing.
pub proof fn lemma_without_absent(text: Seq<char>, part: Seq<char>)
    requires
        !occurs(text, part),
    ensures
        without(text, part) == text,
    decreases text.len(),
{
    if part.len() == 0 || text.len() < part.len() {
    } else {
        assert(!occurs_at(text, part, 0));
        let tail = text.subrange(1, text.len() as int);
        assert forall|at: int| !occurs_at(tail, part, at) by {
            if occurs_at(tail, part, at) {
                assert(text.subrange(at + 1, at + 1 + part.len()) =~= tail.subrange(
                    at,
                    at + part.len(),
                ));
                assert(occurs_at(text, part, at + 1));
            }
        }
        lemma_without_absent(tail, part);
        assert(seq![text[0]] + tail =~= text);
    }
}

/// A text that begins with `part` loses that beginning, and what follows is
/// gone through in the same way.
pub proof fn lemma_without_leading(part: Seq<char>, rest: Seq<char>)
    requires
        part.len() > 0,
    ensures
        without(part + rest, part) == without(rest, part),
{
    let text = part + rest;
    assert(text.subrange(0, part.len() as int) =~= part);
    assert(text.subrange(part.len() as int, text.len() as int) =~= rest);
}

/// A character at the end of a text that holds it nowhere else goes, and the
/// text before it stays.
pub proof fn lemma_without_trailing(text: Seq<char>, c: char)
    requires
        !text.contains(c),
    ensures
        without(text + seq![c], seq![c]) == text,
    decreases text.len(),
{
    let whole = text + seq![c];
    if text.len() == 0 {
        assert(whole.subrange(0, 1) =~= seq![c]);
        assert(whole.subrange(1, 1) =~= Seq::<char>::empty());
        assert(without(Seq::<char>::empty(), seq![c]) =~= text);
    } else {
        assert(text.contains(text[0]));
        assert(whole.subrange(0, 1)[0] == text[0]);
        let tail = text.subrange(1, text.len() as int);
        assert(whole.subrange(1, whole.len() as int) =~= tail + seq![c]);
        assert forall|i: int| 0 <= i < tail.len() implies tail[i] != c by {
            assert(text.contains(text[i + 1]));
        }
        lemma_without_trailing(tail, c);
        assert(seq![text[0]] + tail =~= text);
    }
}

/// Taking a character out leaves none of it behind.
pub proof fn lemma_without_leaves_none(text: Seq<char>, c: char)
    ensures
        !without(text, seq![c]).contains(c),
    decreases text.len(),
{
    let part = seq![c];
    if text.len() >= 1 {
        let tail = text.subrange(1, text.len() as int);
        lemma_without_leaves_none(tail, c);
        if text.subrange(0, 1) != part {
            assert(text[0] != c) by {
                if text[0] == c {
                    assert(text.subrange(0, 1) =~= part);
                }
            }
            let rest = without(tail, part);
            assert forall|i: int| 0 <= i < (seq![text[0]] + rest).len() implies (seq![text[0]]
                + rest)[i] != c by {
                if i > 0 {
                    assert(rest[i - 1] == (seq![text[0]] + rest)[i]);
                    assert(rest.contains(rest[i - 1]));
                }
            }
        }
    }
}

/// Taking something out brings nothing in: what the rest holds, the text
/// held before.
pub proof fn lemma_without_brings_nothing(text: Seq<char>, part: Seq<char>, c: char)
    requires
        without(text, part).contains(c),
    ensures
        text.contains(c),
    decreases text.len(),
{
    if part.len() == 0 || text.len() < part.len() {
    } else if text.subrange(0, part.len() as int) == part {
        let tail = text.subrange(part.len() as int, text.len() as int);
        lemma_without_brings_nothing(tail, part, c);
        let i = choose|i: int| 0 <= i < tail.len() && tail[i] == c;
        assert(text[i + part.len()] == c);
    } else {
        let tail = text.subrange(1, text.len() as int);
        let rest = without(tail, part);
        let whole = seq![text[0]] + rest;
        let i = choose|i: int| 0 <= i < whole.len() && whole[i] == c;
        if i == 0 {
            assert(text[0] == c);
        } else {
            assert(rest[i - 1] == c);
            assert(rest.contains(c));
            lemma_without_brings_nothing(tail, part, c);
            let j = choose|j: int| 0 <= j < tail.len() && tail[j] == c;
            assert(text[j + 1] == c);
        }
    }
}

/// `text` with every occurrence of `part` taken out.
pub fn strip(text: &str, part: &str) -> (rest: String)
    ensures
        rest@ == without(text@, part@),
{
    let hay = to_chars(text);
    let run = to_chars(part);
    let mut rest = String::new();
    let mut at: usize = 0;
    assert(hay@.skip(0) == hay@);
    while at < hay.len()
        invariant
            at <= hay.len(),
            hay@ == text@,
            run@ == part@,
            rest@ + without(hay@.skip(at as int), run@) == without(hay@, run@),
        decreases hay.len() - at,
    {
        let ghost tail = hay@.skip(at as int);
        if run.len() > 0 && stands_at(&hay, &run, at) {
            assert(tail.subrange(0, run.len() as int) =~= hay@.subrange(at as int, at + run.len()));
            assert(tail.subrange(run.len() as int, tail.len() as int) =~= hay@.skip(
                at + run.len(),
            ));
            at += run.len();
        } else {
            let ghost next = hay@.skip(at + 1);
            proof {
                if run@.len() > 0 && run@.len() <= tail.len() {
                    assert(tail.subrange(0, run@.len() as int) =~= hay@.subrange(
                        at as int,
                        at + run@.len(),
                    ));
                }
                assert(tail.subrange(1, tail.len() as int) =~= next);
                if run@.len() == 0 || tail.len() < run@.len() {
                    assert(without(next, run@) == next);
                    assert(tail =~= seq![hay@[at as int]] + next);
                }
                assert(without(tail, run@) =~= seq![hay@[at as int]] + without(next, run@));
            }
            let ghost before = rest@;
            rest.push(hay[at]);
            assert(rest@ + without(next, run@) =~= before + (seq![hay@[at as int]] + without(
                next,
                run@,
            )));
            at += 1;
        }
    }
    assert(without(hay@.skip(at as int), run@) =~= Seq::<char>::empty());
    assert(rest@ =~= rest@ + Seq::<char>::empty());
    rest
}

/// The part of `text` before the first `stop`, or all of `text` where it
/// holds no `stop`.
pub open spec fn before(text: Seq<char>, stop: char) -> Seq<char> {
    match text.index_of_first(stop) {
        Some(at) => text.take(at),
        None => text,
    }
}

/// The part of `text` before the first `stop`.
pub fn up_to(text: &str, stop: char) -> (head: String)
    ensures
        head@ == before(text@, stop),
{
    let mut head = String::new();
    proof {
        text@.index_of_first_ensures(stop);
    }
    for c in it: text.chars()
        invariant
            it.seq() == text@,
            head@ == text@.take(it.index()),
            forall|j: int| 0 <= j < it.index() ==> text@[j] != stop,
    {
        if c == stop {
            proof {
                assert(text@[it.index()] == stop);
                text@.index_of_first_ensures(stop);
            }
            return head;
        }
        head.push(c);
        assert(head@ =~= text@.take(it.index() + 1));
    }
    assert(text@.take(text@.len() as int) == text@);
    assert(!text@.contains(stop));
    head
}

} // verus!
