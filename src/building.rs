use vstd::prelude::*;
use vstd::string::StringSliceAdditionalSpecFns;

use crate::track::Track;

verus! {

/// Which sides of a building piece are open.
#[derive(Clone, Copy, Debug, PartialEq, Eq, Structural)]
pub enum BuildingSceneDirection {
    Left,
    LeftRight,
    Right,
}

/// The name prefix of the track nodes of a building, `track_l`, as bytes.
pub open spec fn track_prefix() -> Seq<u8> {
    seq![116u8, 114u8, 97u8, 99u8, 107u8, 95u8, 108u8]
}

pub open spec fn is_digit(b: u8) -> bool {
    48 <= b <= 57
}

/// The number that a string of decimal digits spells.
pub open spec fn decimal_value(digits: Seq<u8>) -> int
    decreases digits.len(),
{
    if digits.len() == 0 {
        0
    } else {
        decimal_value(digits.drop_last()) * 10 + (digits.last() - 48)
    }
}

/// `text` read as an unsigned integer the way Rust's standard parsing does: an
/// optional `+`, then one or more decimal digits, with a value that fits.
pub open spec fn parsed_usize(text: Seq<u8>) -> Option<usize> {
    let digits = unsigned_part(text);
    if digits.len() > 0 && all_digits(digits) && decimal_value(digits) <= usize::MAX {
        Some(decimal_value(digits) as usize)
    } else {
        None
    }
}

/// `text` without a leading `+`.
pub open spec fn unsigned_part(text: Seq<u8>) -> Seq<u8> {
    if text.len() > 0 && text[0] == 43u8 {
        text.drop_first()
    } else {
        text
    }
}

pub open spec fn all_digits(s: Seq<u8>) -> bool {
    forall|i: int| 0 <= i < s.len() ==> is_digit(#[trigger] s[i])
}

pub open spec fn spec_is_track_name(name: Seq<u8>) -> bool {
    name.len() >= 7 && name.take(7) == track_prefix()
}

proof fn lemma_decimal_value_grows(digits: Seq<u8>, i: int)
    requires
        0 <= i <= digits.len(),
        forall|j: int| 0 <= j < digits.len() ==> is_digit(#[trigger] digits[j]),
    ensures
        decimal_value(digits.take(i)) <= decimal_value(digits),
        decimal_value(digits) >= 0,
    decreases digits.len(),
{
    if digits.len() > 0 {
        let rest = digits.drop_last();
        assert forall|j: int| 0 <= j < rest.len() implies is_digit(#[trigger] rest[j]) by {
            assert(rest[j] == digits[j]);
        }
        if i == digits.len() {
            assert(digits.take(i) =~= digits);
            lemma_decimal_value_grows(rest, 0);
        } else {
            assert(digits.take(i) =~= rest.take(i));
            lemma_decimal_value_grows(rest, i);
        }
    } else {
        assert(digits.take(i) =~= digits);
    }
}

/// The name of a node belongs to a track: it starts with `track_l`.
pub fn is_track_name(name: &str) -> (r: bool)
    ensures
        r == spec_is_track_name(name.spec_bytes()),
{
    let bytes = name.as_bytes();
    if bytes.len() < 7 {
        return false;
    }
    let prefix: [u8; 7] = [116u8, 114u8, 97u8, 99u8, 107u8, 95u8, 108u8];
    let mut i: usize = 0;
    while i < 7
        invariant
            bytes@ == name.spec_bytes(),
            bytes@.len() >= 7,
            prefix@ == track_prefix(),
            i <= 7,
            forall|j: int| 0 <= j < i ==> bytes@[j] == track_prefix()[j],
        decreases 7 - i,
    {
        if bytes[i] != prefix[i] {
            assert(bytes@.take(7)[i as int] != track_prefix()[i as int]);
            return false;
        }
        i += 1;
    }
    assert(bytes@.take(7) =~= track_prefix());
    true
}

/// The layer number of a track node, spelled after its `track_l` prefix; `None`
/// when the name has no such prefix or no number follows it.
pub fn track_layer(name: &str) -> (r: Option<usize>)
    ensures
        r == (if spec_is_track_name(name.spec_bytes()) {
            parsed_usize(name.spec_bytes().skip(7))
        } else {
            None
        }),
{
    if !is_track_name(name) {
        return None;
    }
    let bytes = name.as_bytes();
    let ghost text = bytes@.skip(7);
    let mut start: usize = 7;
    if bytes.len() > 7 && bytes[7] == 43u8 {
        start = 8;
    }
    let ghost digits = bytes@.skip(start as int);
    assert(digits =~= if text.len() > 0 && text[0] == 43u8 {
        text.drop_first()
    } else {
        text
    });
    let ghost outcome = parsed_usize(name.spec_bytes().skip(7));
    assert(text == name.spec_bytes().skip(7));
    assert(unsigned_part(text) == digits);
    if start >= bytes.len() {
        return None;
    }
    let mut value: usize = 0;
    let mut i: usize = start;
    while i < bytes.len()
        invariant
            bytes@ == name.spec_bytes(),
            digits == bytes@.skip(start as int),
            start <= i <= bytes@.len(),
            forall|j: int| 0 <= j < i - start ==> is_digit(#[trigger] digits[j]),
            value == decimal_value(digits.take(i - start)),
            outcome == parsed_usize(name.spec_bytes().skip(7)),
            spec_is_track_name(name.spec_bytes()),
            unsigned_part(name.spec_bytes().skip(7)) == digits,
        decreases bytes@.len() - i,
    {
        let b = bytes[i];
        if b < 48u8 || b > 57u8 {
            assert(!is_digit(digits[i - start]));
            assert(!all_digits(digits));
            return None;
        }
        proof {
            assert(digits.take(i - start + 1).drop_last() =~= digits.take(i - start));
            assert(digits.take(i - start + 1).last() == b);
        }
        let d: usize = (b - 48u8) as usize;
        match value.checked_mul(10) {
            None => {
                proof {
                    if all_digits(digits) {
                        lemma_decimal_value_grows(digits, i - start + 1);
                        lemma_decimal_value_grows(digits.take(i - start + 1), 0);
                    }
                }
                return None;
            },
            Some(tens) => match tens.checked_add(d) {
                None => {
                    proof {
                        if all_digits(digits) {
                            lemma_decimal_value_grows(digits, i - start + 1);
                        }
                    }
                    return None;
                },
                Some(next) => {
                    value = next;
                },
            },
        }
        i += 1;
    }
    assert(digits.take(digits.len() as int) =~= digits);
    Some(value)
}

/// `sorted` with `e` inserted after every entry whose layer is not greater than
/// its own.
pub open spec fn insert_by_layer(sorted: Seq<(usize, Track)>, e: (usize, Track)) -> Seq<
    (usize, Track),
>
    decreases sorted.len(),
{
    if sorted.len() == 0 {
        seq![e]
    } else if sorted.last().0 <= e.0 {
        sorted.push(e)
    } else {
        insert_by_layer(sorted.drop_last(), e).push(sorted.last())
    }
}

/// `tracks` sorted by layer; tracks of equal layer keep their order.
pub open spec fn sorted_by_layer(tracks: Seq<(usize, Track)>) -> Seq<(usize, Track)>
    decreases tracks.len(),
{
    if tracks.len() == 0 {
        Seq::empty()
    } else {
        insert_by_layer(sorted_by_layer(tracks.drop_last()), tracks.last())
    }
}

/// Orders the tracks of a building by their layer numbers, keeping the order of
/// tracks with equal numbers.
pub fn sort_tracks_by_layer(tracks: Vec<(usize, Track)>) -> (r: Vec<(usize, Track)>)
    ensures
        r@ == sorted_by_layer(tracks@),
{
    let ghost input = tracks@;
    let count: usize = tracks.len();
    let mut rest = tracks;
    let mut sorted: Vec<(usize, Track)> = Vec::new();
    let mut n: usize = 0;
    while rest.len() > 0
        invariant
            n <= input.len(),
            count == input.len(),
            rest@ == input.skip(n as int),
            sorted@ == sorted_by_layer(input.take(n as int)),
        decreases rest@.len(),
    {
        let e = rest.remove(0);
        proof {
            assert(input.skip(n as int).drop_first() =~= input.skip(n as int + 1));
            assert(input.take(n as int + 1).drop_last() =~= input.take(n as int));
            assert(input.take(n as int + 1).last() == e);
        }
        let ghost s = sorted@;
        let mut k: usize = sorted.len();
        assert(s.take(k as int) =~= s);
        assert(s.skip(k as int) =~= Seq::<(usize, Track)>::empty());
        assert(insert_by_layer(s, e) =~= insert_by_layer(s.take(k as int), e) + s.skip(k as int));
        while k > 0 && sorted[k - 1].0 > e.0
            invariant
                sorted@ == s,
                k <= s.len(),
                insert_by_layer(s, e) == insert_by_layer(s.take(k as int), e) + s.skip(k as int),
            decreases k,
        {
            proof {
                let t = s.take(k as int);
                assert(t.drop_last() =~= s.take(k as int - 1));
                assert(t.last() == s[k as int - 1]);
                assert(insert_by_layer(s.take(k as int - 1), e).push(s[k as int - 1]) + s.skip(
                    k as int,
                ) =~= insert_by_layer(s.take(k as int - 1), e) + s.skip(k as int - 1));
            }
            k -= 1;
        }
        proof {
            let t = s.take(k as int);
            if k > 0 {
                assert(t.last() == s[k as int - 1]);
            }
            assert(insert_by_layer(t, e) =~= t.push(e));
            assert(s.insert(k as int, e) =~= t.push(e) + s.skip(k as int));
        }
        sorted.insert(k, e);
        n += 1;
    }
    assert(input.take(input.len() as int) =~= input);
    sorted
}

} // verus!
