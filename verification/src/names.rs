use vstd::prelude::*;

verus! {

/// The upper-case hexadecimal digit for a value below 16.
pub open spec fn hex_digit(n: u16) -> char {
    if n < 10 {
        (('0' as u32) + n) as char
    } else {
        (('A' as u32) + (n - 10)) as char
    }
}

/// The four nibbles of a `u16`, most significant first.
pub open spec fn nibble(v: u16, i: int) -> u16 {
    if i == 0 {
        (v >> 12u16) & 0xfu16
    } else if i == 1 {
        (v >> 8u16) & 0xfu16
    } else if i == 2 {
        (v >> 4u16) & 0xfu16
    } else {
        v & 0xfu16
    }
}

/// A `u16` written as four upper-case hexadecimal digits.
pub open spec fn hex4(v: u16) -> Seq<char> {
    seq![hex_digit(nibble(v, 0)), hex_digit(nibble(v, 1)), hex_digit(nibble(v, 2)), hex_digit(nibble(v, 3))]
}

/// The prefix of the name of every stream that holds one property.
pub open spec fn substg_prefix() -> Seq<char> {
    seq!['_', '_', 's', 'u', 'b', 's', 't', 'g', '1', '.', '0', '_']
}

/// The name of the stream that holds the property with this tag, stored as
/// this type: the prefix, then tag and type in hexadecimal.
pub open spec fn spec_substg_name(tag: u16, kind: u16) -> Seq<char> {
    substg_prefix() + hex4(tag) + hex4(kind)
}

/// The digit for a value below 16, as a string.
fn hex_digit_str(n: u16) -> (s: &'static str)
    requires
        n < 16,
    ensures
        s@ == seq![hex_digit(n)],
{
    match n {
        0 => { proof { reveal_strlit("0"); } "0" },
        1 => { proof { reveal_strlit("1"); } "1" },
        2 => { proof { reveal_strlit("2"); } "2" },
        3 => { proof { reveal_strlit("3"); } "3" },
        4 => { proof { reveal_strlit("4"); } "4" },
        5 => { proof { reveal_strlit("5"); } "5" },
        6 => { proof { reveal_strlit("6"); } "6" },
        7 => { proof { reveal_strlit("7"); } "7" },
        8 => { proof { reveal_strlit("8"); } "8" },
        9 => { proof { reveal_strlit("9"); } "9" },
        10 => { proof { reveal_strlit("A"); } "A" },
        11 => { proof { reveal_strlit("B"); } "B" },
        12 => { proof { reveal_strlit("C"); } "C" },
        13 => { proof { reveal_strlit("D"); } "D" },
        14 => { proof { reveal_strlit("E"); } "E" },
        _ => { proof { reveal_strlit("F"); } "F" },
    }
}

/// Appends the four hexadecimal digits of `v` to `s`.
fn push_hex4(s: &mut String, v: u16)
    ensures
        final(s)@ == old(s)@ + hex4(v),
{
    let n0 = (v >> 12u16) & 0xfu16;
    let n1 = (v >> 8u16) & 0xfu16;
    let n2 = (v >> 4u16) & 0xfu16;
    let n3 = v & 0xfu16;
    assert(n0 < 16 && n1 < 16 && n2 < 16 && n3 < 16) by (bit_vector)
        requires
            n0 == (v >> 12u16) & 0xfu16,
            n1 == (v >> 8u16) & 0xfu16,
            n2 == (v >> 4u16) & 0xfu16,
            n3 == v & 0xfu16,
    ;
    s.append(hex_digit_str(n0));
    s.append(hex_digit_str(n1));
    s.append(hex_digit_str(n2));
    s.append(hex_digit_str(n3));
    assert(final(s)@ =~= old(s)@ + hex4(v));
}

/// The name of the stream that holds the property with this tag, stored as
/// this type, such as `__substg1.0_0037001F` for a Unicode subject.
pub fn substg_stream_name(tag: u16, kind: u16) -> (name: String)
    ensures
        name@ == spec_substg_name(tag, kind),
{
    let prefix = "__substg1.0_";
    proof {
        reveal_strlit("__substg1.0_");
    }
    let mut name = String::from_str(prefix);
    assert(name@ =~= substg_prefix());
    push_hex4(&mut name, tag);
    push_hex4(&mut name, kind);
    name
}

/// A value is determined by its four nibbles.
proof fn lemma_nibbles_determine(a: u16, b: u16)
    requires
        forall|i: int| 0 <= i < 4 ==> nibble(a, i) == nibble(b, i),
    ensures
        a == b,
{
    assert(nibble(a, 0) == nibble(b, 0));
    assert(nibble(a, 1) == nibble(b, 1));
    assert(nibble(a, 2) == nibble(b, 2));
    assert(nibble(a, 3) == nibble(b, 3));
    assert(a == b) by (bit_vector)
        requires
            (a >> 12u16) & 0xfu16 == (b >> 12u16) & 0xfu16,
            (a >> 8u16) & 0xfu16 == (b >> 8u16) & 0xfu16,
            (a >> 4u16) & 0xfu16 == (b >> 4u16) & 0xfu16,
            a & 0xfu16 == b & 0xfu16,
    ;
}

/// Four hexadecimal digits name exactly one value.
proof fn lemma_hex4_injective(a: u16, b: u16)
    requires
        hex4(a) == hex4(b),
    ensures
        a == b,
{
    assert forall|i: int| 0 <= i < 4 implies nibble(a, i) == nibble(b, i) by {
        assert(hex4(a)[i] == hex4(b)[i]);
        let x = nibble(a, i);
        let y = nibble(b, i);
        assert(x < 16 && y < 16) by (bit_vector)
            requires
                x == (a >> 12u16) & 0xfu16 || x == (a >> 8u16) & 0xfu16 || x == (a >> 4u16) & 0xfu16 || x == a & 0xfu16,
                y == (b >> 12u16) & 0xfu16 || y == (b >> 8u16) & 0xfu16 || y == (b >> 4u16) & 0xfu16 || y == b & 0xfu16,
        ;
    }
    lemma_nibbles_determine(a, b);
}

/// Distinct properties are stored in distinct streams: a stream name
/// determines the property tag and the type that it was built from.
pub proof fn lemma_substg_name_injective(tag1: u16, kind1: u16, tag2: u16, kind2: u16)
    requires
        spec_substg_name(tag1, kind1) == spec_substg_name(tag2, kind2),
    ensures
        tag1 == tag2,
        kind1 == kind2,
{
    let n1 = spec_substg_name(tag1, kind1);
    let n2 = spec_substg_name(tag2, kind2);
    assert(hex4(tag1) =~= n1.subrange(12, 16));
    assert(hex4(tag2) =~= n2.subrange(12, 16));
    assert(hex4(kind1) =~= n1.subrange(16, 20));
    assert(hex4(kind2) =~= n2.subrange(16, 20));
    lemma_hex4_injective(tag1, tag2);
    lemma_hex4_injective(kind1, kind2);
}

} // verus!
