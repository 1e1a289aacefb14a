use vstd::prelude::*;

verus! {

/// Collect characters into a string (`FromIterator<char>` of `String`).
#[verifier::external_body]
pub(crate) fn string_from_chars(chars: &Vec<char>) -> (r: String)
    ensures
        r@ == chars@,
{
    chars.iter().collect()
}

/// The characters of a string slice, in order.
pub fn chars_of(s: &str) -> (r: Vec<char>)
    ensures
        r@ == s@,
{
    let mut r: Vec<char> = Vec::new();
    for c in it: s.chars()
        invariant
            r@ == it.seq().take(it.index() as int),
            it.seq() == s@,
    {
        r.push(c);
    }
    r
}

/// The upper-case hexadecimal digit of a number below 16.
pub open spec fn spec_hex_digit(n: u8) -> char {
    if n < 10 {
        (('0' as u8) + n) as char
    } else {
        (('A' as u8) + (n - 10)) as char
    }
}

/// The upper-case hexadecimal digit of a number below 16.
pub fn hex_digit(n: u8) -> (r: char)
    requires
        n < 16,
    ensures
        r == spec_hex_digit(n),
{
    if n < 10 {
        (('0' as u8) + n) as char
    } else {
        (('A' as u8) + (n - 10)) as char
    }
}

/// The two upper-case hexadecimal digits of a byte, high digit first.
pub open spec fn spec_hex_byte(b: u8) -> Seq<char> {
    seq![spec_hex_digit(b / 16), spec_hex_digit(b % 16)]
}

/// Append the two upper-case hexadecimal digits of `b`.
pub fn push_hex_byte(v: &mut Vec<char>, b: u8)
    ensures
        final(v)@ == old(v)@ + spec_hex_byte(b),
{
    v.push(hex_digit(b / 16));
    v.push(hex_digit(b % 16));
}


/// Append the characters of `s`.
pub fn push_str(v: &mut Vec<char>, s: &str)
    ensures
        final(v)@ == old(v)@ + s@,
{
    let ghost start = v@;
    for c in it: s.chars()
        invariant
            v@ == start + it.seq().take(it.index() as int),
            it.seq() == s@,
    {
        v.push(c);
        assert(it.seq().take(it.index() + 1) =~= it.seq().take(it.index() as int).push(c));
    }
    assert(s@.take(s@.len() as int) =~= s@);
}

/// The lower-case hexadecimal digit of a number below 16.
pub open spec fn spec_lower_hex_digit(n: u8) -> char {
    if n < 10 {
        (('0' as u8) + n) as char
    } else {
        (('a' as u8) + (n - 10)) as char
    }
}

/// The two lower-case hexadecimal digits of a byte, high digit first (`{:02x}`).
pub open spec fn spec_lower_hex_byte(b: u8) -> Seq<char> {
    seq![spec_lower_hex_digit(b / 16), spec_lower_hex_digit(b % 16)]
}

/// Append the two lower-case hexadecimal digits of `b`.
pub fn push_lower_hex_byte(v: &mut Vec<char>, b: u8)
    ensures
        final(v)@ == old(v)@ + spec_lower_hex_byte(b),
{
    let hi: u8 = b / 16;
    let lo: u8 = b % 16;
    let c1: char = if hi < 10 { (('0' as u8) + hi) as char } else { (('a' as u8) + (hi - 10)) as char };
    let c2: char = if lo < 10 { (('0' as u8) + lo) as char } else { (('a' as u8) + (lo - 10)) as char };
    v.push(c1);
    v.push(c2);
    assert(v@ =~= old(v)@ + spec_lower_hex_byte(b));
}

/// The bytes of a list in two lower-case hexadecimal digits each, separated by `, `.
pub open spec fn spec_hex_items(s: Seq<u8>) -> Seq<char>
    decreases s.len(),
{
    if s.len() == 0 {
        Seq::empty()
    } else if s.len() == 1 {
        spec_lower_hex_byte(s[0])
    } else {
        spec_hex_items(s.drop_last()) + seq![',', ' '] + spec_lower_hex_byte(s.last())
    }
}

/// A list of bytes as `{:02x?}` writes it: `[` and `]` around the items.
pub open spec fn spec_hex_list(s: Seq<u8>) -> Seq<char> {
    seq!['['] + spec_hex_items(s) + seq![']']
}

/// Append a list of bytes as `{:02x?}` writes it.
pub fn push_hex_list(v: &mut Vec<char>, bytes: &[u8])
    ensures
        final(v)@ == old(v)@ + spec_hex_list(bytes@),
{
    let ghost start = v@;
    v.push('[');
    let mut i: usize = 0;
    while i < bytes.len()
        invariant
            i <= bytes@.len(),
            v@ == start + seq!['['] + spec_hex_items(bytes@.take(i as int)),
        decreases bytes@.len() - i,
    {
        let ghost before = v@;
        if i > 0 {
            v.push(',');
            v.push(' ');
        }
        push_lower_hex_byte(v, bytes[i]);
        proof {
            let t = bytes@.take(i + 1);
            assert(t.drop_last() =~= bytes@.take(i as int));
            assert(t.last() == bytes@[i as int]);
            if i == 0 {
                assert(spec_hex_items(bytes@.take(0)) =~= Seq::<char>::empty());
            }
            assert(v@ =~= start + seq!['['] + spec_hex_items(t));
        }
        i = i + 1;
    }
    v.push(']');
    assert(bytes@.take(bytes@.len() as int) =~= bytes@);
    assert(v@ =~= start + spec_hex_list(bytes@));
}

} // verus!
