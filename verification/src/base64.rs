//! Standard base64 with padding (RFC 4648), the text form in which audio travels.
use vstd::prelude::*;

verus! {

/// The symbol that stands for a 6-bit number.
pub open spec fn symbol(six: int) -> char {
    if six < 26 {
        ('A' as int + six) as char
    } else if six < 52 {
        ('a' as int + (six - 26)) as char
    } else if six < 62 {
        ('0' as int + (six - 52)) as char
    } else if six == 62 {
        '+'
    } else {
        '/'
    }
}

/// The 6-bit number at `position` (0 to 3, the highest first) of a 24-bit group.
pub open spec fn sextet(group: int, position: int) -> int {
    if position == 0 {
        group / 262144
    } else if position == 1 {
        (group / 4096) % 64
    } else if position == 2 {
        (group / 64) % 64
    } else {
        group % 64
    }
}

/// The base64 text of `bytes`: four symbols for each three bytes, the last group filled with
/// zero bits and padded with `=`.
pub open spec fn encoded(bytes: Seq<u8>) -> Seq<char>
    decreases bytes.len(),
{
    if bytes.len() == 0 {
        Seq::empty()
    } else if bytes.len() == 1 {
        let group = bytes[0] * 65536;
        seq![symbol(sextet(group, 0)), symbol(sextet(group, 1)), '=', '=']
    } else if bytes.len() == 2 {
        let group = bytes[0] * 65536 + bytes[1] * 256;
        seq![symbol(sextet(group, 0)), symbol(sextet(group, 1)), symbol(sextet(group, 2)), '=']
    } else {
        let group = bytes[0] * 65536 + bytes[1] * 256 + bytes[2];
        seq![
            symbol(sextet(group, 0)),
            symbol(sextet(group, 1)),
            symbol(sextet(group, 2)),
            symbol(sextet(group, 3)),
        ] + encoded(bytes.skip(3))
    }
}

/// `String::push`: one character more at the end.
pub assume_specification[ String::push ](s: &mut String, c: char)
    ensures
        final(s)@ == old(s)@.push(c),
;

fn push_symbol(text: &mut String, six: u32)
    requires
        six < 64,
    ensures
        final(text)@ == old(text)@.push(symbol(six as int)),
{
    let code: u8 = if six < 26 {
        65 + six as u8
    } else if six < 52 {
        71 + six as u8
    } else if six < 62 {
        (six - 4) as u8
    } else if six == 62 {
        43
    } else {
        47
    };
    text.push(code as char);
}

/// Encodes `bytes` in standard base64 with padding.
pub fn encode(bytes: &[u8]) -> (text: String)
    ensures
        text@ == encoded(bytes@),
{
    let mut text = String::new();
    let mut at: usize = 0;
    assert(bytes@.skip(0) =~= bytes@);
    while at < bytes.len()
        invariant
            at <= bytes.len(),
            text@ + encoded(bytes@.skip(at as int)) == encoded(bytes@),
        decreases bytes.len() - at,
    {
        let ghost rest = bytes@.skip(at as int);
        let ghost before = text@;
        let left: usize = bytes.len() - at;
        let second: u32 = if left > 1 {
            bytes[at + 1] as u32
        } else {
            0
        };
        let third: u32 = if left > 2 {
            bytes[at + 2] as u32
        } else {
            0
        };
        let group: u32 = bytes[at] as u32 * 65536 + second * 256 + third;
        push_symbol(&mut text, group / 262144);
        push_symbol(&mut text, (group / 4096) % 64);
        if left > 1 {
            push_symbol(&mut text, (group / 64) % 64);
        } else {
            text.push('=');
        }
        if left > 2 {
            push_symbol(&mut text, group % 64);
            at = at + 3;
            assert(rest.skip(3) =~= bytes@.skip(at as int));
        } else {
            text.push('=');
            at = bytes.len();
            assert(bytes@.skip(at as int) =~= Seq::<u8>::empty());
        }
        assert(text@ + encoded(bytes@.skip(at as int)) =~= before + encoded(rest));
    }
    assert(bytes@.skip(at as int) =~= Seq::<u8>::empty());
    assert(text@ + encoded(bytes@.skip(at as int)) =~= text@);
    text
}

} // verus!
