//! Hexadecimal digest strings, as found in catalog documents.

use vstd::prelude::*;

verus! {

/// Value of one hexadecimal digit, upper or lower case.
pub open spec fn hex_val(c: char) -> Option<u8> {
    let u = c as u32;
    if ('0' as u32) <= u <= ('9' as u32) {
        Some((u - ('0' as u32)) as u8)
    } else if ('a' as u32) <= u <= ('f' as u32) {
        Some((u - ('a' as u32) + 10) as u8)
    } else if ('A' as u32) <= u <= ('F' as u32) {
        Some((u - ('A' as u32) + 10) as u8)
    } else {
        None
    }
}

/// Bytes denoted by a hexadecimal string: two digits per byte, high digit
/// first.  `None` when the length is odd or a character is no hex digit.
pub open spec fn spec_hex_decode(s: Seq<char>) -> Option<Seq<u8>>
    decreases s.len(),
{
    if s.len() == 0 {
        Some(Seq::<u8>::empty())
    } else if s.len() == 1 {
        None
    } else {
        match (hex_val(s[0]), hex_val(s[1])) {
            (Some(h), Some(l)) => match spec_hex_decode(s.skip(2)) {
                Some(rest) => Some(seq![(16 * h + l) as u8] + rest),
                None => None,
            },
            _ => None,
        }
    }
}

/// Value of one hexadecimal digit character, if any.
fn hex_val_exec(c: char) -> (r: Option<u8>)
    ensures
        r == hex_val(c),
{
    let u = c as u32;
    if 48 <= u && u <= 57 {
        Some((u - 48) as u8)
    } else if 97 <= u && u <= 102 {
        Some((u - 97 + 10) as u8)
    } else if 65 <= u && u <= 70 {
        Some((u - 65 + 10) as u8)
    } else {
        None
    }
}

/// Decodes a hexadecimal string into bytes; `None` on odd length or a
/// character that is no hex digit.
pub fn hex_decode(s: &str) -> (r: Option<Vec<u8>>)
    ensures
        match r {
            Some(v) => spec_hex_decode(s@) == Some(v@),
            None => spec_hex_decode(s@) is None,
        },
{
    let n = s.unicode_len();
    if n % 2 != 0 {
        proof {
            lemma_hex_decode_odd(s@);
        }
        return None;
    }
    let mut out: Vec<u8> = Vec::new();
    let mut i: usize = 0;
    proof {
        assert(s@.skip(0) =~= s@);
        let d = spec_hex_decode(s@);
        if d is Some {
            assert(out@ + d->Some_0 =~= d->Some_0);
        }
    }
    while i < n
        invariant
            i % 2 == 0,
            n % 2 == 0,
            i <= n,
            n == s@.len(),
            spec_hex_decode(s@) == match spec_hex_decode(s@.skip(i as int)) {
                Some(rest) => Some(out@ + rest),
                None => None::<Seq<u8>>,
            },
        decreases n - i,
    {
        let c0 = s.get_char(i);
        let c1 = s.get_char(i + 1);
        let ghost pre = s@.skip(i as int);
        assert(pre[0] == s@[i as int] && pre[1] == s@[i as int + 1]);
        match (hex_val_exec(c0), hex_val_exec(c1)) {
            (Some(h), Some(l)) => {
                assert(h < 16 && l < 16);
                let b: u8 = 16 * h + l;
                let ghost out0 = out@;
                out.push(b);
                proof {
                    assert(pre.skip(2) =~= s@.skip(i as int + 2));
                    let d2 = spec_hex_decode(pre.skip(2));
                    if d2 is Some {
                        assert(out@ + d2->Some_0 =~= out0 + (seq![b] + d2->Some_0));
                    }
                }
                i = i + 2;
            },
            _ => {
                return None;
            },
        }
    }
    proof {
        assert(s@.skip(i as int) =~= Seq::<char>::empty());
        assert(spec_hex_decode(s@) == Some(out@ + Seq::<u8>::empty()));
        assert(out@ + Seq::<u8>::empty() =~= out@);
    }
    Some(out)
}

/// A string of odd length decodes to nothing.
proof fn lemma_hex_decode_odd(s: Seq<char>)
    requires
        s.len() % 2 == 1,
    ensures
        spec_hex_decode(s) is None,
    decreases s.len(),
{
    if s.len() > 1 {
        assert(s.skip(2).len() % 2 == 1);
        lemma_hex_decode_odd(s.skip(2));
    }
}

} // verus!
