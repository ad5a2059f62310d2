use vstd::prelude::*;
use vstd::string::StrSliceExecFns;

verus! {

/// An opaque RGB colour, as written in a `color` attribute.
#[derive(Debug, Clone, Copy, PartialEq, Eq, Structural)]
pub struct Colour {
    pub red: u8,
    pub green: u8,
    pub blue: u8,
}

pub open spec fn is_hex_digit(c: char) -> bool {
    48 <= c as u32 <= 57 || 97 <= c as u32 <= 102 || 65 <= c as u32 <= 70
}

pub open spec fn hex_val(c: char) -> nat {
    if 48 <= c as u32 <= 57 {
        ((c as u32) - 48) as nat
    } else if 97 <= c as u32 <= 102 {
        ((c as u32) - 87) as nat
    } else {
        ((c as u32) - 55) as nat
    }
}

/// The colour denoted by six hexadecimal digits, two per channel.
pub open spec fn colour_body_of(body: Seq<char>) -> Option<Colour> {
    if body.len() == 6 && (forall|i: int| 0 <= i < 6 ==> is_hex_digit(#[trigger] body[i])) {
        Some(
            Colour {
                red: (16 * hex_val(body[0]) + hex_val(body[1])) as u8,
                green: (16 * hex_val(body[2]) + hex_val(body[3])) as u8,
                blue: (16 * hex_val(body[4]) + hex_val(body[5])) as u8,
            },
        )
    } else {
        None
    }
}

/// The colour denoted by `s`: an optional leading `#`, then exactly six
/// hexadecimal digits.
pub open spec fn colour_of(s: Seq<char>) -> Option<Colour> {
    if s.len() > 0 && s[0] == '#' {
        colour_body_of(s.drop_first())
    } else {
        colour_body_of(s)
    }
}

fn hex_digit_exec(c: char) -> (r: Option<u8>)
    ensures
        match r {
            Some(v) => is_hex_digit(c) && v as nat == hex_val(c) && v <= 15,
            None => !is_hex_digit(c),
        },
{
    let u = c as u32;
    if 48 <= u && u <= 57 {
        Some((u - 48) as u8)
    } else if 97 <= u && u <= 102 {
        Some((u - 87) as u8)
    } else if 65 <= u && u <= 70 {
        Some((u - 55) as u8)
    } else {
        None
    }
}

/// Decodes a colour attribute exactly as `colour_of` describes.
pub fn parse_colour(s: &str) -> (r: Option<Colour>)
    ensures
        r == colour_of(s@),
{
    let n = s.unicode_len();
    let start: usize = if n > 0 && s.get_char(0) == '#' {
        1
    } else {
        0
    };
    let ghost body = if s@.len() > 0 && s@[0] == '#' {
        s@.drop_first()
    } else {
        s@
    };
    proof {
        if start == 1 {
            assert(forall|i: int| 0 <= i < body.len() ==> body[i] == s@[i + 1]);
        }
    }
    if n - start != 6 {
        return None;
    }
    proof {
        assert(body.len() == 6);
        assert(body[0] == s@[start as int]);
        assert(body[1] == s@[start as int + 1]);
        assert(body[2] == s@[start as int + 2]);
        assert(body[3] == s@[start as int + 3]);
        assert(body[4] == s@[start as int + 4]);
        assert(body[5] == s@[start as int + 5]);
    }
    let d0 = hex_digit_exec(s.get_char(start));
    let d1 = hex_digit_exec(s.get_char(start + 1));
    let d2 = hex_digit_exec(s.get_char(start + 2));
    let d3 = hex_digit_exec(s.get_char(start + 3));
    let d4 = hex_digit_exec(s.get_char(start + 4));
    let d5 = hex_digit_exec(s.get_char(start + 5));
    if d0.is_none() || d1.is_none() || d2.is_none() || d3.is_none() || d4.is_none()
        || d5.is_none() {
        proof {
            assert(!(forall|i: int| 0 <= i < 6 ==> is_hex_digit(#[trigger] body[i])));
            assert(colour_body_of(body) == None::<Colour>);
        }
        return None;
    }
    let a = d0.unwrap();
    let b = d1.unwrap();
    let c = d2.unwrap();
    let d = d3.unwrap();
    let e = d4.unwrap();
    let f = d5.unwrap();
    proof {
        assert(forall|i: int| 0 <= i < 6 ==> is_hex_digit(#[trigger] body[i]));
        assert((16 * hex_val(body[0]) + hex_val(body[1])) as u8 == 16 * a + b);
        assert((16 * hex_val(body[2]) + hex_val(body[3])) as u8 == 16 * c + d);
        assert((16 * hex_val(body[4]) + hex_val(body[5])) as u8 == 16 * e + f);
    }
    Some(Colour { red: 16 * a + b, green: 16 * c + d, blue: 16 * e + f })
}

} // verus!
