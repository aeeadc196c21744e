use vstd::prelude::*;
use vstd::string::StrSliceExecFns;

verus! {

/// Why an HTML color code could not be read.
#[derive(PartialEq, Eq, Structural, Copy, Clone, Debug)]
pub enum HtmlColorConversionError {
    InvalidStringLength,
    MissingHash,
    InvalidCharacter,
}

/// The value of a hexadecimal digit, in either case.
pub open spec fn hex_value(c: char) -> Option<u32> {
    let v = c as u32;
    if 48 <= v <= 57 {
        Some((v - 48) as u32)
    } else if 97 <= v <= 102 {
        Some((v - 87) as u32)
    } else if 65 <= v <= 70 {
        Some((v - 55) as u32)
    } else {
        None
    }
}

/// The value of a hexadecimal digit, if `c` is one.
fn hex_digit(c: char) -> (r: Option<u32>)
    ensures
        r == hex_value(c),
        r.is_some() ==> r.unwrap() < 16,
{
    let v = c as u32;
    if 48 <= v && v <= 57 {
        Some(v - 48)
    } else if 97 <= v && v <= 102 {
        Some(v - 87)
    } else if 65 <= v && v <= 70 {
        Some(v - 55)
    } else {
        None
    }
}

/// The first fault among the six digits of a color code, from position `i` on, or
/// the code running on past them.
pub open spec fn digits_error(s: Seq<char>, i: int) -> Option<HtmlColorConversionError>
    decreases 7 - i,
{
    if i >= 7 {
        if s.len() > 7 {
            Some(HtmlColorConversionError::InvalidStringLength)
        } else {
            None
        }
    } else if i >= s.len() {
        Some(HtmlColorConversionError::InvalidStringLength)
    } else if hex_value(s[i]).is_none() {
        Some(HtmlColorConversionError::InvalidCharacter)
    } else {
        digits_error(s, i + 1)
    }
}

/// Why `s` is no HTML color code `#rrggbb`, read from the left, if it is not one.
pub open spec fn html_color_error(s: Seq<char>) -> Option<HtmlColorConversionError> {
    if s.len() == 0 {
        Some(HtmlColorConversionError::InvalidStringLength)
    } else if s[0] != '#' {
        Some(HtmlColorConversionError::MissingHash)
    } else {
        digits_error(s, 1)
    }
}

/// The byte written by the two hexadecimal digits at `i` and `i + 1`.
pub open spec fn hex_byte(s: Seq<char>, i: int) -> u8 {
    (hex_value(s[i]).unwrap() * 16 + hex_value(s[i + 1]).unwrap()) as u8
}

/// Reads an HTML color code `#rrggbb` into its red, green and blue bytes.
pub fn parse_html_color(code: &str) -> (r: Result<(u8, u8, u8), HtmlColorConversionError>)
    ensures
        match html_color_error(code@) {
            Some(e) => r == Err::<(u8, u8, u8), HtmlColorConversionError>(e),
            None => r == Ok::<(u8, u8, u8), HtmlColorConversionError>(
                (hex_byte(code@, 1), hex_byte(code@, 3), hex_byte(code@, 5)),
            ),
        },
{
    let len = code.unicode_len();
    if len == 0 {
        return Err(HtmlColorConversionError::InvalidStringLength);
    }
    if code.get_char(0) != '#' {
        return Err(HtmlColorConversionError::MissingHash);
    }
    let mut digits: Vec<u32> = Vec::new();
    let mut i: usize = 1;
    while i < 7
        invariant
            1 <= i <= 7,
            len == code@.len(),
            code@.len() > 0,
            i <= len,
            code@[0] == '#',
            digits@.len() == i - 1,
            forall|j: int| 1 <= j < i ==> hex_value(#[trigger] code@[j]).is_some(),
            forall|j: int|
                0 <= j < i - 1 ==> #[trigger] digits@[j] == hex_value(code@[j + 1]).unwrap()
                    && digits@[j] < 16,
            html_color_error(code@) == digits_error(code@, i as int),
        decreases 7 - i,
    {
        if i >= len {
            return Err(HtmlColorConversionError::InvalidStringLength);
        }
        match hex_digit(code.get_char(i)) {
            Some(v) => {
                digits.push(v);
            },
            None => {
                return Err(HtmlColorConversionError::InvalidCharacter);
            },
        }
        i = i + 1;
    }
    if len > 7 {
        return Err(HtmlColorConversionError::InvalidStringLength);
    }
    assert(digits@[0] == hex_value(code@[1]).unwrap());
    assert(digits@[1] == hex_value(code@[2]).unwrap());
    assert(digits@[2] == hex_value(code@[3]).unwrap());
    assert(digits@[3] == hex_value(code@[4]).unwrap());
    assert(digits@[4] == hex_value(code@[5]).unwrap());
    assert(digits@[5] == hex_value(code@[6]).unwrap());
    let red = (digits[0] * 16 + digits[1]) as u8;
    let green = (digits[2] * 16 + digits[3]) as u8;
    let blue = (digits[4] * 16 + digits[5]) as u8;
    Ok((red, green, blue))
}

} // verus!
