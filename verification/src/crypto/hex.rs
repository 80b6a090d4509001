//! Hexadecimal text of bytes.

use vstd::prelude::*;

verus! {

/// The lower-case hexadecimal digit of a value below sixteen.
pub open spec fn hex_digit(nibble: int) -> char {
    if nibble == 0 {
        '0'
    } else if nibble == 1 {
        '1'
    } else if nibble == 2 {
        '2'
    } else if nibble == 3 {
        '3'
    } else if nibble == 4 {
        '4'
    } else if nibble == 5 {
        '5'
    } else if nibble == 6 {
        '6'
    } else if nibble == 7 {
        '7'
    } else if nibble == 8 {
        '8'
    } else if nibble == 9 {
        '9'
    } else if nibble == 10 {
        'a'
    } else if nibble == 11 {
        'b'
    } else if nibble == 12 {
        'c'
    } else if nibble == 13 {
        'd'
    } else if nibble == 14 {
        'e'
    } else {
        'f'
    }
}

/// The lower-case hexadecimal text of `bytes`: two digits for each byte,
/// the high half first.
pub open spec fn hex_text(bytes: Seq<u8>) -> Seq<char> {
    Seq::new(
        2 * bytes.len(),
        |i: int|
            if i % 2 == 0 {
                hex_digit(bytes[i / 2] as int / 16)
            } else {
                hex_digit(bytes[i / 2] as int % 16)
            },
    )
}

fn digit_text(nibble: u8) -> (r: &'static str)
    requires
        nibble < 16,
    ensures
        r@ == seq![hex_digit(nibble as int)],
{
    proof {
        reveal_strlit("0");
        reveal_strlit("1");
        reveal_strlit("2");
        reveal_strlit("3");
        reveal_strlit("4");
        reveal_strlit("5");
        reveal_strlit("6");
        reveal_strlit("7");
        reveal_strlit("8");
        reveal_strlit("9");
        reveal_strlit("a");
        reveal_strlit("b");
        reveal_strlit("c");
        reveal_strlit("d");
        reveal_strlit("e");
        reveal_strlit("f");
    }
    let r = match nibble {
        0 => "0",
        1 => "1",
        2 => "2",
        3 => "3",
        4 => "4",
        5 => "5",
        6 => "6",
        7 => "7",
        8 => "8",
        9 => "9",
        10 => "a",
        11 => "b",
        12 => "c",
        13 => "d",
        14 => "e",
        _ => "f",
    };
    r
}

/// Writes `bytes` as lower-case hexadecimal text.
pub fn to_hex(bytes: &[u8]) -> (r: String)
    ensures
        r@ == hex_text(bytes@),
{
    let mut out = String::new();
    let mut i: usize = 0;
    while i < bytes.len()
        invariant
            i <= bytes@.len(),
            out@ == hex_text(bytes@.take(i as int)),
        decreases bytes@.len() - i,
    {
        let b: u8 = bytes[i];
        out.append(digit_text(b / 16));
        out.append(digit_text(b % 16));
        i += 1;
    }
    out
}

/// The value of a hexadecimal digit, lower-case or upper-case, given by
/// its code.
pub open spec fn digit_value(code: int) -> Option<int> {
    if 48 <= code <= 57 {
        Some(code - 48)
    } else if 97 <= code <= 102 {
        Some(code - 87)
    } else if 65 <= code <= 70 {
        Some(code - 55)
    } else {
        None
    }
}

/// Whether a text is hexadecimal: an even number of hexadecimal digits.
pub open spec fn is_hex(text: Seq<char>) -> bool {
    &&& text.len() % 2 == 0
    &&& forall|i: int| 0 <= i < text.len() ==> digit_value(#[trigger] text[i] as int) is Some
}

/// The bytes that a hexadecimal text stands for: one byte for each two
/// digits, the high half first. `None` for a text that is not hexadecimal.
pub open spec fn hex_bytes(text: Seq<char>) -> Option<Seq<u8>> {
    if is_hex(text) {
        Some(
            Seq::new(
                text.len() / 2,
                |k: int|
                    (16 * digit_value(text[2 * k] as int).unwrap() + digit_value(
                        text[2 * k + 1] as int,
                    ).unwrap()) as u8,
            ),
        )
    } else {
        None
    }
}

/// Reading the text of bytes gives the bytes back.
pub proof fn lemma_hex_round_trip(bytes: Seq<u8>)
    ensures
        hex_bytes(hex_text(bytes)) == Some(bytes),
{
}

fn digit_of(byte: u8) -> (r: Option<u8>)
    ensures
        match r {
            Some(value) => digit_value(byte as int) == Some(value as int) && value < 16,
            None => digit_value(byte as int) is None,
        },
{
    if 48 <= byte && byte <= 57 {
        Some(byte - 48)
    } else if 97 <= byte && byte <= 102 {
        Some(byte - 87)
    } else if 65 <= byte && byte <= 70 {
        Some(byte - 55)
    } else {
        None
    }
}

/// Reads the bytes that a hexadecimal text stands for, if it is one.
pub fn from_hex(text: &str) -> (r: Option<Vec<u8>>)
    ensures
        match r {
            Some(bytes) => hex_bytes(text@) == Some(bytes@),
            None => hex_bytes(text@) is None,
        },
{
    if !text.is_ascii() {
        return None;
    }
    let raw = text.as_bytes();
    proof {
        vstd::string::is_ascii_spec_bytes(text);
    }
    if raw.len() % 2 != 0 {
        return None;
    }
    let mut out: Vec<u8> = Vec::new();
    let mut i: usize = 0;
    while i < raw.len()
        invariant
            i % 2 == 0,
            i <= raw@.len(),
            raw@.len() % 2 == 0,
            raw@.len() == text@.len(),
            forall|j: int| 0 <= j < raw@.len() ==> raw@[j] as int == #[trigger] text@[j] as int,
            forall|j: int| 0 <= j < i ==> digit_value(#[trigger] text@[j] as int) is Some,
            out@.len() == i / 2,
            forall|k: int|
                0 <= k < i / 2 ==> #[trigger] out@[k] == (16 * digit_value(
                    text@[2 * k] as int,
                ).unwrap() + digit_value(text@[2 * k + 1] as int).unwrap()) as u8,
        decreases raw@.len() - i,
    {
        let high = match digit_of(raw[i]) {
            Some(value) => value,
            None => {
                assert(digit_value(text@[i as int] as int) is None);
                return None;
            },
        };
        let low = match digit_of(raw[i + 1]) {
            Some(value) => value,
            None => {
                assert(digit_value(text@[i + 1] as int) is None);
                return None;
            },
        };
        out.push(16 * high + low);
        i += 2;
    }
    Some(out)
}

} // verus!
