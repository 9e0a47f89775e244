//! Row identifiers: server-side generation, and the canonical text form
//! used in Location headers (lowercase hexadecimal in five groups of
//! 8-4-4-4-12 digits, the groups separated by hyphens).

use vstd::prelude::*;
use vstd::string::StringExecFns;

verus! {

/// Sixteen to the fourth power: one group of four hexadecimal digits.
pub const GROUP4: u128 = 0x10000;

/// Sixteen to the twelfth power: the trailing group of twelve digits.
pub const GROUP12: u128 = 0x1000000000000;

/// Sixteen to the sixteenth power.
pub const GROUP16: u128 = 0x10000000000000000;

/// Sixteen to the twentieth power.
pub const GROUP20: u128 = 0x100000000000000000000;

/// Sixteen to the twenty-fourth power: what precedes the leading group of
/// eight digits.
pub const GROUP24: u128 = 0x1000000000000000000000000;

/// Relies on uuid::Uuid::new_v4: draws a fresh random version-4 UUID; its
/// 128-bit value is returned. The draw is random, so nothing is promised of
/// the value.
#[verifier::external_body]
pub fn generate_id() -> u128 {
    uuid::Uuid::new_v4().as_u128()
}

/// The lowercase hexadecimal digit for a nibble value.
pub open spec fn hex_digit(d: int) -> char {
    if d == 0 {
        '0'
    } else if d == 1 {
        '1'
    } else if d == 2 {
        '2'
    } else if d == 3 {
        '3'
    } else if d == 4 {
        '4'
    } else if d == 5 {
        '5'
    } else if d == 6 {
        '6'
    } else if d == 7 {
        '7'
    } else if d == 8 {
        '8'
    } else if d == 9 {
        '9'
    } else if d == 10 {
        'a'
    } else if d == 11 {
        'b'
    } else if d == 12 {
        'c'
    } else if d == 13 {
        'd'
    } else if d == 14 {
        'e'
    } else {
        'f'
    }
}

/// The low `digits` hexadecimal digits of `v`, most significant first.
pub open spec fn hex_chars(v: int, digits: nat) -> Seq<char>
    decreases digits,
{
    if digits == 0 {
        Seq::empty()
    } else {
        hex_chars(v / 16, (digits - 1) as nat).push(hex_digit(v % 16))
    }
}

/// The canonical text of a 128-bit identifier: its thirty-two hexadecimal
/// digits in groups of 8-4-4-4-12, separated by hyphens.
pub open spec fn uuid_chars(v: u128) -> Seq<char> {
    hex_chars(v as int / GROUP24 as int, 8) + seq!['-'] + hex_chars(
        (v as int / GROUP20 as int) % GROUP4 as int,
        4,
    ) + seq!['-'] + hex_chars((v as int / GROUP16 as int) % GROUP4 as int, 4) + seq!['-']
        + hex_chars((v as int / GROUP12 as int) % GROUP4 as int, 4) + seq!['-'] + hex_chars(
        v as int % GROUP12 as int,
        12,
    )
}

/// Append the low `digits` hexadecimal digits of `v`, most significant
/// first.
fn push_hex(s: &mut String, v: u128, digits: usize)
    ensures
        final(s)@ == old(s)@ + hex_chars(v as int, digits as nat),
    decreases digits,
{
    if digits == 0 {
        proof {
            assert(s@ =~= s@ + hex_chars(v as int, 0));
        }
        return ;
    }
    push_hex(s, v / 16, digits - 1);
    let d: u128 = v % 16;
    let c: &str = if d == 0 {
        "0"
    } else if d == 1 {
        "1"
    } else if d == 2 {
        "2"
    } else if d == 3 {
        "3"
    } else if d == 4 {
        "4"
    } else if d == 5 {
        "5"
    } else if d == 6 {
        "6"
    } else if d == 7 {
        "7"
    } else if d == 8 {
        "8"
    } else if d == 9 {
        "9"
    } else if d == 10 {
        "a"
    } else if d == 11 {
        "b"
    } else if d == 12 {
        "c"
    } else if d == 13 {
        "d"
    } else if d == 14 {
        "e"
    } else {
        "f"
    };
    proof {
        reveal_strlit("0");
        reveal_strlit("1");
        reveal_strlit("2");
        reveal_strlit("3");
        reveal_strlit("4");
        reveal_strlit("5");
        reveal_strlit("6");
        reveal_strlit("7");
        reveal_strlit("8");
        reveal_strlit("9");
        reveal_strlit("a");
        reveal_strlit("b");
        reveal_strlit("c");
        reveal_strlit("d");
        reveal_strlit("e");
        reveal_strlit("f");
        assert(c@ =~= seq![hex_digit(v as int % 16)]);
    }
    s.append(c);
    proof {
        assert(s@ =~= old(s)@ + hex_chars(v as int, digits as nat));
    }
}

/// The canonical text of an identifier, as [`uuid_chars`] lays it out.
pub fn uuid_hyphenated(v: u128) -> (r: String)
    ensures
        r@ == uuid_chars(v),
{
    let mut s = String::new();
    push_hex(&mut s, v / GROUP24, 8);
    s.append("-");
    push_hex(&mut s, (v / GROUP20) % GROUP4, 4);
    s.append("-");
    push_hex(&mut s, (v / GROUP16) % GROUP4, 4);
    s.append("-");
    push_hex(&mut s, (v / GROUP12) % GROUP4, 4);
    s.append("-");
    push_hex(&mut s, v % GROUP12, 12);
    proof {
        reveal_strlit("-");
        assert("-"@ =~= seq!['-']);
        assert(s@ =~= uuid_chars(v));
    }
    s
}

/// The Location of a brand: `brand/` followed by the id's canonical text.
pub open spec fn brand_uri_chars(id: u128) -> Seq<char> {
    "brand/"@ + uuid_chars(id)
}

/// The Location header value for a created brand.
pub fn brand_uri(id: u128) -> (r: String)
    ensures
        r@ == brand_uri_chars(id),
{
    let mut s = "brand/".to_owned();
    let u = uuid_hyphenated(id);
    s.append(u.as_str());
    proof {
        assert(s@ =~= brand_uri_chars(id));
    }
    s
}

/// The Location of a brand-model: the parent brand's Location, `/model/`,
/// then the model id's canonical text.
pub open spec fn brand_model_uri_chars(brand_id: u128, id: u128) -> Seq<char> {
    "brand/"@ + uuid_chars(brand_id) + "/model/"@ + uuid_chars(id)
}

/// The Location header value for a created brand-model.
pub fn brand_model_uri(brand_id: u128, id: u128) -> (r: String)
    ensures
        r@ == brand_model_uri_chars(brand_id, id),
{
    let mut s = "brand/".to_owned();
    let b = uuid_hyphenated(brand_id);
    s.append(b.as_str());
    s.append("/model/");
    let m = uuid_hyphenated(id);
    s.append(m.as_str());
    proof {
        assert(s@ =~= brand_model_uri_chars(brand_id, id));
    }
    s
}

} // verus!
