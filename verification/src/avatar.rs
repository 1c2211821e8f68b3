//! Monograms: a stable hue and an initial for each user.

use vstd::prelude::*;
use vstd::string::*;
use vstd::utf8::*;
use crate::text::chars_of;

verus! {

/// A product of 32 bits.
pub open spec fn wrapped(a: u32, b: u32) -> u32 {
    ((a * b) % 0x1_0000_0000) as u32
}

/// The bytes of a name, hashed one after the other.
pub open spec fn hashed(bytes: Seq<u8>) -> u32
    decreases bytes.len(),
{
    if bytes.len() == 0 {
        2_166_136_261
    } else {
        wrapped(hashed(bytes.drop_last()) ^ (bytes.last() as u32), 16_777_619)
    }
}

/// A hash, its bits mixed: names that are alike end up far apart.
pub open spec fn mixed(h: u32) -> u32 {
    let once = wrapped(h ^ (h >> 16), 0x45d9f3b);
    once ^ (once >> 16)
}

/// The hue of a name, in degrees.
pub open spec fn hue(name: Seq<char>) -> u32 {
    mixed(hashed(encode_utf8(name))) % 360
}

/// The hue of a name, in degrees: the same for the same name.
pub fn hue_for(name: &str) -> (r: u32)
    ensures
        r == hue(name@),
        r < 360,
{
    let bytes = name.as_bytes();
    let mut h: u32 = 2_166_136_261;
    let mut i: usize = 0;
    assert(bytes@.take(0) =~= Seq::empty());
    while i < bytes.len()
        invariant
            i <= bytes@.len(),
            h == hashed(bytes@.take(i as int)),
        decreases bytes@.len() - i,
    {
        assert(bytes@.take(i + 1).drop_last() =~= bytes@.take(i as int));
        h = (h ^ (bytes[i] as u32)).wrapping_mul(16_777_619);
        i += 1;
    }
    assert(bytes@.take(bytes@.len() as int) =~= bytes@);
    h = (h ^ (h >> 16)).wrapping_mul(0x45d9f3b);
    h = h ^ (h >> 16);
    h % 360
}

/// What `char::to_uppercase` makes of a character.
pub uninterp spec fn uppercase(c: char) -> Seq<char>;

/// `char::to_uppercase` of std, by name: the Unicode uppercase mapping of one
/// character, which may take more than one.
#[verifier::external_body]
fn to_upper(c: char) -> (r: String)
    ensures
        r@ == uppercase(c),
{
    c.to_uppercase().to_string()
}

/// The initial of a name, in upper case; nothing for the empty name.
pub fn initial(name: &str) -> (r: String)
    ensures
        r@ == if name@.len() == 0 {
            Seq::empty()
        } else {
            uppercase(name@[0])
        },
{
    let v = chars_of(name);
    if v.len() == 0 {
        let r = String::new();
        assert(r@ =~= Seq::empty());
        return r;
    }
    to_upper(v[0])
}

/// The hash of a name goes byte by byte, as FNV-1a does in 32 bits.
pub proof fn law_the_hash_goes_by_byte(bytes: Seq<u8>, b: u8)
    ensures
        hashed(Seq::empty()) == 0x811c_9dc5u32,
        hashed(bytes.push(b)) == ((hashed(bytes) ^ (b as u32)) * 0x0100_0193) % 0x1_0000_0000,
{
    assert(bytes.push(b).drop_last() =~= bytes);
}

/// A hash is mixed by laying its upper half over its lower one, before and after
/// a multiplication in 32 bits.
pub proof fn law_the_halves_are_mixed(h: u32)
    ensures
        ({
            let a = h ^ (h / 65_536);
            let b = ((a * 73_244_475) % 4_294_967_296) as u32;
            mixed(h) == b ^ (b / 65_536)
        }),
{
    let a = h ^ (h / 65_536);
    let b = ((a * 73_244_475) % 4_294_967_296) as u32;
    assert(h >> 16 == h / 65_536) by (bit_vector);
    assert(b >> 16 == b / 65_536) by (bit_vector);
}

/// The hue of a name is what its mixed hash leaves over of whole turns.
pub proof fn law_a_hue_is_part_of_a_turn(name: Seq<char>)
    ensures
        0 <= hue(name) < 360,
        (mixed(hashed(encode_utf8(name))) - hue(name)) % 360 == 0,
{
}

} // verus!
