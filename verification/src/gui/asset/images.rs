//! What is read of image files.

use vstd::prelude::*;

verus! {

/// How many bytes of a PNG file its dimensions take to read.
pub const PNG_HEADER: usize = 24;

/// The bytes every PNG file begins with.
pub open spec fn png_signature() -> Seq<u8> {
    seq![0x89u8, 0x50u8, 0x4eu8, 0x47u8, 0x0du8, 0x0au8, 0x1au8, 0x0au8]
}

/// The number four bytes hold, most significant first.
pub open spec fn big_endian(bytes: Seq<u8>, at: int) -> int {
    bytes[at] * 0x100_0000 + bytes[at + 1] * 0x1_0000 + bytes[at + 2] * 0x100 + bytes[at + 3]
}

/// Whether a file begins like a PNG image that is long enough to have
/// dimensions.
pub open spec fn is_png(file: Seq<u8>) -> bool {
    file.len() >= PNG_HEADER && file.take(8) == png_signature()
}

fn number(bytes: &[u8], at: usize) -> (n: u32)
    requires
        at + 4 <= bytes@.len(),
        at < 0x100,
    ensures
        n == big_endian(bytes@, at as int),
{
    let a: u32 = bytes[at] as u32;
    let b: u32 = bytes[at + 1] as u32;
    let c: u32 = bytes[at + 2] as u32;
    let d: u32 = bytes[at + 3] as u32;
    a * 0x100_0000 + b * 0x1_0000 + c * 0x100 + d
}

/// The width and height in the header of a PNG file, out of the bytes it begins
/// with; `None` for any other file.
pub fn read_png_dimensions(file: &[u8]) -> (dimensions: Option<(u32, u32)>)
    ensures
        match dimensions {
            Some((width, height)) => is_png(file@) && width == big_endian(file@, 16) && height
                == big_endian(file@, 20),
            None => !is_png(file@),
        },
{
    if file.len() < PNG_HEADER {
        return None;
    }
    let signature: [u8; 8] = [0x89, 0x50, 0x4e, 0x47, 0x0d, 0x0a, 0x1a, 0x0a];
    assert(signature@ =~= png_signature());
    let mut i: usize = 0;
    while i < 8
        invariant
            i <= 8,
            file@.len() >= PNG_HEADER,
            signature@ == png_signature(),
            forall|j: int| 0 <= j < i ==> file@[j] == png_signature()[j],
        decreases 8 - i,
    {
        if file[i] != signature[i] {
            assert(file@.take(8)[i as int] != png_signature()[i as int]);
            return None;
        }
        i += 1;
    }
    assert(file@.take(8) =~= png_signature());
    Some((number(file, 16), number(file, 20)))
}

/// A file has dimensions exactly where it is at least 24 bytes long and begins
/// with the eight bytes of the PNG signature; they are the two numbers at 16 and
/// at 20, most significant byte first.
pub proof fn law_png_dimensions_stand_in_the_header(file: Seq<u8>)
    ensures
        is_png(file) <==> file.len() >= 24 && file[0] == 0x89 && file[1] == 0x50 && file[2] == 0x4e
            && file[3] == 0x47 && file[4] == 0x0d && file[5] == 0x0a && file[6] == 0x1a && file[7]
            == 0x0a,
        big_endian(file, 16) == ((file[16] * 256 + file[17]) * 256 + file[18]) * 256 + file[19],
        big_endian(file, 20) == ((file[20] * 256 + file[21]) * 256 + file[22]) * 256 + file[23],
{
    if file.len() >= 24 {
        let head = file.take(8);
        assert(head[0] == file[0] && head[1] == file[1] && head[2] == file[2] && head[3]
            == file[3] && head[4] == file[4] && head[5] == file[5] && head[6] == file[6]
            && head[7] == file[7]);
        if file[0] == 0x89 && file[1] == 0x50 && file[2] == 0x4e && file[3] == 0x47 && file[4]
            == 0x0d && file[5] == 0x0a && file[6] == 0x1a && file[7] == 0x0a {
            assert(head =~= png_signature());
        }
    }
}

/// What is read of a file are the two numbers in its header, and nothing exactly
/// where it is too short or does not begin with the signature.
pub proof fn law_reading_takes_the_numbers_of_the_header(
    file: &[u8],
    dimensions: Option<(u32, u32)>,
)
    requires
        call_ensures(read_png_dimensions, (file,), dimensions),
    ensures
        dimensions is Some <==> file@.len() >= 24 && file@[0] == 0x89 && file@[1] == 0x50
            && file@[2] == 0x4e && file@[3] == 0x47 && file@[4] == 0x0d && file@[5] == 0x0a
            && file@[6] == 0x1a && file@[7] == 0x0a,
        dimensions matches Some(d) ==> d.0 == ((file@[16] * 256 + file@[17]) * 256 + file@[18])
            * 256 + file@[19],
        dimensions matches Some(d) ==> d.1 == ((file@[20] * 256 + file@[21]) * 256 + file@[22])
            * 256 + file@[23],
{
    law_png_dimensions_stand_in_the_header(file@);
}

} // verus!
