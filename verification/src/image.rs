//! Loading a memory image: a stream of big-endian words, of which the first is
//! the address where the second belongs.

use crate::vm::{Machine, MEMORY_MAX, VM};
use crate::word::{high_byte, low_byte};
use vstd::prelude::*;

verus! {

/// Why an image cannot be loaded.
#[derive(Clone, Copy, Debug, PartialEq, Eq, Structural)]
pub enum ImageError {
    /// The image is shorter than the two bytes of its origin.
    MissingOrigin,
    /// The image ends in the middle of a word.
    OddLength,
    /// The image has more words than memory holds from its origin on.
    PastEndOfMemory,
}

/// The word that two bytes make, the high byte first.
pub open spec fn be_word(hi: u8, lo: u8) -> u16 {
    (hi * 0x100 + lo) as u16
}

/// The address where an image wants its first word.
pub open spec fn image_origin(image: Seq<u8>) -> u16 {
    be_word(image[0], image[1])
}

/// The words of an image after its origin.
pub open spec fn image_words(image: Seq<u8>) -> Seq<u16> {
    Seq::new(
        ((image.len() - 2) / 2) as nat,
        |i: int| be_word(image[2 + 2 * i], image[3 + 2 * i]),
    )
}

/// What is wrong with an image, if anything.
pub open spec fn image_fault(image: Seq<u8>) -> Option<ImageError> {
    if image.len() < 2 {
        Some(ImageError::MissingOrigin)
    } else if image.len() % 2 != 0 {
        Some(ImageError::OddLength)
    } else if image_origin(image) + image_words(image).len() > MEMORY_MAX {
        Some(ImageError::PastEndOfMemory)
    } else {
        None
    }
}

/// The machine with `words` in memory from `origin` on, and all else as it was.
pub open spec fn loaded(m: Machine, origin: u16, words: Seq<u16>) -> Machine {
    Machine {
        regs: m.regs,
        mem: Seq::new(
            m.mem.len(),
            |a: int|
                if origin <= a < origin + words.len() {
                    words[a - origin]
                } else {
                    m.mem[a]
                },
        ),
    }
}

/// The image that puts `words` at `origin`: the origin and then each word,
/// the high byte first.
pub open spec fn image_of(origin: u16, words: Seq<u16>) -> Seq<u8> {
    Seq::new(
        2 + 2 * words.len(),
        |j: int|
            if j == 0 {
                high_byte(origin)
            } else if j == 1 {
                low_byte(origin)
            } else if j % 2 == 0 {
                high_byte(words[(j - 2) / 2])
            } else {
                low_byte(words[(j - 3) / 2])
            },
    )
}

/// Loading the image of `words` at `origin` finds nothing wrong with it where
/// the words fit, puts each word at its place, and leaves the rest of memory
/// and the registers alone.
pub proof fn lemma_image_round_trip(m: Machine, origin: u16, words: Seq<u16>)
    requires
        m.wf(),
        origin + words.len() <= MEMORY_MAX,
    ensures
        image_fault(image_of(origin, words)) is None,
        image_origin(image_of(origin, words)) == origin,
        image_words(image_of(origin, words)) == words,
        loaded(m, origin, words).wf(),
        loaded(m, origin, words).regs == m.regs,
        forall|i: int|
            0 <= i < words.len() ==> loaded(m, origin, words).mem[origin + i]
                == #[trigger] words[i],
        forall|a: int|
            0 <= a < MEMORY_MAX && !(origin <= a < origin + words.len())
                ==> loaded(m, origin, words).mem[a] == #[trigger] m.mem[a],
{
    let image = image_of(origin, words);
    assert(image_words(image) =~= words) by {
        assert forall|i: int| 0 <= i < words.len() implies #[trigger] image_words(image)[i]
            == words[i] by {
            assert((2 + 2 * i) % 2 == 0);
            assert((3 + 2 * i) % 2 == 1);
            assert((2 + 2 * i - 2) / 2 == i);
            assert((3 + 2 * i - 3) / 2 == i);
        }
    }
}

/// Makes a word of two bytes, the high byte first.
fn word_of(hi: u8, lo: u8) -> (w: u16)
    ensures
        w == be_word(hi, lo),
{
    assert(((hi as u16) << 8 | (lo as u16)) == hi * 0x100 + lo) by (bit_vector);
    (hi as u16) << 8 | (lo as u16)
}

/// Loads an image into memory. An image that is not whole, or does not fit,
/// is refused and leaves the machine as it was.
pub fn read_image(image: &[u8], vm: &mut VM) -> (r: Result<(), ImageError>)
    ensures
        match r {
            Ok(()) => image_fault(image@) is None && final(vm)@ == loaded(
                old(vm)@,
                image_origin(image@),
                image_words(image@),
            ),
            Err(e) => image_fault(image@) == Some(e) && final(vm)@ == old(vm)@,
        },
        r is Ok ==> forall|i: int|
            0 <= i < image_words(image@).len() ==> final(vm)@.mem[image_origin(image@) + i]
                == #[trigger] image_words(image@)[i],
{
    let ghost before = vm@;
    proof {
        use_type_invariant(&*vm);
    }
    if image.len() < 2 {
        return Err(ImageError::MissingOrigin);
    }
    if image.len() % 2 != 0 {
        return Err(ImageError::OddLength);
    }
    let origin: u16 = word_of(image[0], image[1]);
    let count: usize = (image.len() - 2) / 2;
    if count > MEMORY_MAX - origin as usize {
        return Err(ImageError::PastEndOfMemory);
    }
    let ghost words = image_words(image@);
    let mut address: u16 = origin;
    let mut i: usize = 0;
    proof {
        assert(vm@.mem =~= loaded(before, origin, words.take(0)).mem);
    }
    while i < count
        invariant
            i <= count,
            count == words.len(),
            words == image_words(image@),
            image@.len() == 2 + 2 * count,
            origin + count <= MEMORY_MAX,
            address as int == (origin + i) % 0x1_0000,
            before.wf(),
            vm@.wf(),
            vm@ == loaded(before, origin, words.take(i as int)),
        decreases count - i,
    {
        let w: u16 = word_of(image[2 + 2 * i], image[3 + 2 * i]);
        vm.write_memory(address, w);
        address = address.wrapping_add(1);
        i = i + 1;
        proof {
            assert(vm@.mem =~= loaded(before, origin, words.take(i as int)).mem);
        }
    }
    proof {
        assert(words.take(count as int) =~= words);
    }
    Ok(())
}

} // verus!
