//! The image of a program: its words as bytes, four to a word, the most
//! significant first.

use vstd::prelude::*;

verus! {

/// The word whose four bytes are `b0`, `b1`, `b2` and `b3`, the most
/// significant first.
pub open spec fn word_of_bytes(b0: u8, b1: u8, b2: u8, b3: u8) -> u32 {
    ((b0 as u32) << 24) | ((b1 as u32) << 16) | ((b2 as u32) << 8) | (b3 as u32)
}

/// Byte `k` of a word, counted from the most significant, `k` being 0, 1, 2
/// or 3.
pub open spec fn byte_of_word(word: u32, k: int) -> u8 {
    if k == 0 {
        (word >> 24) as u8
    } else if k == 1 {
        ((word >> 16) & 0xFF) as u8
    } else if k == 2 {
        ((word >> 8) & 0xFF) as u8
    } else {
        (word & 0xFF) as u8
    }
}

/// The image of a program: four bytes for each word, in the program's order.
pub open spec fn image_of(program: Seq<u32>) -> Seq<u8> {
    Seq::new(4 * program.len(), |i: int| byte_of_word(program[i / 4], i % 4))
}

/// The program in an image: one word for each full group of four bytes.
pub open spec fn program_of(image: Seq<u8>) -> Seq<u32> {
    Seq::new(
        image.len() / 4,
        |i: int| word_of_bytes(image[4 * i], image[4 * i + 1], image[4 * i + 2], image[4 * i + 3]),
    )
}

/// The four bytes of a word give the word back.
pub proof fn lemma_word_round_trip(word: u32)
    ensures
        word_of_bytes(
            byte_of_word(word, 0),
            byte_of_word(word, 1),
            byte_of_word(word, 2),
            byte_of_word(word, 3),
        ) == word,
{
    let b0 = (word >> 24) as u8;
    let b1 = ((word >> 16) & 0xFF) as u8;
    let b2 = ((word >> 8) & 0xFF) as u8;
    let b3 = (word & 0xFF) as u8;
    assert(((b0 as u32) << 24) | ((b1 as u32) << 16) | ((b2 as u32) << 8) | (b3 as u32) == word)
        by (bit_vector)
        requires
            b0 == (word >> 24) as u8,
            b1 == ((word >> 16) & 0xFF) as u8,
            b2 == ((word >> 8) & 0xFF) as u8,
            b3 == (word & 0xFF) as u8,
    ;
}

/// The word of four bytes has those four bytes.
pub proof fn lemma_bytes_round_trip(b0: u8, b1: u8, b2: u8, b3: u8)
    ensures
        byte_of_word(word_of_bytes(b0, b1, b2, b3), 0) == b0,
        byte_of_word(word_of_bytes(b0, b1, b2, b3), 1) == b1,
        byte_of_word(word_of_bytes(b0, b1, b2, b3), 2) == b2,
        byte_of_word(word_of_bytes(b0, b1, b2, b3), 3) == b3,
{
    let word = word_of_bytes(b0, b1, b2, b3);
    assert((word >> 24) as u8 == b0 && ((word >> 16) & 0xFF) as u8 == b1 && ((word >> 8) & 0xFF) as u8
        == b2 && (word & 0xFF) as u8 == b3) by (bit_vector)
        requires
            word == ((b0 as u32) << 24) | ((b1 as u32) << 16) | ((b2 as u32) << 8) | (b3 as u32),
    ;
}

/// A program that was written as an image and read back is the same program.
pub proof fn lemma_program_round_trip(program: Seq<u32>)
    ensures
        image_of(program).len() == 4 * program.len(),
        program_of(image_of(program)) == program,
{
    let image = image_of(program);
    assert forall|i: int| 0 <= i < program.len() implies program_of(image)[i] == program[i] by {
        lemma_word_round_trip(program[i]);
    }
}

/// An image of whole words that was read as a program and written back is
/// the same image.
pub proof fn lemma_image_round_trip(image: Seq<u8>)
    requires
        image.len() % 4 == 0,
    ensures
        image_of(program_of(image)) == image,
{
    let program = program_of(image);
    assert forall|j: int| 0 <= j < image.len() implies image_of(program)[j] == image[j] by {
        let i = j / 4;
        lemma_bytes_round_trip(image[4 * i], image[4 * i + 1], image[4 * i + 2], image[4 * i + 3]);
    }
}

/// Writes a program as its image.
pub fn to_image(program: &Vec<u32>) -> (image: Vec<u8>)
    ensures
        image@ == image_of(program@),
{
    let mut image: Vec<u8> = Vec::new();
    let mut i: usize = 0;
    while i < program.len()
        invariant
            i <= program.len(),
            image@.len() == 4 * i,
            forall|j: int| 0 <= j < 4 * i ==> image@[j] == byte_of_word(program@[j / 4], j % 4),
        decreases program.len() - i,
    {
        let word = program[i];
        assert((word >> 24) < 256 && (word >> 16) & 0xFF < 256 && (word >> 8) & 0xFF < 256 && word
            & 0xFF < 256) by (bit_vector);
        image.push((word >> 24) as u8);
        image.push(((word >> 16) & 0xFF) as u8);
        image.push(((word >> 8) & 0xFF) as u8);
        image.push((word & 0xFF) as u8);
        i = i + 1;
    }
    image
}

/// Reads the program in an image. An image whose length is no multiple of 4
/// holds no program.
pub fn from_image(image: &[u8]) -> (program: Option<Vec<u32>>)
    ensures
        match program {
            Some(words) => image@.len() % 4 == 0 && words@ == program_of(image@),
            None => image@.len() % 4 != 0,
        },
{
    if image.len() % 4 != 0 {
        return None;
    }
    let mut words: Vec<u32> = Vec::new();
    let mut i: usize = 0;
    while i < image.len()
        invariant
            image@.len() % 4 == 0,
            i % 4 == 0,
            i <= image@.len(),
            words@.len() == i / 4,
            forall|k: int| 0 <= k < words@.len() ==> words@[k] == program_of(image@)[k],
        decreases image@.len() - i,
    {
        let word = ((image[i] as u32) << 24) | ((image[i + 1] as u32) << 16) | ((image[i + 2] as u32)
            << 8) | (image[i + 3] as u32);
        words.push(word);
        i = i + 4;
    }
    Some(words)
}

} // verus!
