//! The low bytes of a word, for the cells from `ap` on.

use crate::bytes::be_bytes;
use crate::uint256::U256;
use vstd::prelude::*;

verus! {

/// The `width` low-order bytes of `word`, most significant first: what the
/// host writes, one byte to a cell, from `ap` on.
pub fn write_word(word: &U256, width: usize) -> (written: Vec<u8>)
    requires
        width <= 32,
    ensures
        written@ == be_bytes(word@, 32).subrange(32 - width, 32),
        written@ == be_bytes(word@, width as nat),
{
    let bytes = word.to_be_bytes();
    let mut written: Vec<u8> = Vec::new();
    let mut i: usize = 32 - width;
    while i < 32
        invariant
            32 - width <= i <= 32,
            width <= 32,
            written@ == bytes@.subrange(32 - width, i as int),
        decreases 32 - i,
    {
        written.push(bytes[i]);
        i = i + 1;
    }
    proof {
        lemma_be_bytes_suffix(word@, 32, width as nat);
    }
    written
}

/// The low `short` bytes of a number are the end of its low `long` bytes.
pub proof fn lemma_be_bytes_suffix(n: nat, long: nat, short: nat)
    requires
        short <= long,
    ensures
        be_bytes(n, long).len() == long,
        be_bytes(n, long).subrange(long - short, long as int) == be_bytes(n, short),
    decreases short,
{
    crate::bytes::lemma_be_bytes_len(n, long);
    crate::bytes::lemma_be_bytes_len(n, short);
    if short == 0 {
        assert(be_bytes(n, long).subrange(long - short, long as int) =~= be_bytes(n, short));
    } else {
        lemma_be_bytes_suffix(n / 256, (long - 1) as nat, (short - 1) as nat);
        assert(be_bytes(n, long).subrange(long - short, long as int) =~= be_bytes(
            n / 256,
            (long - 1) as nat,
        ).subrange(long - short, long - 1).push((n % 256) as u8));
    }
}

pub const HINT_WRITE_2: &'static str =
    "from tools.py.hints import write_word_to_memory\nwrite_word_to_memory(ids.word, 2, memory, ap)";

/// The two low bytes of `word`, most significant first.
pub fn hint_write_2(word: &U256) -> (written: Vec<u8>)
    ensures
        written@ == be_bytes(word@, 2),
{
    write_word(word, 2)
}

pub const HINT_WRITE_3: &'static str =
    "from tools.py.hints import write_word_to_memory\nwrite_word_to_memory(ids.word, 3, memory, ap)";

/// The three low bytes of `word`, most significant first.
pub fn hint_write_3(word: &U256) -> (written: Vec<u8>)
    ensures
        written@ == be_bytes(word@, 3),
{
    write_word(word, 3)
}

pub const HINT_WRITE_4: &'static str =
    "from tools.py.hints import write_word_to_memory\nwrite_word_to_memory(ids.word, 4, memory, ap)";

/// The four low bytes of `word`, most significant first.
pub fn hint_write_4(word: &U256) -> (written: Vec<u8>)
    ensures
        written@ == be_bytes(word@, 4),
{
    write_word(word, 4)
}

pub const HINT_WRITE_5: &'static str =
    "from tools.py.hints import write_word_to_memory\nwrite_word_to_memory(ids.word, 5, memory, ap)";

/// The five low bytes of `word`, most significant first.
pub fn hint_write_5(word: &U256) -> (written: Vec<u8>)
    ensures
        written@ == be_bytes(word@, 5),
{
    write_word(word, 5)
}

pub const HINT_WRITE_6: &'static str =
    "from tools.py.hints import write_word_to_memory\nwrite_word_to_memory(ids.word, 6, memory, ap)";

/// The six low bytes of `word`, most significant first.
pub fn hint_write_6(word: &U256) -> (written: Vec<u8>)
    ensures
        written@ == be_bytes(word@, 6),
{
    write_word(word, 6)
}

pub const HINT_WRITE_7: &'static str =
    "from tools.py.hints import write_word_to_memory\nwrite_word_to_memory(ids.word, 7, memory, ap)";

/// The seven low bytes of `word`, most significant first.
pub fn hint_write_7(word: &U256) -> (written: Vec<u8>)
    ensures
        written@ == be_bytes(word@, 7),
{
    write_word(word, 7)
}

} // verus!
