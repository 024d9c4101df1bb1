//! Counting the lines of files picked by the end of their names. Reading the
//! directory and the files is the caller's part; what is decided and counted
//! is here.

use vstd::prelude::*;

verus! {

/// The line feed.
pub const LINE_FEED: u8 = 10;

/// Whether `name` ends in `ending`.
pub open spec fn ends_in(name: Seq<u8>, ending: Seq<u8>) -> bool {
    ending.len() <= name.len() && name.subrange(name.len() - ending.len(), name.len() as int)
        == ending
}

/// The number of line feeds in `text`.
pub open spec fn line_feeds(text: Seq<u8>) -> nat
    decreases text.len(),
{
    if text.len() == 0 {
        0
    } else {
        line_feeds(text.drop_last()) + if text.last() == LINE_FEED {
            1nat
        } else {
            0nat
        }
    }
}

/// The number of lines in `text`: every line feed ends a line, and what
/// follows the last line feed, if anything does, is a line too.
pub open spec fn line_count(text: Seq<u8>) -> nat {
    line_feeds(text) + if text.len() > 0 && text.last() != LINE_FEED {
        1nat
    } else {
        0nat
    }
}

/// There are no more line feeds than bytes.
pub proof fn lemma_line_feeds_bound(text: Seq<u8>)
    ensures
        line_feeds(text) <= text.len(),
        text.len() > 0 && text.last() != LINE_FEED ==> line_feeds(text) < text.len(),
    decreases text.len(),
{
    if text.len() > 0 {
        lemma_line_feeds_bound(text.drop_last());
    }
}

/// Whether `name` ends in `ending`.
pub fn ends_with(name: &[u8], ending: &[u8]) -> (r: bool)
    ensures
        r == ends_in(name@, ending@),
{
    if ending.len() > name.len() {
        return false;
    }
    let offset = name.len() - ending.len();
    let mut i: usize = 0;
    while i < ending.len()
        invariant
            offset + ending.len() == name.len(),
            i <= ending.len(),
            forall|j: int| 0 <= j < i ==> name@[offset + j] == ending@[j],
        decreases ending.len() - i,
    {
        if name[offset + i] != ending[i] {
            proof {
                let tail = name@.subrange(name@.len() - ending@.len(), name@.len() as int);
                assert(tail[i as int] == name@[offset + i]);
            }
            return false;
        }
        i += 1;
    }
    proof {
        assert(name@.subrange(name@.len() - ending@.len(), name@.len() as int) =~= ending@);
    }
    true
}

/// Whether a directory entry is one whose lines are counted: it is no
/// directory, and its name ends in `ending`.
pub fn selects(is_dir: bool, name: &[u8], ending: &[u8]) -> (r: bool)
    ensures
        r == (!is_dir && ends_in(name@, ending@)),
{
    !is_dir && ends_with(name, ending)
}

/// The number of lines in `text`.
pub fn lines_in(text: &[u8]) -> (n: usize)
    ensures
        n == line_count(text@),
{
    let mut n: usize = 0;
    let mut i: usize = 0;
    while i < text.len()
        invariant
            i <= text.len(),
            n == line_feeds(text@.take(i as int)),
            n <= i,
        decreases text.len() - i,
    {
        proof {
            assert(text@.take(i + 1).drop_last() =~= text@.take(i as int));
        }
        if text[i] == LINE_FEED {
            n += 1;
        }
        i += 1;
    }
    proof {
        assert(text@.take(i as int) =~= text@);
        lemma_line_feeds_bound(text@);
    }
    if text.len() > 0 && text[text.len() - 1] != LINE_FEED {
        n += 1;
    }
    n
}

/// `counter` with the lines of `text` added; `None` where the sum is more
/// than the counter can hold.
pub fn add_lines(counter: u32, text: &[u8]) -> (r: Option<u32>)
    ensures
        r == if counter + line_count(text@) <= u32::MAX {
            Some((counter + line_count(text@)) as u32)
        } else {
            None
        },
{
    let lines = lines_in(text);
    if lines > (u32::MAX - counter) as usize {
        None
    } else {
        Some(counter + lines as u32)
    }
}

} // verus!
