use vstd::prelude::*;

use crate::naming::{append_padded_digits, padded_digits};

verus! {

/// The decimal digits of `n`, without padding.
pub open spec fn decimal(n: nat) -> Seq<char> {
    padded_digits(n, 1)
}

/// The listed entries of a backpack: `name: count` for each entry with a positive count,
/// each followed by two spaces.
pub open spec fn entries_text(contents: Seq<(String, usize)>) -> Seq<char>
    decreases contents.len(),
{
    if contents.len() == 0 {
        Seq::empty()
    } else {
        let (name, count) = contents.last();
        entries_text(contents.drop_last()) + if count > 0 {
            name@ + ": "@ + decimal(count as nat) + "  "@
        } else {
            Seq::empty()
        }
    }
}

/// The summary of a backpack of capacity `size` holding `contents`.
pub open spec fn backpack_text(size: nat, contents: Seq<(String, usize)>) -> Seq<char> {
    if size > 0 && contents.len() > 0 {
        "Backpack (Size: "@ + decimal(size) + "):  "@ + entries_text(contents)
    } else {
        "Empty backpack"@
    }
}

/// Writes a backpack's contents as one line of text: its size, then each kind of item it
/// holds with its count; an empty backpack reads "Empty backpack".
pub fn backpack_to_text(size: usize, contents: &Vec<(String, usize)>) -> (r: String)
    ensures
        r@ == backpack_text(size as nat, contents@),
{
    if size > 0 && contents.len() > 0 {
        let mut out = String::from_str("Backpack (Size: ");
        append_padded_digits(&mut out, size, 1);
        out.append("):  ");
        let ghost head = out@;
        let mut i: usize = 0;
        while i < contents.len()
            invariant
                i <= contents@.len(),
                out@ == head + entries_text(contents@.take(i as int)),
            decreases contents@.len() - i,
        {
            let ghost before = out@;
            let count = contents[i].1;
            if count > 0 {
                out.append(contents[i].0.as_str());
                out.append(": ");
                append_padded_digits(&mut out, count, 1);
                out.append("  ");
            }
            proof {
                assert(contents@.take(i + 1).drop_last() =~= contents@.take(i as int));
                assert(contents@.take(i + 1).last() == contents@[i as int]);
            }
            i = i + 1;
        }
        proof {
            assert(contents@.take(contents@.len() as int) =~= contents@);
        }
        out
    } else {
        String::from_str("Empty backpack")
    }
}

} // verus!
