//! The printed list of interface names.

use vstd::prelude::*;
use vstd::string::*;
use crate::wire::{interface_names, names_of, texts};

verus! {

/// Names one per line: each name followed by a line feed.
pub open spec fn lines(names: Seq<Seq<char>>) -> Seq<char>
    decreases names.len(),
{
    if names.len() == 0 {
        Seq::empty()
    } else {
        lines(names.drop_last()) + names.last() + seq!['\n']
    }
}

/// Names with one space between each two neighbours.
pub open spec fn spaced(names: Seq<Seq<char>>) -> Seq<char>
    decreases names.len(),
{
    if names.len() == 0 {
        Seq::empty()
    } else if names.len() == 1 {
        names[0]
    } else {
        spaced(names.drop_last()) + seq![' '] + names.last()
    }
}

/// The printed list: on a single line the names with spaces between them
/// and one line feed at the end, else one name per line.
pub open spec fn listing(names: Seq<Seq<char>>, single_line: bool) -> Seq<char> {
    if single_line {
        spaced(names) + seq!['\n']
    } else {
        lines(names)
    }
}

/// The printed list of some names.
pub fn render_names(names: &Vec<String>, single_line: bool) -> (text: String)
    ensures
        text@ == listing(texts(names@), single_line),
{
    let ghost all = texts(names@);
    let mut text = String::new();
    let mut i: usize = 0;
    while i < names.len()
        invariant
            all == texts(names@),
            i <= names.len(),
            text@ == if single_line {
                spaced(all.take(i as int))
            } else {
                lines(all.take(i as int))
            },
        decreases names.len() - i,
    {
        let ghost before = text@;
        proof {
            reveal_strlit(" ");
            reveal_strlit("\n");
        }
        assert(all.take(i + 1).drop_last() =~= all.take(i as int));
        assert(all.take(i + 1).last() == names@[i as int]@);
        if single_line {
            if i > 0 {
                text.append(" ");
            }
            text.append(names[i].as_str());
            assert(text@ =~= spaced(all.take(i + 1))) by {
                if i > 0 {
                    assert(text@ =~= before + seq![' '] + names@[i as int]@);
                } else {
                    assert(text@ =~= names@[i as int]@);
                }
            }
        } else {
            text.append(names[i].as_str());
            text.append("\n");
            assert(text@ =~= lines(all.take(i + 1))) by {
                assert(text@ =~= before + names@[i as int]@ + seq!['\n']);
            }
        }
        i += 1;
    }
    assert(all.take(names.len() as int) =~= all);
    if single_line {
        proof {
            reveal_strlit("\n");
        }
        text.append("\n");
    }
    text
}

/// The printed list of the interfaces whose records a buffer holds.
pub fn get_ifnames(buffer: &[u8], single_line: bool) -> (text: String)
    ensures
        text@ == listing(names_of(buffer@), single_line),
{
    let names = interface_names(buffer);
    render_names(&names, single_line)
}

} // verus!
