//! What is printed for a source, line by line.
//!
//! A lone, unnamed source shows its reported lines and nothing else. A named
//! source among several shows a block: its name, its reported lines, and an
//! empty line that parts it from the next block. A source without reported
//! lines shows nothing at all, in either form.

use crate::paint::{decorate, is_decorated, Style};
use crate::scanner::ScanOutcome;
use vstd::prelude::*;

verus! {

/// Whether `block` is the printed block of the source `name` with reported
/// lines `texts`: empty if there are none, else the decorated name, the
/// lines in order and an empty line.
pub open spec fn is_source_block(name: Seq<char>, texts: Seq<Seq<char>>, block: Seq<Seq<char>>) -> bool {
    if texts.len() == 0 {
        block.len() == 0
    } else {
        &&& block.len() == texts.len() + 2
        &&& is_decorated(Style::SourceName, name, block[0])
        &&& forall|k: int| 0 <= k < texts.len() ==> #[trigger] block[k + 1] == texts[k]
        &&& block[texts.len() as int + 1] == Seq::<char>::empty()
    }
}

/// The contents of `lines`, each as a sequence of characters.
pub open spec fn texts_of(lines: Seq<String>) -> Seq<Seq<char>> {
    Seq::new(lines.len(), |k: int| lines[k]@)
}

/// The lines to print for the named source `name` after its scan: nothing
/// when no line was reported, else the name, the reported lines and an empty
/// separator line.
pub fn source_block(name: &str, outcome: &ScanOutcome) -> (block: Vec<String>)
    ensures
        is_source_block(name@, outcome.displays(), texts_of(block@)),
{
    let mut block: Vec<String> = Vec::new();
    if outcome.is_hits() {
        let texts: Vec<String> = outcome.lines();
        block.push(decorate(name, Style::SourceName));
        let mut k: usize = 0;
        while k < texts.len()
            invariant
                k <= texts@.len(),
                block@.len() == k + 1,
                is_decorated(Style::SourceName, name@, block@[0]@),
                forall|j: int| 0 <= j < k ==> (#[trigger] block@[j + 1])@ == texts@[j]@,
            decreases texts@.len() - k,
        {
            block.push(texts[k].clone());
            k += 1;
        }
        block.push(String::new());
        proof {
            let shown = texts_of(block@);
            assert forall|j: int| 0 <= j < outcome.displays().len() implies #[trigger] shown[j + 1]
                == outcome.displays()[j] by {
                assert(block@[j + 1]@ == texts@[j]@);
            }
        }
    }
    block
}

} // verus!
