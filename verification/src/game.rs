use vstd::prelude::*;
use vstd::string::{StrSliceExecFns, StringExecFns};

verus! {

/// The fixed message fragments shown to a freshly logged-in player who has
/// not yet passed the license exam.
pub struct GameStrings {
    pub welcome_begin: String,
    pub puzzle_prompt: String,
    pub welcome_end: String,
}

/// The full puzzle prompt: the three fragments joined in order.
pub open spec fn spec_puzzle_message(gs: &GameStrings) -> Seq<char> {
    gs.welcome_begin@ + gs.puzzle_prompt@ + gs.welcome_end@
}

impl GameStrings {
    pub fn puzzle_message(&self) -> (r: String)
        ensures
            r@ == spec_puzzle_message(self),
    {
        let mut msg = self.welcome_begin.clone();
        msg.append(self.puzzle_prompt.as_str());
        msg.append(self.welcome_end.as_str());
        msg
    }
}

/// The pieces of a text split on newlines: every maximal (possibly empty)
/// run between newline characters, in order; a text with no newline is one
/// piece.
pub open spec fn spec_split_lines(s: Seq<char>) -> Seq<Seq<char>>
    decreases s.len(),
{
    if s.len() == 0 {
        seq![Seq::<char>::empty()]
    } else {
        let pre = spec_split_lines(s.drop_last());
        if s.last() == '\n' {
            pre.push(Seq::<char>::empty())
        } else {
            pre.update(pre.len() - 1, pre.last().push(s.last()))
        }
    }
}

/// A split always yields at least one piece.
pub proof fn lemma_split_lines_nonempty(s: Seq<char>)
    ensures
        spec_split_lines(s).len() >= 1,
    decreases s.len(),
{
    if s.len() != 0 {
        lemma_split_lines_nonempty(s.drop_last());
    }
}

/// Split a text on newline characters.
pub fn split_lines(s: &str) -> (r: Vec<String>)
    ensures
        r@.len() == spec_split_lines(s@).len(),
        forall|i: int| 0 <= i < r@.len() ==> (#[trigger] r@[i])@ == spec_split_lines(s@)[i],
{
    let n = s.unicode_len();
    let mut out: Vec<String> = Vec::new();
    let mut start: usize = 0;
    let mut i: usize = 0;
    while i < n
        invariant
            start <= i <= n,
            n == s@.len(),
            spec_split_lines(s@.subrange(0, i as int)).len() == out@.len() + 1,
            forall|k: int|
                0 <= k < out@.len() ==> (#[trigger] out@[k])@ == spec_split_lines(
                    s@.subrange(0, i as int),
                )[k],
            spec_split_lines(s@.subrange(0, i as int)).last() == s@.subrange(
                start as int,
                i as int,
            ),
        decreases n - i,
    {
        let ghost prefix = s@.subrange(0, i as int);
        let c = s.get_char(i);
        if c == '\n' {
            out.push(String::from_str(s.substring_char(start, i)));
            start = i + 1;
        }
        i += 1;
        proof {
            let t = s@.subrange(0, i as int);
            assert(t.drop_last() =~= prefix);
            assert(t.last() == c);
            lemma_split_lines_nonempty(prefix);
            if c == '\n' {
                assert(spec_split_lines(t) =~= spec_split_lines(prefix).push(
                    Seq::<char>::empty(),
                ));
                assert(spec_split_lines(t).last() =~= s@.subrange(start as int, i as int));
            } else {
                assert(spec_split_lines(t) =~= spec_split_lines(prefix).update(
                    spec_split_lines(prefix).len() - 1,
                    spec_split_lines(prefix).last().push(c),
                ));
                assert(spec_split_lines(t).last() =~= s@.subrange(start as int, i as int));
            }
        }
    }
    proof {
        assert(s@.subrange(0, n as int) =~= s@);
    }
    out.push(String::from_str(s.substring_char(start, n)));
    out
}

} // verus!
