//! Escaped text as a sequence of tokens: what the decoder accepts, said
//! without the decoder.

use crate::decoder::{
    decoded, lemma_error_is_final, lemma_run_push, run, DecodeState, Progress,
};
use crate::error::EscapeError;
use crate::symbols::{meaning_of, ESCAPE};
use vstd::prelude::*;

verus! {

/// Whether `s` is made of tokens only. A token is either one character other
/// than the escape character, or the escape character followed by a marker.
pub open spec fn well_formed(s: Seq<char>) -> bool
    decreases s.len(),
{
    if s.len() == 0 {
        true
    } else if s[0] != ESCAPE {
        well_formed(s.skip(1))
    } else {
        s.len() >= 2 && meaning_of(s[1]) is Some && well_formed(s.skip(2))
    }
}

/// The text that the tokens of a well-formed `s` stand for: a character for
/// itself, an escape sequence for the meaning of its marker.
pub open spec fn unescaped(s: Seq<char>) -> Seq<char>
    recommends
        well_formed(s),
    decreases s.len(),
{
    if s.len() == 0 {
        Seq::empty()
    } else if s[0] != ESCAPE {
        seq![s[0]] + unescaped(s.skip(1))
    } else if s.len() >= 2 && meaning_of(s[1]) is Some {
        seq![meaning_of(s[1])->0] + unescaped(s.skip(2))
    } else {
        Seq::empty()
    }
}

/// Where the decoder is idle after `a`, it reads `b` behind `a` as it reads
/// `b` alone: it accepts `a + b` exactly if it accepts `b`, ends in the same
/// state, and has put out the output of `a` followed by that of `b`.
pub proof fn lemma_run_concat(a: Seq<char>, b: Seq<char>)
    requires
        run(a) matches Ok(pa) && pa.state == DecodeState::Idle,
    ensures
        run(a + b) is Ok <==> run(b) is Ok,
        run(b) matches Ok(pb) ==> run(a + b) == Ok::<Progress, EscapeError>(
            Progress { state: pb.state, output: run(a)->Ok_0.output + pb.output },
        ),
    decreases b.len(),
{
    let out_a = run(a)->Ok_0.output;
    if b.len() == 0 {
        assert(a + b =~= a);
        assert(out_a + Seq::<char>::empty() =~= out_a);
    } else {
        let head = b.drop_last();
        let c = b.last();
        lemma_run_concat(a, head);
        assert(b =~= head.push(c));
        assert(a + b =~= (a + head).push(c));
        lemma_run_push(head, c);
        lemma_run_push(a + head, c);
        if run(b) is Ok {
            assert(run(a + b)->Ok_0.output =~= out_a + run(b)->Ok_0.output);
        }
    }
}

/// Two escaped texts that decode, one after the other, decode to the two
/// results one after the other.
pub proof fn lemma_decoded_concat(a: Seq<char>, b: Seq<char>)
    requires
        decoded(a) is Ok,
        decoded(b) is Ok,
    ensures
        decoded(a + b) == Ok::<Seq<char>, EscapeError>(decoded(a)->Ok_0 + decoded(b)->Ok_0),
{
    lemma_run_concat(a, b);
}

/// The decoder accepts exactly the well-formed texts, and decodes each to
/// what its tokens stand for.
pub proof fn lemma_decoded_by_tokens(s: Seq<char>)
    ensures
        decoded(s) is Ok <==> well_formed(s),
        well_formed(s) ==> decoded(s) == Ok::<Seq<char>, EscapeError>(unescaped(s)),
    decreases s.len(),
{
    let nothing = Seq::<char>::empty();
    if s.len() == 0 {
    } else if s[0] != ESCAPE {
        let a = seq![s[0]];
        let b = s.skip(1);
        assert(a =~= nothing.push(s[0]));
        lemma_run_push(nothing, s[0]);
        assert(s =~= a + b);
        lemma_run_concat(a, b);
        lemma_decoded_by_tokens(b);
    } else {
        let first = seq![s[0]];
        assert(first =~= nothing.push(s[0]));
        lemma_run_push(nothing, s[0]);
        if s.len() == 1 {
            assert(s =~= first);
        } else {
            let a = seq![s[0], s[1]];
            let b = s.skip(2);
            assert(a =~= first.push(s[1]));
            lemma_run_push(first, s[1]);
            assert(s =~= a + b);
            if meaning_of(s[1]) is Some {
                assert(run(a)->Ok_0.output =~= seq![meaning_of(s[1])->0]);
                lemma_run_concat(a, b);
                lemma_decoded_by_tokens(b);
            } else {
                assert(s.take(2) =~= a);
                lemma_error_is_final(s, 2);
            }
        }
    }
}

} // verus!
