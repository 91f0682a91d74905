use vstd::prelude::*;
use vstd::string::{StrSliceExecFns, StringExecFns};

verus! {

/// One piece of text to type, and the pause after it.
pub struct Keystroke {
    pub text: String,
    pub delay_ms: u64,
}

/// `fastrand::u64(min..=max)`: a number drawn from the thread's generator;
/// the crate's source returns a value in the inclusive range and panics only
/// when the range is empty. Which value comes out is left unstated.
#[verifier::external_body]
fn random_delay(min: u64, max: u64) -> (r: u64)
    requires
        min <= max,
    ensures
        min <= r <= max,
{
    fastrand::u64(min..=max)
}

/// The pieces that typing a word sends, in order: what `str::split("")`
/// yields, an empty piece, then each character, then an empty piece.
pub open spec fn typing_pieces(word: Seq<char>) -> Seq<Seq<char>> {
    seq![Seq::<char>::empty()] + Seq::new(word.len(), |i: int| seq![word[i]]) + seq![
        Seq::<char>::empty(),
    ]
}

/// The concatenation of a sequence of pieces.
pub open spec fn joined(pieces: Seq<Seq<char>>) -> Seq<char>
    decreases pieces.len(),
{
    if pieces.len() == 0 {
        Seq::empty()
    } else {
        joined(pieces.drop_last()) + pieces.last()
    }
}

/// Plans the typing of `word`: the pieces of `word.split("")`, each
/// followed by a pause drawn at random from `delay_min..=delay_max`
/// milliseconds.
pub fn plan_typing(word: &str, delay_min: u64, delay_max: u64) -> (plan: Vec<Keystroke>)
    requires
        delay_min <= delay_max,
    ensures
        plan@.len() == typing_pieces(word@).len(),
        forall|i: int|
            0 <= i < plan@.len() ==> {
                &&& (#[trigger] plan@[i]).text@ == typing_pieces(word@)[i]
                &&& delay_min <= plan@[i].delay_ms <= delay_max
            },
{
    let ghost pieces = typing_pieces(word@);
    let n = word.unicode_len();
    let mut plan: Vec<Keystroke> = Vec::new();
    plan.push(Keystroke { text: String::new(), delay_ms: random_delay(delay_min, delay_max) });
    let mut i: usize = 0;
    while i < n
        invariant
            n == word@.len(),
            pieces == typing_pieces(word@),
            delay_min <= delay_max,
            i <= n,
            plan@.len() == i + 1,
            forall|j: int|
                0 <= j < plan@.len() ==> {
                    &&& (#[trigger] plan@[j]).text@ == pieces[j]
                    &&& delay_min <= plan@[j].delay_ms <= delay_max
                },
        decreases n - i,
    {
        let piece = word.substring_char(i, i + 1);
        assert(piece@ =~= pieces[i + 1]);
        plan.push(Keystroke { text: String::from_str(piece), delay_ms: random_delay(delay_min, delay_max) });
        i += 1;
    }
    plan.push(Keystroke { text: String::new(), delay_ms: random_delay(delay_min, delay_max) });
    plan
}

proof fn lemma_joined_singletons(word: Seq<char>, n: nat)
    requires
        n <= word.len(),
    ensures
        joined(seq![Seq::<char>::empty()] + Seq::new(n, |i: int| seq![word[i]])) == word.take(n as int),
    decreases n,
{
    let s = seq![Seq::<char>::empty()] + Seq::new(n, |i: int| seq![word[i]]);
    if n == 0 {
        assert(s.drop_last() =~= Seq::<Seq<char>>::empty());
        assert(joined(s.drop_last()) == Seq::<char>::empty());
        assert(s.last() == Seq::<char>::empty());
        assert(joined(s) =~= word.take(0));
    } else {
        let prev = seq![Seq::<char>::empty()] + Seq::new((n - 1) as nat, |i: int| seq![word[i]]);
        lemma_joined_singletons(word, (n - 1) as nat);
        assert(s.drop_last() =~= prev);
        assert(joined(s) =~= word.take(n as int));
    }
}

/// Typing the planned pieces one after the other types exactly the word.
pub proof fn law_pieces_spell_word(word: Seq<char>)
    ensures
        joined(typing_pieces(word)) == word,
{
    let body = seq![Seq::<char>::empty()] + Seq::new(word.len(), |i: int| seq![word[i]]);
    lemma_joined_singletons(word, word.len());
    assert(typing_pieces(word).drop_last() =~= body);
    assert(word.take(word.len() as int) =~= word);
    assert(joined(typing_pieces(word)) =~= word);
}

} // verus!
