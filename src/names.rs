use rand::seq::SliceRandom;
use vstd::prelude::*;
use vstd::string::StringExecFns;

verus! {

/// A room name made of two words: `first.second`.
pub open spec fn joined(first: Seq<char>, second: Seq<char>) -> Seq<char> {
    first + seq!['.'] + second
}

/// Relies on rand's `SliceRandom::choose` with the thread-local generator:
/// on a slice that is not empty it returns one of its elements.
#[verifier::external_body]
fn choose_word(words: &Vec<String>) -> (r: &String)
    requires
        words@.len() > 0,
    ensures
        words@.contains(*r),
{
    words.as_slice().choose(&mut rand::thread_rng()).unwrap()
}

/// Builds candidate room names from a fixed list of words.
pub struct NameGenerator {
    words: Vec<String>,
}

impl NameGenerator {
    /// The words that names are made of.
    pub closed spec fn word_list(&self) -> Seq<String> {
        self.words@
    }

    pub open spec fn wf(&self) -> bool {
        self.word_list().len() > 0
    }

    /// Whether `name` joins two words of the list (the same word may stand twice).
    pub open spec fn produces(&self, name: Seq<char>) -> bool {
        exists|i: int, j: int|
            0 <= i < self.word_list().len() && 0 <= j < self.word_list().len() && name == joined(
                self.word_list()[i]@,
                self.word_list()[j]@,
            )
    }

    /// Whether `m` holds none of the names that this generator can make.
    pub open spec fn leaves_free<V>(&self, m: Map<Seq<char>, V>) -> bool {
        forall|i: int, j: int|
            0 <= i < self.word_list().len() && 0 <= j < self.word_list().len() ==> !m.contains_key(
                #[trigger] joined(self.word_list()[i]@, self.word_list()[j]@),
            )
    }

    /// A generator over `words`, or `None` when the list is empty.
    pub fn new(words: Vec<String>) -> (r: Option<NameGenerator>)
        ensures
            match r {
                Some(g) => g.wf() && g.word_list() == words@,
                None => words@.len() == 0,
            },
    {
        if words.len() == 0 {
            None
        } else {
            Some(NameGenerator { words })
        }
    }

    /// The name made of the words at `first` and `second`.
    pub fn candidate(&self, first: usize, second: usize) -> (r: String)
        requires
            first < self.word_list().len(),
            second < self.word_list().len(),
        ensures
            r@ == joined(self.word_list()[first as int]@, self.word_list()[second as int]@),
    {
        join_words(&self.words[first], &self.words[second])
    }

    /// A name made of two words drawn at random, independently.
    pub fn draw(&self) -> (r: String)
        requires
            self.wf(),
        ensures
            self.produces(r@),
    {
        let first = choose_word(&self.words);
        let second = choose_word(&self.words);
        let r = join_words(first, second);
        proof {
            let i = choose|i: int| 0 <= i < self.words@.len() && first@ == self.words@[i]@;
            let j = choose|j: int| 0 <= j < self.words@.len() && second@ == self.words@[j]@;
            assert(r@ == joined(self.words@[i]@, self.words@[j]@));
        }
        r
    }
}

fn join_words(first: &String, second: &String) -> (r: String)
    ensures
        r@ == joined(first@, second@),
{
    let mut r = first.clone();
    proof {
        reveal_strlit(".");
    }
    r.append(".");
    r.append(second.as_str());
    r
}

} // verus!
