//! Passphrases made of words drawn from a corpus.
use chbs::scheme::ToScheme;
use vstd::prelude::*;

verus! {

/// The character placed between the words of a passphrase.
pub const SEPARATOR: &'static str = "-";

/// The views of a list of strings.
pub open spec fn texts(v: Seq<String>) -> Seq<Seq<char>> {
    v.map_values(|s: String| s@)
}

/// The words `w` joined with `sep` between neighbours.
pub open spec fn joined(w: Seq<Seq<char>>, sep: Seq<char>) -> Seq<char>
    decreases w.len(),
{
    if w.len() == 0 {
        Seq::empty()
    } else if w.len() == 1 {
        w[0]
    } else {
        joined(w.drop_last(), sep) + sep + w.last()
    }
}

/// `p` consists of `n` words of `corpus`, repetitions allowed, joined by `sep`.
pub open spec fn is_passphrase_with(p: Seq<char>, n: nat, corpus: Seq<Seq<char>>, sep: Seq<char>) -> bool {
    exists|w: Seq<Seq<char>>|
        #![trigger joined(w, sep)]
        w.len() == n && (forall|i: int| 0 <= i < w.len() ==> corpus.contains(#[trigger] w[i]))
            && p == joined(w, sep)
}

/// `p` consists of `n` words of `corpus` joined by the separator `-`.
pub open spec fn is_passphrase(p: Seq<char>, n: nat, corpus: Seq<Seq<char>>) -> bool {
    is_passphrase_with(p, n, corpus, seq!['-'])
}

/// The corpus handed to the generator holds no word.
#[derive(Clone, Copy, Debug, PartialEq, Eq, Structural)]
pub enum ConfigurationError {
    EmptyCorpus,
}

/// Relies on chbs's `BasicConfig::to_scheme` and `Scheme::generate`: with a
/// `WordSampler` over `corpus`, `words` words, never capitalised, the phrase is
/// `words` entries of `corpus`, each drawn at random, joined by `separator`.
/// chbs panics on an empty word list and on a word count of zero.
#[verifier::external_body]
fn chbs_generate(words: usize, corpus: &Vec<String>, separator: &str) -> (r: String)
    requires
        words >= 1,
        corpus.len() >= 1,
    ensures
        is_passphrase_with(r@, words as nat, texts(corpus@), separator@),
{
    let mut config = chbs::config::BasicConfig::default();
    config.words = words;
    config.word_provider = chbs::word::WordList::new(corpus.clone()).sampler();
    config.separator = separator.to_string();
    config.capitalize_first = chbs::probability::Probability::Never;
    config.capitalize_words = chbs::probability::Probability::Never;
    config.to_scheme().generate()
}

/// Draws a passphrase of `word_count` words of `corpus`, joined by `-`, with
/// no change of case. Two calls may give different passphrases.
pub fn generate(word_count: usize, corpus: &Vec<String>) -> (r: Result<String, ConfigurationError>)
    requires
        word_count >= 1,
    ensures
        r is Err <==> corpus.len() == 0,
        r matches Ok(p) ==> is_passphrase(p@, word_count as nat, texts(corpus@)),
{
    if corpus.len() == 0 {
        return Err(ConfigurationError::EmptyCorpus);
    }
    let p = chbs_generate(word_count, corpus, SEPARATOR);
    proof {
        reveal_strlit("-");
        assert(SEPARATOR@ =~= seq!['-']);
    }
    Ok(p)
}

} // verus!
