//! What goes onto the work queue: one candidate per wordlist entry, in the
//! order of the wordlist.

use vstd::prelude::*;
use vstd::string::StringExecFns;

verus! {

/// The candidate for a wordlist entry: the entry, a dot, the root domain.
pub open spec fn candidate_of(word: Seq<char>, root: Seq<char>) -> Seq<char> {
    word + seq!['.'] + root
}

/// The candidates of a wordlist, in its order.
pub open spec fn candidates_of(words: Seq<String>, root: Seq<char>) -> Seq<Seq<char>> {
    Seq::new(words.len(), |i: int| candidate_of(words[i]@, root))
}

/// The texts of a sequence of strings, in the same order.
pub open spec fn texts(strings: Seq<String>) -> Seq<Seq<char>> {
    strings.map_values(|s: String| s@)
}

/// Forms the candidate name for one wordlist entry.
pub fn candidate(word: &str, root: &str) -> (host: String)
    ensures
        host@ == candidate_of(word@, root@),
{
    proof {
        reveal_strlit(".");
    }
    let dot = ".";
    assert(dot@ == seq!['.']);
    String::from_str(word).concat(dot).concat(root)
}

/// Forms the candidates to enqueue: one for each wordlist entry, each exactly
/// once, in the order of the wordlist.
pub fn candidates(words: &Vec<String>, root: &str) -> (hosts: Vec<String>)
    ensures
        texts(hosts@) == candidates_of(words@, root@),
{
    let mut hosts: Vec<String> = Vec::new();
    let mut i: usize = 0;
    while i < words.len()
        invariant
            i <= words.len(),
            hosts@.len() == i,
            forall|j: int| 0 <= j < i ==> (#[trigger] hosts@[j])@ == candidate_of(words@[j]@, root@),
        decreases words.len() - i,
    {
        let host = candidate(words[i].as_str(), root);
        hosts.push(host);
        i += 1;
    }
    assert(texts(hosts@) =~= candidates_of(words@, root@));
    hosts
}

/// Distinct wordlist entries give distinct candidates: a wordlist without a
/// repeated line puts no name onto the queue twice.
pub proof fn lemma_candidates_distinct(words: Seq<String>, root: Seq<char>)
    requires
        texts(words).no_duplicates(),
    ensures
        candidates_of(words, root).no_duplicates(),
{
    let hosts = candidates_of(words, root);
    assert forall|i: int, j: int| 0 <= i < hosts.len() && 0 <= j < hosts.len() && i != j implies hosts[i] != hosts[j] by {
        let a = words[i]@;
        let b = words[j]@;
        assert(texts(words)[i] == a);
        assert(texts(words)[j] == b);
        if hosts[i] == hosts[j] {
            let tail = seq!['.'] + root;
            assert(hosts[i] =~= a + tail);
            assert(hosts[j] =~= b + tail);
            assert((a + tail).len() == a.len() + tail.len());
            assert((b + tail).len() == b.len() + tail.len());
            assert((a + tail).subrange(0, a.len() as int) =~= a);
            assert((b + tail).subrange(0, b.len() as int) =~= b);
            assert(a == b);
        }
    }
}

} // verus!
