//! Passphrase minting: hyphen-joined words drawn at random from a fixed
//! word list.  Uniqueness is the relay's business, not the minter's.

use vstd::prelude::*;
use vstd::string::StringExecFns;

verus! {

/// A claim token such as `correct-horse-battery`.
#[derive(Debug)]
pub struct Passphrase(pub String);

impl Clone for Passphrase {
    fn clone(&self) -> (r: Self)
        ensures
            r@ == self@,
    {
        Passphrase(self.0.clone())
    }
}

impl View for Passphrase {
    type V = Seq<char>;

    open spec fn view(&self) -> Seq<char> {
        self.0@
    }
}

impl PartialEq for Passphrase {
    fn eq(&self, other: &Passphrase) -> (r: bool) {
        self.0 == other.0
    }
}

impl vstd::std_specs::cmp::PartialEqSpecImpl for Passphrase {
    open spec fn obeys_eq_spec() -> bool {
        true
    }

    open spec fn eq_spec(&self, other: &Passphrase) -> bool {
        self@ == other@
    }
}

impl From<&str> for Passphrase {
    fn from(s: &str) -> (r: Passphrase) {
        Passphrase(s.to_owned())
    }
}

impl vstd::std_specs::convert::FromSpecImpl<&str> for Passphrase {
    // A `String` cannot be built in spec code, so the conversion's result is
    // not pinned here; callers read the passphrase back through its view.
    open spec fn obeys_from_spec() -> bool {
        false
    }

    open spec fn from_spec(s: &str) -> Passphrase {
        Passphrase(choose|t: String| t@ == s@)
    }
}

impl Passphrase {
    /// The passphrase as plain text.
    pub fn to_string(&self) -> (r: String)
        ensures
            r@ == self@,
    {
        self.0.clone()
    }
}

/// A generator over a fixed, non-empty word list.
pub struct PassphraseGenerator(pub Vec<&'static str>);

/// The word list as a sequence of character sequences.
pub open spec fn words_view(g: &PassphraseGenerator) -> Seq<Seq<char>> {
    g.0@.map_values(|w: &'static str| w@)
}

/// The text formed by the words at positions `ws`, joined with `-`.
pub open spec fn join_words(words: Seq<Seq<char>>, ws: Seq<int>) -> Seq<char>
    decreases ws.len(),
{
    if ws.len() == 0 {
        Seq::empty()
    } else if ws.len() == 1 {
        words[ws[0]]
    } else {
        join_words(words, ws.drop_last()) + seq!['-'] + words[ws.last()]
    }
}

/// Every position in `ws` indexes into a list of `n` words.
pub open spec fn valid_indices(ws: Seq<int>, n: int) -> bool {
    forall|i: int| 0 <= i < ws.len() ==> 0 <= #[trigger] ws[i] < n
}

/// Relies on rand::Rng::gen_range over a thread-local RNG: a random index
/// below `bound`; which one depends on chance, so only the range is stated.
/// The range must be non-empty, else the call panics.
#[verifier::external_body]
fn random_index(bound: usize) -> (r: usize)
    requires
        bound > 0,
    ensures
        r < bound,
{
    rand::Rng::gen_range(&mut rand::thread_rng(), 0..bound)
}

impl PassphraseGenerator {
    /// A generator holds at least one word to draw from.
    pub open spec fn wf(&self) -> bool {
        self.0@.len() > 0
    }

    /// Builds the generator over the embedded word list.
    pub fn new() -> (r: crate::error::Result<PassphraseGenerator>)
        ensures
            r matches Ok(g) && g.wf(),
    {
        let words: [&'static str; 64] = [
            "acorn", "amber", "anchor", "apple", "arrow", "autumn", "badger", "basil",
            "beacon", "birch", "bloom", "breeze", "bridge", "brook", "candle", "canyon",
            "cedar", "cloud", "clover", "comet", "coral", "cricket", "dawn", "delta",
            "ember", "falcon", "fern", "flint", "garnet", "glacier", "grove", "harbor",
            "hazel", "heron", "island", "juniper", "kestrel", "lagoon", "lantern", "linden",
            "maple", "meadow", "mesa", "mist", "nectar", "north", "oasis", "opal",
            "orchid", "otter", "pebble", "pine", "prairie", "quartz", "raven", "reef",
            "ridge", "river", "saffron", "sage", "summit", "thistle", "tundra", "willow",
        ];
        let mut list: Vec<&'static str> = Vec::new();
        for i in 0..64usize
            invariant
                list@.len() == i,
        {
            list.push(words[i]);
        }
        Ok(PassphraseGenerator(list))
    }

    /// Mints a passphrase of `word_count` words joined with `-`; none at all
    /// for a count of zero.
    pub fn generate_with_count(&self, word_count: usize) -> (r: Option<Passphrase>)
        requires
            self.wf(),
        ensures
            r is None <==> word_count == 0,
            r matches Some(p) ==> exists|ws: Seq<int>|
                ws.len() == word_count && valid_indices(ws, self.0@.len() as int) && p@
                    == join_words(words_view(self), ws),
    {
        if word_count == 0 {
            return Option::None;
        }
        let mut passphrase = String::new();
        let ghost mut ws: Seq<int> = Seq::empty();
        for i in 0..word_count
            invariant
                self.wf(),
                ws.len() == i,
                valid_indices(ws, self.0@.len() as int),
                passphrase@ == join_words(words_view(self), ws),
        {
            proof {
                reveal_strlit("-");
            }
            if i != 0 {
                passphrase.append("-");
            }
            let idx = random_index(self.0.len());
            passphrase.append(self.0[idx]);
            proof {
                let prev = ws;
                ws = ws.push(idx as int);
                assert(ws.drop_last() =~= prev);
                assert(ws.last() == idx as int);
                if prev.len() == 0 {
                    assert(passphrase@ =~= join_words(words_view(self), ws));
                } else {
                    assert(passphrase@ =~= join_words(words_view(self), prev) + seq!['-']
                        + words_view(self)[idx as int]);
                }
            }
        }
        Option::Some(Passphrase(passphrase))
    }

    /// Mints the default three-word passphrase.
    pub fn generate(&self) -> (r: Option<Passphrase>)
        requires
            self.wf(),
        ensures
            r is Some,
            r matches Some(p) ==> exists|ws: Seq<int>|
                ws.len() == 3 && valid_indices(ws, self.0@.len() as int) && p@ == join_words(
                    words_view(self),
                    ws,
                ),
    {
        self.generate_with_count(3)
    }
}

} // verus!
