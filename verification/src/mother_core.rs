//! Interactions with the creator, and the log of capabilities gained.

use vstd::prelude::*;
use vstd::string::StringSliceAdditionalSpecFns;
use vstd::utf8::{encode_utf8, is_char_boundary};
use crate::text::{
    chars_of, contains_str, decimal_text, is_unicode_whitespace, lowercase, lowercase_text, push_decimal, push_str_chars,
    same_text, spec_contains, spec_is_unicode_whitespace, string_from_chars,
};

verus! {

/// Seconds since the Unix epoch on the system clock (0 when the clock reads earlier
/// than the epoch); nothing is promised of the reading.
#[verifier::external_body]
pub(crate) fn unix_seconds_now() -> u64 {
    std::time::SystemTime::now().duration_since(std::time::UNIX_EPOCH).map(|d| d.as_secs()).unwrap_or(0)
}

/// Something the creator said, with its context and when it was said.
#[derive(Debug)]
pub struct CreatorInteraction {
    pub input: String,
    pub context: String,
    /// Seconds since the Unix epoch.
    pub timestamp: u64,
}

impl CreatorInteraction {
    /// An interaction said now, without context.
    pub fn new(input: String) -> (r: CreatorInteraction)
        ensures
            r.input == input,
            r.context@ == Seq::<char>::empty(),
    {
        CreatorInteraction { input, context: String::new(), timestamp: unix_seconds_now() }
    }

    /// The same interaction with a context.
    pub fn with_context(self, ctx: String) -> (r: CreatorInteraction)
        ensures
            r.input == self.input,
            r.context == ctx,
            r.timestamp == self.timestamp,
    {
        let mut s = self;
        s.context = ctx;
        s
    }
}

/// The words of a prefix of a text, split at white space: the words completed so
/// far, and the word under way (empty between words).
pub open spec fn word_scan(s: Seq<char>) -> (Seq<Seq<char>>, Seq<char>)
    decreases s.len(),
{
    if s.len() == 0 {
        (Seq::empty(), Seq::empty())
    } else {
        let (done, cur) = word_scan(s.drop_last());
        let c = s.last();
        if spec_is_unicode_whitespace(c) {
            if cur.len() > 0 {
                (done.push(cur), Seq::empty())
            } else {
                (done, Seq::empty())
            }
        } else {
            (done, cur.push(c))
        }
    }
}

/// The words of a text: its longest runs without white space, in order.
pub open spec fn whitespace_words(s: Seq<char>) -> Seq<Seq<char>> {
    let (done, cur) = word_scan(s);
    if cur.len() > 0 {
        done.push(cur)
    } else {
        done
    }
}

/// The words longer than four bytes, in order.
pub open spec fn concepts_of(words: Seq<Seq<char>>) -> Seq<Seq<char>>
    decreases words.len(),
{
    if words.len() == 0 {
        Seq::empty()
    } else {
        let rest = concepts_of(words.drop_last());
        if encode_utf8(words.last()).len() > 4 {
            rest.push(words.last())
        } else {
            rest
        }
    }
}

/// How deep a message goes, by how many concepts it names.
#[derive(Debug, PartialEq, Eq, Structural, Clone, Copy)]
pub enum DepthTier {
    /// Two concepts or fewer.
    Shallow,
    /// Three to five concepts.
    Moderate,
    /// More than five concepts.
    Deep,
}

/// The depth of a message naming `concepts` concepts.
pub open spec fn depth_tier(concepts: nat) -> DepthTier {
    if concepts > 5 {
        DepthTier::Deep
    } else if concepts > 2 {
        DepthTier::Moderate
    } else {
        DepthTier::Shallow
    }
}

/// The words of a message, lowercased, the concepts among them, and how deep it goes.
#[derive(Debug)]
pub struct CreatorPatterns {
    pub raw_patterns: Vec<String>,
    pub key_concepts: Vec<String>,
    pub depth: DepthTier,
}

/// The language side of the creator interface: the concepts it has met so far.
/// (Each concept's weight grows with every meeting; nothing reads the weights but
/// their number, so the concepts are kept, each once.)
pub struct LanguageEvolutionCore {
    patterns: Vec<String>,
}

impl LanguageEvolutionCore {
    /// The concepts met so far, in the order first met.
    pub closed spec fn known(&self) -> Seq<Seq<char>> {
        self.patterns@.map_values(|s: String| s@)
    }

    /// No concept is kept twice.
    pub closed spec fn wf(&self) -> bool {
        self.known().no_duplicates()
    }

    /// No concept met yet.
    pub fn new() -> (r: LanguageEvolutionCore)
        ensures
            r.wf(),
            r.known().len() == 0,
    {
        let r = LanguageEvolutionCore { patterns: Vec::new() };
        assert(r.known() =~= Seq::<Seq<char>>::empty());
        r
    }

    /// Splits what the creator said into lowercased words; the words longer than four
    /// bytes are its concepts, and their number sets its depth.
    pub fn analyze_patterns(&self, interaction: &CreatorInteraction) -> (r: CreatorPatterns)
        ensures
            r.raw_patterns@.len() == whitespace_words(interaction.input@).len(),
            forall|i: int|
                0 <= i < r.raw_patterns@.len() ==> #[trigger] r.raw_patterns@[i]@ == lowercase_text(
                    whitespace_words(interaction.input@)[i],
                ),
            r.key_concepts@.len() == concepts_of(r.raw_patterns@.map_values(|w: String| w@)).len(),
            forall|i: int|
                0 <= i < r.key_concepts@.len() ==> #[trigger] r.key_concepts@[i]@ == concepts_of(
                    r.raw_patterns@.map_values(|w: String| w@),
                )[i],
            r.depth == depth_tier(r.key_concepts@.len()),
    {
        let text = chars_of(interaction.input.as_str());
        let ghost input = interaction.input@;
        let mut words: Vec<String> = Vec::new();
        let mut cur: Vec<char> = Vec::new();
        let mut i: usize = 0;
        while i < text.len()
            invariant
                text@ == input,
                i <= text@.len(),
                words@.len() == word_scan(input.take(i as int)).0.len(),
                forall|j: int|
                    0 <= j < words@.len() ==> #[trigger] words@[j]@ == lowercase_text(word_scan(input.take(i as int)).0[j]),
                cur@ == word_scan(input.take(i as int)).1,
            decreases text@.len() - i,
        {
            assert(input.take(i as int + 1).drop_last() =~= input.take(i as int));
            let c = text[i];
            if is_unicode_whitespace(c) {
                if cur.len() > 0 {
                    let w = string_from_chars(cur.as_slice());
                    words.push(lowercase(w.as_str()));
                }
                cur = Vec::new();
            } else {
                cur.push(c);
            }
            i += 1;
        }
        assert(input.take(text@.len() as int) =~= input);
        if cur.len() > 0 {
            let w = string_from_chars(cur.as_slice());
            words.push(lowercase(w.as_str()));
        }
        let ghost lowered = words@.map_values(|w: String| w@);
        let mut concepts: Vec<String> = Vec::new();
        let mut k: usize = 0;
        while k < words.len()
            invariant
                k <= words@.len(),
                lowered == words@.map_values(|w: String| w@),
                concepts@.len() == concepts_of(lowered.take(k as int)).len(),
                forall|j: int| 0 <= j < concepts@.len() ==> #[trigger] concepts@[j]@ == concepts_of(lowered.take(k as int))[j],
            decreases words@.len() - k,
        {
            assert(lowered.take(k as int + 1).drop_last() =~= lowered.take(k as int));
            assert(lowered.take(k as int + 1).last() == words@[k as int]@);
            if words[k].as_str().as_bytes().len() > 4 {
                concepts.push(words[k].clone());
            }
            k += 1;
        }
        assert(lowered.take(words@.len() as int) =~= lowered);
        let n = concepts.len();
        let depth = if n > 5 {
            DepthTier::Deep
        } else if n > 2 {
            DepthTier::Moderate
        } else {
            DepthTier::Shallow
        };
        CreatorPatterns { raw_patterns: words, key_concepts: concepts, depth }
    }

    fn knows(&self, concept: &str) -> (r: bool)
        ensures
            r == self.known().contains(concept@),
    {
        let mut i: usize = 0;
        while i < self.patterns.len()
            invariant
                i <= self.patterns@.len(),
                forall|j: int| 0 <= j < i ==> #[trigger] self.patterns@[j]@ != concept@,
            decreases self.patterns@.len() - i,
        {
            if same_text(self.patterns[i].as_str(), concept) {
                assert(self.known()[i as int] == concept@);
                return true;
            }
            i += 1;
        }
        proof {
            if self.known().contains(concept@) {
                let j = choose|j: int| 0 <= j < self.known().len() && self.known()[j] == concept@;
                assert(self.patterns@[j]@ == concept@);
            }
        }
        false
    }

    /// Strengthens the concepts of an interaction: each one not met before joins
    /// the known ones.
    pub fn evolve_with(&mut self, interaction: &CreatorInteraction)
        requires
            old(self).wf(),
        ensures
            final(self).wf(),
            forall|c: Seq<char>| #[trigger] final(self).known().contains(c) <==> (old(self).known().contains(c)
                || concepts_of(whitespace_words(interaction.input@).map_values(|w: Seq<char>| lowercase_text(w))).contains(c)),
    {
        let patterns = self.analyze_patterns(interaction);
        let ghost words = whitespace_words(interaction.input@);
        let ghost lowered = patterns.raw_patterns@.map_values(|w: String| w@);
        let ghost concepts = patterns.key_concepts@.map_values(|w: String| w@);
        proof {
            assert(lowered =~= words.map_values(|w: Seq<char>| lowercase_text(w)));
            assert(concepts =~= concepts_of(lowered));
        }
        let mut k: usize = 0;
        while k < patterns.key_concepts.len()
            invariant
                k <= patterns.key_concepts@.len(),
                concepts == patterns.key_concepts@.map_values(|w: String| w@),
                self.wf(),
                forall|c: Seq<char>| #[trigger] self.known().contains(c) <==> (old(self).known().contains(c)
                    || concepts.take(k as int).contains(c)),
            decreases patterns.key_concepts@.len() - k,
        {
            let c = &patterns.key_concepts[k];
            let ghost before = self.known();
            if !self.knows(c.as_str()) {
                self.patterns.push(c.clone());
                proof {
                    assert(self.known() =~= before.push(c@));
                    assert forall|a: int, b: int| 0 <= a < self.known().len() && 0 <= b < self.known().len() && a != b implies self.known()[a]
                        != self.known()[b] by {
                        if a < before.len() && b < before.len() {
                        } else if a == before.len() {
                            assert(!before.contains(c@));
                            assert(before[b] == self.known()[b]);
                        } else {
                            assert(!before.contains(c@));
                            assert(before[a] == self.known()[a]);
                        }
                    }
                }
            }
            proof {
                assert(concepts.take(k + 1) =~= concepts.take(k as int).push(c@));
                let ck = concepts.take(k + 1);
                let now = self.known();
                assert(now == before || now == before.push(c@));
                assert(now == before ==> before.contains(c@));
                assert forall|q: Seq<char>| #[trigger] now.contains(q) <==> (old(self).known().contains(q) || ck.contains(
                    q,
                )) by {
                    if q == c@ {
                        assert(ck[k as int] == q);
                        if now != before {
                            assert(now[before.len() as int] == q);
                        }
                    } else {
                        if ck.contains(q) {
                            let j = choose|j: int| 0 <= j < ck.len() && ck[j] == q;
                            assert(concepts.take(k as int)[j] == q);
                        }
                        if concepts.take(k as int).contains(q) {
                            let j = choose|j: int| 0 <= j < k && concepts.take(k as int)[j] == q;
                            assert(ck[j] == q);
                        }
                        if now.contains(q) {
                            let j = choose|j: int| 0 <= j < now.len() && now[j] == q;
                            assert(before[j] == q);
                        }
                        if before.contains(q) {
                            let j = choose|j: int| 0 <= j < before.len() && before[j] == q;
                            assert(now[j] == q);
                        }
                    }
                }
            }
            k += 1;
        }
        proof {
            assert(concepts.take(k as int) =~= concepts);
        }
    }

    /// How many distinct concepts have been met.
    pub fn pattern_count(&self) -> (r: usize)
        requires
            self.wf(),
        ensures
            r == self.known().to_set().len(),
    {
        proof {
            self.known().unique_seq_to_set();
        }
        self.patterns.len()
    }
}

/// The generations of evolution and the capabilities they brought.
pub struct EvolutionMatrix {
    generation: usize,
    capability_log: Vec<String>,
}

impl EvolutionMatrix {
    /// No generation yet, nothing logged.
    pub fn new() -> (r: EvolutionMatrix)
        ensures
            r.generation() == 0,
            r.capability_log().len() == 0,
    {
        EvolutionMatrix { generation: 0, capability_log: Vec::new() }
    }

    /// The number of generations so far.
    pub closed spec fn generation(&self) -> nat {
        self.generation as nat
    }

    /// The capabilities logged so far.
    pub closed spec fn capability_log(&self) -> Seq<Seq<char>> {
        self.capability_log@.map_values(|s: String| s@)
    }

    /// Moves on one generation and logs the capability it brings: the generation
    /// label followed by the guidance cut to its first 32 bytes. Returns the new
    /// generation and that capability.
    pub fn evolve(&mut self, guidance: &str) -> (r: (usize, String))
        requires
            old(self).generation() < usize::MAX,
            encode_utf8(guidance@).len() <= usize::MAX,
            is_char_boundary(encode_utf8(guidance@), capability_cut(guidance@)),
        ensures
            final(self).generation() == old(self).generation() + 1,
            r.0 == final(self).generation(),
            final(self).capability_log() == old(self).capability_log().push(r.1@),
            exists|t: Seq<char>|
                r.1@ == generation_label(final(self).generation()) + t && #[trigger] encode_utf8(t) == encode_utf8(
                    guidance@,
                ).subrange(0, capability_cut(guidance@)),
    {
        self.generation = self.generation + 1;
        let n = guidance.len();
        let cut = if n < 32 {
            n
        } else {
            32
        };
        assert(cut as int == capability_cut(guidance@));
        let (head, _rest) = guidance.split_at(cut);
        let mut out: Vec<char> = Vec::new();
        push_str_chars(&mut out, "gen");
        push_decimal(self.generation as u64, &mut out);
        push_str_chars(&mut out, ": ");
        push_str_chars(&mut out, head);
        let cap = string_from_chars(out.as_slice());
        proof {
            assert(cap@ =~= generation_label(self.generation as nat) + head@);
            assert(encode_utf8(head@) == head.spec_bytes());
            assert(encode_utf8(head@) == encode_utf8(guidance@).subrange(0, capability_cut(guidance@)));
        }
        self.capability_log.push(cap.clone());
        assert(self.capability_log() =~= old(self).capability_log().push(cap@));
        (self.generation, cap)
    }
}

/// How much of the guidance a capability keeps: its first 32 bytes, or all of it
/// when shorter.
pub open spec fn capability_cut(guidance: Seq<char>) -> int {
    let n = encode_utf8(guidance).len();
    if n < 32 {
        n as int
    } else {
        32
    }
}

/// The label of a generation's capability: `gen`, the number, a colon and a space.
pub open spec fn generation_label(g: nat) -> Seq<char> {
    "gen"@ + decimal_text(g) + ": "@
}

/// How many of the words occur in the text.
pub open spec fn hits(s: Seq<char>, words: Seq<Seq<char>>) -> nat
    decreases words.len(),
{
    if words.len() == 0 {
        0
    } else {
        hits(s, words.drop_last()) + if spec_contains(s, words.last()) {
            1nat
        } else {
            0nat
        }
    }
}

/// The words that lift the mood of a message.
pub open spec fn positive_words() -> Seq<Seq<char>> {
    seq!["good"@, "great"@, "thanks"@, "yes"@, "perfect"@, "awesome"@, "love"@]
}

/// The words that lower it.
pub open spec fn negative_words() -> Seq<Seq<char>> {
    seq!["bad"@, "wrong"@, "error"@, "fail"@, "no"@, "broken"@, "hate"@]
}

fn count_hits(hay: &str, words: &[&str]) -> (r: usize)
    ensures
        r == hits(hay@, words@.map_values(|w: &str| w@)),
{
    let ghost ws = words@.map_values(|w: &str| w@);
    let mut count: usize = 0;
    let mut k: usize = 0;
    while k < words.len()
        invariant
            k <= words@.len(),
            ws == words@.map_values(|w: &str| w@),
            count == hits(hay@, ws.take(k as int)),
            count <= k,
        decreases words@.len() - k,
    {
        proof {
            assert(ws.take(k + 1).drop_last() =~= ws.take(k as int));
            assert(ws.take(k + 1).last() == words@[k as int]@);
        }
        if contains_str(hay, words[k]) {
            count += 1;
        }
        k += 1;
    }
    proof {
        assert(ws.take(k as int) =~= ws);
    }
    count
}

/// How many of the mood-lifting and of the mood-lowering words occur in the
/// lowercased text.
pub fn sentiment_counts(text: &str) -> (r: (usize, usize))
    ensures
        r.0 == hits(lowercase_text(text@), positive_words()),
        r.1 == hits(lowercase_text(text@), negative_words()),
{
    let lower = lowercase(text);
    let positive: [&str; 7] = ["good", "great", "thanks", "yes", "perfect", "awesome", "love"];
    let negative: [&str; 7] = ["bad", "wrong", "error", "fail", "no", "broken", "hate"];
    proof {
        assert(positive@.map_values(|w: &str| w@) =~= positive_words());
        assert(negative@.map_values(|w: &str| w@) =~= negative_words());
    }
    let pos = count_hits(lower.as_str(), positive.as_slice());
    let neg = count_hits(lower.as_str(), negative.as_slice());
    (pos, neg)
}

/// The mood of a message with `pos` lifting and `neg` lowering words: its
/// sentiment `(pos - neg) / (pos + neg + 1)` above 3/10 is positive, below -3/10
/// tense, and engaged in between.
pub open spec fn mood_of(pos: nat, neg: nat) -> Seq<char> {
    let d = pos - neg;
    let t = pos + neg + 1;
    if 10 * d > 3 * t {
        "positive"@
    } else if 10 * d < -3 * t {
        "tense"@
    } else {
        "engaged"@
    }
}

/// The mood label of a message by its word counts.
pub fn mood_label(pos: usize, neg: usize) -> (r: String)
    ensures
        r@ == mood_of(pos as nat, neg as nat),
{
    let p = pos as u128;
    let q = neg as u128;
    if 7 * p > 13 * q + 3 {
        String::from_str("positive")
    } else if 13 * p + 3 < 7 * q {
        String::from_str("tense")
    } else {
        String::from_str("engaged")
    }
}

} // verus!
