//! Who is speaking: settings, scores and the agents that speakers have.
//!
//! How much a voice resembles another is a floating-point number. Here it is an
//! integer that is larger where the resemblance is.
use crate::env::{is_off, means_off, or, or_text, ConfigError, Env};
use crate::text::{concat, lowered, opt_text, pairs, same, to_ascii_lowercase};
use std::collections::HashMap;
use vstd::prelude::*;

verus! {

/// How many of a speaker's best samples make up a score.
pub const SPEAKER_SCORE_TOP_K: usize = 3;

/// How speakers are identified. The least resemblance that counts is held beside
/// it.
#[derive(Clone, Debug)]
pub struct SpeakerIdConfig {
    pub model_path: String,
    pub db_dir: String,
    pub default_agent_id: String,
}

/// The provider that was asked for, in lower case.
pub open spec fn speaker_provider(env: Env) -> Seq<char> {
    lowered(or_text(env.either("XIAOZHI_SPEAKER_PROVIDER"@, "SPEAKER_PROVIDER"@), "none"@))
}

/// Identification by voice was asked for.
pub open spec fn speaker_wanted(env: Env) -> bool {
    let provider = speaker_provider(env);
    provider == "speaker_id"@ || provider == "speaker"@ || provider == "voiceprint"@
}

/// The text of the setting for the least resemblance that counts.
pub fn min_similarity_setting(env: &Env) -> (r: Option<String>)
    ensures
        opt_text(r) == env.either("XIAOZHI_SPEAKER_MIN_SIMILARITY"@, "SPEAKER_MIN_SIMILARITY"@),
{
    env.get_either("XIAOZHI_SPEAKER_MIN_SIMILARITY", "SPEAKER_MIN_SIMILARITY")
}

/// What the settings come to.
pub open spec fn speaker_configured(env: Env, r: Result<Option<SpeakerIdConfig>, ConfigError>) -> bool {
    match r {
        Ok(None) => means_off(speaker_provider(env)),
        Ok(Some(c)) => {
            &&& !means_off(speaker_provider(env))
            &&& speaker_wanted(env)
            &&& c.model_path@ == or_text(
                env.either("XIAOZHI_SPEAKER_MODEL_PATH"@, "SPEAKER_MODEL_PATH"@),
                "models/voxceleb_resnet34.onnx"@,
            )
            &&& c.db_dir@ == or_text(
                env.either("XIAOZHI_SPEAKER_DB_DIR"@, "SPEAKER_DB_DIR"@),
                "speakers"@,
            )
            &&& c.default_agent_id@ == or_text(
                env.either(
                    "XIAOZHI_SPEAKER_DEFAULT_AGENT_ID"@,
                    "SPEAKER_DEFAULT_AGENT_ID"@,
                ),
                "zhuzhu"@,
            )
        },
        Err(e) => {
            &&& !means_off(speaker_provider(env))
            &&& !speaker_wanted(env)
            &&& e.message@ == "unsupported XIAOZHI_SPEAKER_PROVIDER="@ + speaker_provider(
                env,
            ) + "; expected speaker_id or none"@
        },
    }
}

impl SpeakerIdConfig {
    /// The settings; `None` if identification is switched off.
    pub fn from_env(env: &Env) -> (r: Result<Option<Self>, ConfigError>)
        ensures
            speaker_configured(*env, r),
    {
        let provider = or(env.get_either("XIAOZHI_SPEAKER_PROVIDER", "SPEAKER_PROVIDER"), "none");
        let provider = to_ascii_lowercase(provider.as_str());
        let provider = provider.as_str();
        if is_off(provider) {
            return Ok(None);
        }
        if !same(provider, "speaker_id") && !same(provider, "speaker") && !same(
            provider,
            "voiceprint",
        ) {
            let message = concat("unsupported XIAOZHI_SPEAKER_PROVIDER=", provider);
            let message = concat(message.as_str(), "; expected speaker_id or none");
            return Err(ConfigError { message });
        }
        Ok(
            Some(
                SpeakerIdConfig {
                    model_path: or(
                        env.get_either("XIAOZHI_SPEAKER_MODEL_PATH", "SPEAKER_MODEL_PATH"),
                        "models/voxceleb_resnet34.onnx",
                    ),
                    db_dir: or(
                        env.get_either("XIAOZHI_SPEAKER_DB_DIR", "SPEAKER_DB_DIR"),
                        "speakers",
                    ),
                    default_agent_id: or(
                        env.get_either(
                            "XIAOZHI_SPEAKER_DEFAULT_AGENT_ID",
                            "SPEAKER_DEFAULT_AGENT_ID",
                        ),
                        "zhuzhu",
                    ),
                },
            ),
        )
    }
}

// ---------------------------------------------------------------------------
// Agents
// ---------------------------------------------------------------------------

/// What `serde_json::from_slice` reads as a map from texts to texts; `None` where
/// it returns an error.
pub uninterp spec fn text_map_parsed(data: Seq<u8>) -> Option<Map<Seq<char>, Seq<char>>>;

/// The map that a list of pairs makes; the first pair of a name counts.
pub open spec fn pair_map(v: Seq<(Seq<char>, Seq<char>)>) -> Map<Seq<char>, Seq<char>>
    decreases v.len(),
{
    if v.len() == 0 {
        Map::empty()
    } else {
        pair_map(v.skip(1)).insert(v[0].0, v[0].1)
    }
}

/// `serde_json::from_slice` into a `HashMap` of strings: its entries, in no
/// particular order, or an error. Which error it is is not said.
#[verifier::external_body]
fn parse_text_map(data: &[u8]) -> (r: Result<Vec<(String, String)>, serde_json::Error>)
    ensures
        match r {
            Ok(v) => text_map_parsed(data@) == Some(pair_map(pairs(v@))),
            Err(_) => text_map_parsed(data@) is None,
        },
{
    let map: HashMap<String, String> = serde_json::from_slice(data)?;
    Ok(map.into_iter().collect())
}

/// The file of agents is not a JSON object of texts.
#[derive(Debug, Clone, Copy, PartialEq, Eq, Structural)]
pub struct AgentMapError;

/// The agents that speakers have.
#[derive(Debug)]
pub struct AgentMap {
    pub entries: Vec<(String, String)>,
}

impl AgentMap {
    /// The agent of each speaker that has one.
    pub open spec fn view(self) -> Map<Seq<char>, Seq<char>> {
        pair_map(pairs(self.entries@))
    }

    /// No speaker has an agent.
    pub fn empty() -> (r: Self)
        ensures
            r@ == Map::<Seq<char>, Seq<char>>::empty(),
    {
        let r = AgentMap { entries: Vec::new() };
        proof {
            assert(pairs(r.entries@).len() == 0);
        }
        r
    }

    /// Reads the agents from the bytes of their file.
    pub fn parse(data: &[u8]) -> (r: Result<Self, AgentMapError>)
        ensures
            match r {
                Ok(m) => text_map_parsed(data@) == Some(m@),
                Err(_) => text_map_parsed(data@) is None,
            },
    {
        match parse_text_map(data) {
            Ok(entries) => Ok(AgentMap { entries }),
            Err(_) => Err(AgentMapError),
        }
    }

    /// The agent of a speaker.
    pub fn get(&self, name: &str) -> (r: Option<String>)
        ensures
            match r {
                Some(agent) => self@.contains_key(name@) && self@[name@] == agent@,
                None => !self@.contains_key(name@),
            },
    {
        let n: usize = self.entries.len();
        let ghost all = pairs(self.entries@);
        let mut i: usize = 0;
        proof {
            assert(all.skip(0) =~= all);
        }
        while i < n
            invariant
                n == self.entries@.len(),
                i <= n,
                all == pairs(self.entries@),
                all.len() == n,
                self@.contains_key(name@) == pair_map(all.skip(i as int)).contains_key(name@),
                self@.contains_key(name@) ==> self@[name@] == pair_map(all.skip(i as int))[name@],
            decreases n - i,
        {
            proof {
                assert(all.skip(i as int)[0] == all[i as int]);
                assert(all.skip(i as int).skip(1) =~= all.skip(i + 1));
            }
            if same(self.entries[i].0.as_str(), name) {
                return Some(self.entries[i].1.clone());
            }
            i = i + 1;
        }
        None
    }
}

// ---------------------------------------------------------------------------
// Scores
// ---------------------------------------------------------------------------

/// From the largest to the smallest.
pub open spec fn descending() -> spec_fn(i64, i64) -> bool {
    |a: i64, b: i64| a >= b
}

/// No element is larger than one before it.
pub open spec fn is_descending(s: Seq<i64>) -> bool {
    forall|i: int, j: int| 0 <= i <= j < s.len() ==> s[i] >= s[j]
}

/// Puts a score in its place among descending scores.
fn insert_score(scores: &mut Vec<i64>, score: i64)
    requires
        is_descending(old(scores)@),
    ensures
        is_descending(final(scores)@),
        final(scores)@.to_multiset() == old(scores)@.to_multiset().insert(score),
{
    let n: usize = scores.len();
    let mut i: usize = 0;
    while i < n && scores[i] >= score
        invariant
            scores@ == old(scores)@,
            n == scores@.len(),
            i <= n,
            forall|j: int| 0 <= j < i ==> scores@[j] >= score,
        decreases n - i,
    {
        i = i + 1;
    }
    proof {
        vstd::seq_lib::to_multiset_insert(scores@, i as int, score);
    }
    scores.insert(i, score);
}

/// The `k` largest scores, or all of them if there are fewer, from the largest to
/// the smallest.
pub open spec fn largest(scores: Seq<i64>, k: nat) -> Seq<i64> {
    let all = scores.sort_by(descending());
    if k < all.len() {
        all.take(k as int)
    } else {
        all
    }
}

/// Descending scores are the sorted ones.
proof fn lemma_descending_is_sorted(s: Seq<i64>, sorted: Seq<i64>)
    requires
        is_descending(sorted),
        sorted.to_multiset() == s.to_multiset(),
    ensures
        sorted == s.sort_by(descending()),
{
    s.lemma_sort_by_ensures(descending());
    vstd::seq_lib::lemma_sorted_unique(sorted, s.sort_by(descending()), descending());
}

/// The `k` largest scores, from the largest to the smallest.
pub fn top_scores(scores: &Vec<i64>, k: usize) -> (r: Vec<i64>)
    ensures
        r@ == largest(scores@, k as nat),
{
    let mut sorted: Vec<i64> = Vec::new();
    proof {
        assert(sorted@ =~= scores@.take(0));
    }
    for i in 0..scores.len()
        invariant
            is_descending(sorted@),
            sorted@.to_multiset() == scores@.take(i as int).to_multiset(),
    {
        proof {
            broadcast use vstd::seq_lib::group_to_multiset_ensures;

            assert(scores@.take(i + 1) =~= scores@.take(i as int).push(scores@[i as int]));
        }
        insert_score(&mut sorted, scores[i]);
    }
    proof {
        assert(scores@.take(scores@.len() as int) =~= scores@);
        lemma_descending_is_sorted(scores@, sorted@);
    }
    if k < sorted.len() {
        sorted.truncate(k);
    }
    sorted
}

/// The first of the speakers with the largest score, among those that score more
/// than `floor`.
pub open spec fn is_best(scores: Seq<i64>, floor: i64, best: Option<int>) -> bool {
    match best {
        Some(b) => {
            &&& 0 <= b < scores.len()
            &&& scores[b] > floor
            &&& forall|i: int| 0 <= i < scores.len() ==> scores[i] <= scores[b]
            &&& forall|i: int| 0 <= i < b ==> scores[i] < scores[b]
        },
        None => forall|i: int| 0 <= i < scores.len() ==> scores[i] <= floor,
    }
}

/// The first of the speakers with the largest score over `floor`.
pub fn best_speaker(scores: &Vec<i64>, floor: i64) -> (r: Option<usize>)
    ensures
        is_best(
            scores@,
            floor,
            match r {
                Some(b) => Some(b as int),
                None => None,
            },
        ),
{
    let mut best: Option<usize> = None;
    let mut best_score: i64 = floor;
    for i in 0..scores.len()
        invariant
            best_score >= floor,
            forall|j: int| 0 <= j < i ==> scores@[j] <= best_score,
            match best {
                Some(b) => b < i && scores@[b as int] == best_score && best_score > floor
                    && forall|j: int| 0 <= j < b ==> scores@[j] < best_score,
                None => best_score == floor,
            },
    {
        if scores[i] > best_score {
            best_score = scores[i];
            best = Some(i);
        }
    }
    best
}

/// Who spoke, and which agent answers.
#[derive(Clone, Debug)]
pub struct SpeakerTurnIdentity {
    pub speaker_name: Option<String>,
    pub agent_id: String,
    /// The speaker with the largest score, also where the score is too small.
    pub best: Option<usize>,
}

/// The speakers that are known.
#[derive(Debug)]
pub struct SpeakerRegistry {
    pub speakers: Vec<String>,
    pub agent_map: AgentMap,
}

impl SpeakerRegistry {
    /// The agent of a speaker: the one that was assigned, or one with the speaker's
    /// own name.
    pub open spec fn agent_of(self, name: Seq<char>) -> Seq<char> {
        if self.agent_map@.contains_key(name) {
            self.agent_map@[name]
        } else {
            name
        }
    }

    /// Who spoke, given how each speaker scores. A score has to be over `floor` to
    /// count and at least `min` to name the speaker; where none does, the default
    /// agent answers.
    pub fn identify(&self, scores: &Vec<i64>, default_agent_id: &str, floor: i64, min: i64) -> (r:
        SpeakerTurnIdentity)
        requires
            scores@.len() == self.speakers@.len(),
        ensures
            is_best(
                scores@,
                floor,
                match r.best {
                    Some(b) => Some(b as int),
                    None => None,
                },
            ),
            match r.best {
                Some(b) => if scores@[b as int] >= min {
                    &&& opt_text(r.speaker_name) == Some(self.speakers@[b as int]@)
                    &&& r.agent_id@ == self.agent_of(self.speakers@[b as int]@)
                } else {
                    r.speaker_name is None && r.agent_id@ == default_agent_id@
                },
                None => r.speaker_name is None && r.agent_id@ == default_agent_id@,
            },
    {
        let best = best_speaker(scores, floor);
        match best {
            Some(b) => {
                if scores[b] >= min {
                    let name = self.speakers[b].clone();
                    let agent_id = match self.agent_map.get(name.as_str()) {
                        Some(agent) => agent,
                        None => name.clone(),
                    };
                    return SpeakerTurnIdentity { speaker_name: Some(name), agent_id, best };
                }
            },
            None => {},
        }
        SpeakerTurnIdentity { speaker_name: None, agent_id: default_agent_id.to_owned(), best }
    }
}

/// A turn without audio has no speaker to identify.
pub fn has_voice(pcm: &[i16]) -> (r: bool)
    ensures
        r == (pcm@.len() > 0),
{
    pcm.len() > 0
}

/// There is only one best speaker.
pub proof fn law_best_is_unique(scores: Seq<i64>, floor: i64, a: Option<int>, b: Option<int>)
    requires
        is_best(scores, floor, a),
        is_best(scores, floor, b),
    ensures
        a == b,
{
    match (a, b) {
        (Some(x), Some(y)) => {
            if x < y {
                assert(scores[x] < scores[y]);
            } else if y < x {
                assert(scores[y] < scores[x]);
            }
        },
        (Some(x), None) => {
            assert(scores[x] <= floor);
        },
        (None, Some(y)) => {
            assert(scores[y] <= floor);
        },
        _ => {},
    }
}

/// The best speaker scores more than the floor, no less than anyone, and more than
/// everyone before; there is none exactly if nobody scores more than the floor.
pub proof fn law_best_scores_most(scores: Seq<i64>, floor: i64, best: Option<int>, i: int)
    requires
        is_best(scores, floor, best),
        0 <= i < scores.len(),
    ensures
        best is None ==> scores[i] <= floor,
        best is Some ==> 0 <= best->0 < scores.len() && scores[best->0] > floor && scores[i]
            <= scores[best->0] && (i < best->0 ==> scores[i] < scores[best->0]),
        scores[i] > floor ==> best is Some,
{
}

/// The largest scores are as many as were asked for, or all; they come in descending
/// order, and together with others that are no larger they are all scores.
pub proof fn law_largest_scores(scores: Seq<i64>, k: nat)
    ensures
        largest(scores, k).len() == (if k < scores.len() {
            k
        } else {
            scores.len()
        }),
        exists|rest: Seq<i64>|
            (#[trigger] (largest(scores, k) + rest)).to_multiset() == scores.to_multiset() && (
            forall|i: int, j: int|
                0 <= i <= j < (largest(scores, k) + rest).len() ==> (largest(scores, k) + rest)[i]
                    >= (largest(scores, k) + rest)[j]),
{
    let all = scores.sort_by(descending());
    scores.lemma_sort_by_ensures(descending());
    assert(all.len() == scores.len()) by {
        all.to_multiset_ensures();
        scores.to_multiset_ensures();
    }
    let rest = if k < all.len() {
        all.skip(k as int)
    } else {
        seq![]
    };
    assert(largest(scores, k) + rest =~= all);
    assert forall|i: int, j: int| 0 <= i <= j < all.len() implies all[i] >= all[j] by {
        if i < j {
            assert(descending()(all[i], all[j]));
        }
    }
}

/// A speaker's agent is the one that was assigned, and else has the speaker's own name;
/// the first assignment of a name counts.
pub proof fn law_agents(registry: SpeakerRegistry, name: Seq<char>, i: int)
    ensures
        ({
            let entries = registry.agent_map.entries@;
            &&& 0 <= i < entries.len() && entries[i].0@ == name && (forall|j: int|
                0 <= j < i ==> (#[trigger] entries[j]).0@ != name) ==> registry.agent_of(name)
                == entries[i].1@
            &&& (forall|j: int| 0 <= j < entries.len() ==> (#[trigger] entries[j]).0@ != name)
                ==> registry.agent_of(name) == name
        }),
{
    let entries = registry.agent_map.entries@;
    let all = pairs(entries);
    assert forall|j: int| 0 <= j < entries.len() implies (#[trigger] all[j]).0 == entries[j].0@
        && all[j].1 == entries[j].1@ by {}
    lemma_pair_map(all, name, i);
    if forall|j: int| 0 <= j < entries.len() ==> (#[trigger] entries[j]).0@ != name {
        assert forall|j: int| 0 <= j < all.len() implies (#[trigger] all[j]).0 != name by {
            assert(entries[j].0@ != name);
        }
    }
    if 0 <= i < entries.len() && entries[i].0@ == name && (forall|j: int|
        0 <= j < i ==> (#[trigger] entries[j]).0@ != name) {
        assert forall|j: int| 0 <= j < i implies (#[trigger] all[j]).0 != name by {
            assert(entries[j].0@ != name);
        }
        assert(all[i].0 == name);
    }
}

proof fn lemma_pair_map(v: Seq<(Seq<char>, Seq<char>)>, name: Seq<char>, i: int)
    ensures
        0 <= i < v.len() && v[i].0 == name && (forall|j: int|
            0 <= j < i ==> (#[trigger] v[j]).0 != name) ==> pair_map(v).contains_key(name)
            && pair_map(v)[name] == v[i].1,
        (forall|j: int| 0 <= j < v.len() ==> (#[trigger] v[j]).0 != name)
            ==> !pair_map(v).contains_key(name),
    decreases v.len(),
{
    if v.len() > 0 {
        let rest = v.skip(1);
        lemma_pair_map(rest, name, i - 1);
        assert forall|j: int| 0 <= j < rest.len() implies #[trigger] rest[j] == v[j + 1] by {}
        if (forall|j: int| 0 <= j < v.len() ==> (#[trigger] v[j]).0 != name) {
            assert forall|j: int| 0 <= j < rest.len() implies (#[trigger] rest[j]).0 != name by {
                assert(v[j + 1].0 != name);
            }
            assert(v[0].0 != name);
        }
        if 0 < i < v.len() && v[i].0 == name && (forall|j: int|
            0 <= j < i ==> (#[trigger] v[j]).0 != name) {
            assert(rest[i - 1] == v[i]);
            assert forall|j: int| 0 <= j < i - 1 implies (#[trigger] rest[j]).0 != name by {
                assert(v[j + 1].0 != name);
            }
            assert(v[0].0 != name);
        }
    }
}

/// The settings: which variables are read, and what stands in for one that is not set.
pub proof fn law_settings(env: Env, r: Result<Option<SpeakerIdConfig>, ConfigError>)
    requires
        speaker_configured(env, r),
    ensures
        ({
            let first = |a: Seq<char>, b: Seq<char>|
                match env.nonempty(a) {
                    Some(x) => Some(x),
                    None => env.nonempty(b),
                };
            let set = first("XIAOZHI_SPEAKER_PROVIDER"@, "SPEAKER_PROVIDER"@);
            let provider = speaker_provider(env);
            let wanted = provider == "speaker_id"@ || provider == "speaker"@ || provider
                == "voiceprint"@;
            &&& set matches Some(x) ==> provider == lowered(x)
            &&& set is None ==> r == Ok::<Option<SpeakerIdConfig>, ConfigError>(None)
            &&& if means_off(provider) {
                r == Ok::<Option<SpeakerIdConfig>, ConfigError>(None)
            } else if !wanted {
                r matches Err(e) && e.message@ == "unsupported XIAOZHI_SPEAKER_PROVIDER="@
                    + provider + "; expected speaker_id or none"@
            } else {
                r matches Ok(Some(c)) && {
                    let model = first("XIAOZHI_SPEAKER_MODEL_PATH"@, "SPEAKER_MODEL_PATH"@);
                    let dir = first("XIAOZHI_SPEAKER_DB_DIR"@, "SPEAKER_DB_DIR"@);
                    let agent = first(
                        "XIAOZHI_SPEAKER_DEFAULT_AGENT_ID"@,
                        "SPEAKER_DEFAULT_AGENT_ID"@,
                    );
                    &&& model matches Some(x) ==> c.model_path@ == x
                    &&& model is None ==> c.model_path@ == "models/voxceleb_resnet34.onnx"@
                    &&& dir matches Some(x) ==> c.db_dir@ == x
                    &&& dir is None ==> c.db_dir@ == "speakers"@
                    &&& agent matches Some(x) ==> c.default_agent_id@ == x
                    &&& agent is None ==> c.default_agent_id@ == "zhuzhu"@
                }
            }
        }),
{
    reveal_strlit("none");
    assert(lowered("none"@) =~= "none"@);
}

} // verus!
