//! Long-term memory: what is known of the user, milestones, and the
//! personality baseline that affect decays toward.

use vstd::prelude::*;
use crate::affect::AffectiveState;
use crate::collaborator::{trimmed, trim_range};
use crate::text::concat;
use vstd::string::StrSliceExecFns;

verus! {

/// The long-term personality: the affect baseline.
#[derive(Debug, Clone, Copy, PartialEq, Eq)]
pub struct Personality {
    pub baseline_state: AffectiveState,
}

/// What is known of the user.
#[derive(Debug, Clone)]
pub struct UserProfile {
    pub name: Option<String>,
    pub preferences: Vec<(String, String)>,
}

/// Number of milestones kept.
pub const MILESTONE_CAPACITY: usize = 20;

/// The user profile, interaction count, recent milestones and personality.
#[derive(Debug, Clone)]
pub struct Memory {
    pub user_profile: UserProfile,
    pub interaction_count: u64,
    pub emotional_milestones: Vec<String>,
    pub personality: Personality,
}

impl Memory {
    /// An empty memory with a neutral personality.
    pub fn new() -> (r: Memory)
        ensures
            r.user_profile.name.is_none(),
            r.user_profile.preferences@.len() == 0,
            r.interaction_count == 0,
            r.emotional_milestones@.len() == 0,
            r.personality.baseline_state == (AffectiveState {
                valence: 0,
                arousal: 300,
                dominance: 100,
                novelty: 0,
            }),
    {
        Memory {
            user_profile: UserProfile { name: None, preferences: Vec::new() },
            interaction_count: 0,
            emotional_milestones: Vec::new(),
            personality: Personality { baseline_state: AffectiveState::new_neutral() },
        }
    }

    /// Records a milestone, keeping the last twenty.
    pub fn record_milestone(&mut self, details: String)
        requires
            old(self).emotional_milestones@.len() <= MILESTONE_CAPACITY,
        ensures
            final(self).emotional_milestones@ == (if old(self).emotional_milestones@.push(
                details,
            ).len() > MILESTONE_CAPACITY {
                old(self).emotional_milestones@.push(details).drop_first()
            } else {
                old(self).emotional_milestones@.push(details)
            }),
            final(self).emotional_milestones@.len() <= MILESTONE_CAPACITY,
            final(self).user_profile == old(self).user_profile,
            final(self).interaction_count == old(self).interaction_count,
            final(self).personality == old(self).personality,
    {
        let ghost m = self.emotional_milestones@;
        self.emotional_milestones.push(details);
        if self.emotional_milestones.len() > MILESTONE_CAPACITY {
            self.emotional_milestones.remove(0);
            assert(self.emotional_milestones@ =~= m.push(details).drop_first());
        }
    }
}

/// What `char::to_uppercase` yields for `c`.
pub uninterp spec fn upper_of(c: char) -> Seq<char>;

/// Relies on std's `char::to_uppercase`: the uppercase form of `c`, which
/// depends on `c` alone.
#[verifier::external_body]
fn uppercase(c: char) -> (r: String)
    ensures
        r@ == upper_of(c),
{
    c.to_uppercase().to_string()
}

/// Whether `c` is `n`, or the ASCII capital of the lowercase letter `n`.
pub open spec fn same_ignoring_case(c: char, n: char) -> bool {
    c == n || ('A' <= c <= 'Z' && (c as u32) + 32 == (n as u32))
}

/// The phrase that introduces the user's name.
pub open spec fn name_phrase() -> Seq<char> {
    "my name is"@
}

/// Whether the phrase starts at index `i` of `s`, ignoring ASCII case.
pub open spec fn phrase_at(s: Seq<char>, i: int) -> bool {
    0 <= i && i + name_phrase().len() <= s.len() && forall|k: int|
        0 <= k < name_phrase().len() ==> same_ignoring_case(#[trigger] s[i + k], name_phrase()[k])
}

/// Whether `c` ends a word of a name.
pub open spec fn is_separator(c: char) -> bool {
    c == ' ' || c == ',' || c == '.'
}

/// Length of the run of `s` before its first separator.
pub open spec fn word_len(s: Seq<char>) -> nat
    decreases s.len(),
{
    if s.len() == 0 || is_separator(s[0]) {
        0
    } else {
        1 + word_len(s.drop_first())
    }
}

/// The name a prompt gives: after the first occurrence of the phrase, white
/// space trimmed, the text up to the first space, comma or full stop, with
/// its first character in uppercase; none without the phrase or a name.
pub open spec fn name_in(s: Seq<char>) -> Option<Seq<char>> {
    if exists|i: int| phrase_at(s, i) {
        let i = choose|i: int| phrase_at(s, i) && forall|j: int| 0 <= j < i ==> !phrase_at(s, j);
        let rest = trimmed(s.subrange(i + name_phrase().len(), s.len() as int));
        let w = rest.subrange(0, word_len(rest) as int);
        if w.len() > 0 {
            Some(upper_of(w[0]) + w.drop_first())
        } else {
            None
        }
    } else {
        None
    }
}

fn same_ignoring_case_exec(c: char, n: char) -> (r: bool)
    ensures
        r == same_ignoring_case(c, n),
{
    c == n || ('A' <= c && c <= 'Z' && (c as u32) + 32 == (n as u32))
}

/// The index of the first occurrence of the phrase in `s`, if any.
fn find_phrase(s: &str) -> (r: Option<usize>)
    ensures
        match r {
            Some(i) => phrase_at(s@, i as int) && forall|j: int| 0 <= j < i ==> !phrase_at(s@, j),
            None => forall|j: int| !phrase_at(s@, j),
        },
{
    let n = s.unicode_len();
    let phrase = "my name is";
    proof {
        reveal_strlit("my name is");
    }
    let m = phrase.unicode_len();
    if m > n {
        return None;
    }
    let mut i: usize = 0;
    while i <= n - m
        invariant
            n == s@.len(),
            m == name_phrase().len(),
            phrase@ == name_phrase(),
            m <= n,
            forall|j: int| 0 <= j < i ==> !phrase_at(s@, j),
        decreases n - m + 1 - i,
    {
        let mut k: usize = 0;
        let mut ok = true;
        while k < m
            invariant
                n == s@.len(),
                m == name_phrase().len(),
                phrase@ == name_phrase(),
                i + m <= n,
                k <= m,
                ok == forall|q: int| 0 <= q < k ==> same_ignoring_case(#[trigger] s@[i + q], name_phrase()[q]),
            decreases m - k,
        {
            if !same_ignoring_case_exec(s.get_char(i + k), phrase.get_char(k)) {
                ok = false;
            }
            k = k + 1;
        }
        if ok {
            return Some(i);
        }
        i = i + 1;
    }
    proof {
        assert forall|j: int| !phrase_at(s@, j) by {
            if 0 <= j < i {
            }
        }
    }
    None
}

impl Memory {
    /// Learns the user's name from a prompt that says "my name is ...",
    /// unless a name is already known.
    pub fn learn_from_prompt(&mut self, prompt: &str)
        ensures
            old(self).user_profile.name.is_some() ==> *final(self) == *old(self),
            old(self).user_profile.name.is_none() ==> {
                &&& name_in(prompt@).is_none() ==> *final(self) == *old(self)
                &&& name_in(prompt@).is_some() ==> final(self).user_profile.name.is_some()
                    && final(self).user_profile.name.unwrap()@ == name_in(prompt@).unwrap()
                    && final(self).user_profile.preferences == old(self).user_profile.preferences
                    && final(self).interaction_count == old(self).interaction_count
                    && final(self).emotional_milestones == old(self).emotional_milestones
                    && final(self).personality == old(self).personality
            },
    {
        if self.user_profile.name.is_some() {
            return;
        }
        let found = find_phrase(prompt);
        proof {
            reveal_strlit("my name is");
        }
        match found {
            None => {
                return;
            },
            Some(i) => {
                let ghost c = choose|c: int| phrase_at(prompt@, c) && forall|j: int| 0 <= j < c ==> !phrase_at(prompt@, j);
                assert(c == i) by {
                    if c < i {
                    } else if c > i {
                    }
                }
                let n = prompt.unicode_len();
                let (a, b) = trim_range(prompt, i + 10, n);
                let ghost rest = trimmed(prompt@.subrange(i + 10, n as int));
                let mut e = a;
                while e < b && !(prompt.get_char(e) == ' ' || prompt.get_char(e) == ',' || prompt.get_char(e) == '.')
                    invariant
                        a <= e <= b <= n == prompt@.len(),
                        rest == prompt@.subrange(a as int, b as int),
                        word_len(rest) == (e - a) + word_len(prompt@.subrange(e as int, b as int)),
                    decreases b - e,
                {
                    assert(prompt@.subrange(e as int, b as int).drop_first() =~= prompt@.subrange(e + 1, b as int));
                    e = e + 1;
                }
                assert(word_len(prompt@.subrange(e as int, b as int)) == 0);
                if e == a {
                    return;
                }
                let ghost w = rest.subrange(0, word_len(rest) as int);
                assert(w =~= prompt@.subrange(a as int, e as int));
                let first = uppercase(prompt.get_char(a));
                let tail = prompt.substring_char(a + 1, e);
                assert(w.drop_first() =~= tail@);
                self.user_profile.name = Some(concat(first.as_str(), tail));
            },
        }
    }
}

} // verus!
