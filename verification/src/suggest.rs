//! Ranking of completion candidates.
//!
//! Candidates come from the shell history and, while the user is still
//! typing the command itself, from the directories under the working
//! directory. Each candidate is scored by fuzzy matching; a history line
//! that occurs again gains a point; the result is ordered by score, best
//! first.
use crate::message::texts;
use crate::text::{decimal, decimal_text, first_token, first_word, has_space, is_blank};
use vstd::prelude::*;
use vstd::string::*;

verus! {

/// Where a suggestion comes from and what it completes.
#[derive(Clone, Copy, Debug, PartialEq, Eq, Structural)]
pub enum SuggestionType {
    HistoryInternal,
    HistoryExternal,
    CommandInternal,
    CommandExternal,
    ArgumentInternal,
    ArgumentExternal,
    Dir,
}

/// One candidate completion.
#[derive(Clone, Debug, PartialEq, Eq)]
pub struct Suggestion {
    /// How well the candidate matches; higher is better.
    pub score: i64,
    /// The text to run.
    pub command: String,
    /// The text to show.
    pub display: String,
    pub suggestion_type: SuggestionType,
    /// For a directory, when it was last modified: milliseconds since the
    /// Unix epoch, in decimal.
    pub date: Option<String>,
}

pub struct SuggestionView {
    pub score: i64,
    pub command: Seq<char>,
    pub display: Seq<char>,
    pub suggestion_type: SuggestionType,
    pub date: Option<Seq<char>>,
}

impl View for Suggestion {
    type V = SuggestionView;

    open spec fn view(&self) -> SuggestionView {
        SuggestionView {
            score: self.score,
            command: self.command@,
            display: self.display@,
            suggestion_type: self.suggestion_type,
            date: match self.date {
                Some(date) => Some(date@),
                None => None,
            },
        }
    }
}

/// The mathematical value of a list of suggestions.
pub open spec fn suggestion_views(list: Seq<Suggestion>) -> Seq<SuggestionView> {
    Seq::new(list.len(), |i: int| list[i]@)
}

/// The longest text, in characters, that is handed to the matcher. Its
/// scores are sums over the characters of both texts, kept in 32 bits;
/// below this length they cannot overflow.
pub const MATCH_LIMIT: usize = 1048576;

/// The score that the skim matcher, in its default configuration, gives
/// to `choice` for `pattern`; `None` where `choice` does not match.
pub uninterp spec fn skim_score(choice: Seq<char>, pattern: Seq<char>) -> Option<i64>;

/// The score of a candidate: that of the matcher, and none for texts
/// beyond [`MATCH_LIMIT`].
pub open spec fn score_of(choice: Seq<char>, pattern: Seq<char>) -> Option<i64> {
    if choice.len() <= MATCH_LIMIT && pattern.len() <= MATCH_LIMIT {
        skim_score(choice, pattern)
    } else {
        None
    }
}

/// Calls `fuzzy_matcher::skim::SkimMatcherV2::fuzzy_match` on a matcher
/// made by `SkimMatcherV2::default()`. The matcher is made for this one
/// call, so nothing but the two texts enters the score: the contract
/// claims only that the result is the same for the same two texts.
#[verifier::external_body]
fn skim_match(choice: &str, pattern: &str) -> (score: Option<i64>)
    requires
        choice@.len() <= MATCH_LIMIT,
        pattern@.len() <= MATCH_LIMIT,
    ensures
        score == skim_score(choice@, pattern@),
{
    fuzzy_matcher::FuzzyMatcher::fuzzy_match(
        &fuzzy_matcher::skim::SkimMatcherV2::default(),
        choice,
        pattern,
    )
}

/// Scores `choice` against `pattern`.
pub fn fuzzy_score(choice: &str, pattern: &str) -> (score: Option<i64>)
    ensures
        score == score_of(choice@, pattern@),
{
    if choice.unicode_len() <= MATCH_LIMIT && pattern.unicode_len() <= MATCH_LIMIT {
        skim_match(choice, pattern)
    } else {
        None
    }
}

/// The suggestion made from a history line that matched with `score`.
pub open spec fn history_entry(line: Seq<char>, score: i64) -> SuggestionView {
    SuggestionView {
        score,
        command: line,
        display: line,
        suggestion_type: SuggestionType::HistoryExternal,
        date: None,
    }
}

/// A suggestion that occurred once more: one point up. A score never
/// wraps: at the top of its range it stays.
pub open spec fn bumped(suggestion: SuggestionView) -> SuggestionView {
    SuggestionView {
        score: if suggestion.score < i64::MAX {
            (suggestion.score + 1) as i64
        } else {
            suggestion.score
        },
        ..suggestion
    }
}

/// The index of the first suggestion in `list` whose command is
/// `command`, or the length of `list` if there is none.
pub open spec fn position(list: Seq<SuggestionView>, command: Seq<char>) -> int
    decreases list.len(),
{
    if list.len() == 0 || list.first().command == command {
        0
    } else {
        1 + position(list.drop_first(), command)
    }
}

/// `list` after the history line `line` was seen with `score`: a line that
/// does not match changes nothing; a line seen before gains a point where
/// it stands; a new line is added at the end.
pub open spec fn recorded(list: Seq<SuggestionView>, line: Seq<char>, score: Option<i64>) -> Seq<
    SuggestionView,
> {
    match score {
        None => list,
        Some(score) => {
            let at = position(list, line);
            if at < list.len() {
                list.update(at, bumped(list[at]))
            } else {
                list.push(history_entry(line, score))
            }
        },
    }
}

/// `position` is the first index that holds `command`.
pub proof fn lemma_position(list: Seq<SuggestionView>, command: Seq<char>, at: int)
    requires
        0 <= at <= list.len(),
        forall|j: int| 0 <= j < at ==> list[j].command != command,
        at < list.len() ==> list[at].command == command,
    ensures
        position(list, command) == at,
    decreases list.len(),
{
    if list.len() > 0 && at > 0 {
        let rest = list.drop_first();
        assert forall|j: int| 0 <= j < at - 1 implies rest[j].command != command by {
            assert(rest[j] == list[j + 1]);
        }
        lemma_position(rest, command, at - 1);
    }
}

/// Records one line of the history in `list`, as [`recorded`] says.
pub fn record_history(list: &mut Vec<Suggestion>, line: &str, score: Option<i64>)
    ensures
        suggestion_views(final(list)@) == recorded(suggestion_views(old(list)@), line@, score),
{
    let ghost before = suggestion_views(list@);
    match score {
        None => {},
        Some(score) => {
            let command = String::from_str(line);
            let mut at: usize = 0;
            while at < list.len() && !(list[at].command == command)
                invariant
                    at <= list.len(),
                    command@ == line@,
                    suggestion_views(list@) == before,
                    forall|j: int| 0 <= j < at ==> before[j].command != line@,
                decreases list.len() - at,
            {
                at += 1;
            }
            proof {
                lemma_position(before, line@, at as int);
            }
            if at < list.len() {
                let mut seen = list.remove(at);
                if seen.score < i64::MAX {
                    seen.score = seen.score + 1;
                }
                list.insert(at, seen);
                assert(suggestion_views(list@) =~= before.update(at as int, bumped(before[at as int])));
            } else {
                list.push(
                    Suggestion {
                        score,
                        command,
                        display: String::from_str(line),
                        suggestion_type: SuggestionType::HistoryExternal,
                        date: None,
                    },
                );
                assert(suggestion_views(list@) =~= before.push(history_entry(line@, score)));
            }
        },
    }
}

/// Where a suggestion with `score` goes into `list`, which is ordered best
/// first: before the first suggestion whose score is not above `score`.
pub open spec fn slot(list: Seq<SuggestionView>, score: i64) -> int
    decreases list.len(),
{
    if list.len() == 0 || list.first().score <= score {
        0
    } else {
        1 + slot(list.drop_first(), score)
    }
}

/// `list` ordered by score, best first. Suggestions of equal score keep the
/// order they had in `list`.
pub open spec fn ranked(list: Seq<SuggestionView>) -> Seq<SuggestionView>
    decreases list.len(),
{
    if list.len() == 0 {
        Seq::empty()
    } else {
        let rest = ranked(list.drop_first());
        rest.insert(slot(rest, list.first().score), list.first())
    }
}

/// `slot` is the first index whose score is not above `score`.
pub proof fn lemma_slot(list: Seq<SuggestionView>, score: i64, at: int)
    requires
        0 <= at <= list.len(),
        forall|j: int| 0 <= j < at ==> list[j].score > score,
        at < list.len() ==> list[at].score <= score,
    ensures
        slot(list, score) == at,
    decreases list.len(),
{
    if list.len() > 0 && at > 0 {
        let rest = list.drop_first();
        assert forall|j: int| 0 <= j < at - 1 implies rest[j].score > score by {
            assert(rest[j] == list[j + 1]);
        }
        lemma_slot(rest, score, at - 1);
    }
}

/// Every suggestion before the slot scores above `score`; the one at the
/// slot, if any, does not.
pub proof fn lemma_slot_divides(list: Seq<SuggestionView>, score: i64)
    ensures
        0 <= slot(list, score) <= list.len(),
        forall|j: int| 0 <= j < slot(list, score) ==> list[j].score > score,
        slot(list, score) < list.len() ==> list[slot(list, score)].score <= score,
    decreases list.len(),
{
    if list.len() > 0 && list.first().score > score {
        let rest = list.drop_first();
        lemma_slot_divides(rest, score);
        assert forall|j: int| 0 <= j < slot(list, score) implies list[j].score > score by {
            if j > 0 {
                assert(list[j] == rest[j - 1]);
            }
        }
        if slot(list, score) < list.len() {
            assert(list[slot(list, score)] == rest[slot(rest, score)]);
        }
    }
}

/// Scores never rise along `list`.
pub open spec fn ordered(list: Seq<SuggestionView>) -> bool {
    forall|i: int, j: int| 0 <= i < j < list.len() ==> list[i].score >= list[j].score
}

/// Ranking orders: scores never rise along a ranked list.
pub proof fn law_ranked_is_ordered(list: Seq<SuggestionView>)
    ensures
        ordered(ranked(list)),
        ranked(list).len() == list.len(),
    decreases list.len(),
{
    if list.len() > 0 {
        let rest = ranked(list.drop_first());
        let first = list.first();
        let at = slot(rest, first.score);
        law_ranked_is_ordered(list.drop_first());
        lemma_slot_divides(rest, first.score);
        let all = rest.insert(at, first);
        assert forall|i: int, j: int| 0 <= i < j < all.len() implies all[i].score
            >= all[j].score by {
            if j < at {
                assert(all[i] == rest[i] && all[j] == rest[j]);
            } else if j == at {
                assert(all[i] == rest[i]);
            } else if i < at {
                assert(all[i] == rest[i] && all[j] == rest[j - 1]);
                if at < j - 1 {
                    assert(rest[at].score >= rest[j - 1].score);
                }
            } else if i == at {
                assert(all[j] == rest[j - 1]);
                if at < j - 1 {
                    assert(rest[at].score >= rest[j - 1].score);
                }
            } else {
                assert(all[i] == rest[i - 1] && all[j] == rest[j - 1]);
            }
        }
    }
}

/// Ranking loses and invents nothing: a ranked list holds what the list
/// held, each suggestion as often.
pub proof fn law_ranked_keeps_all(list: Seq<SuggestionView>)
    ensures
        ranked(list).to_multiset() == list.to_multiset(),
    decreases list.len(),
{
    if list.len() == 0 {
        assert(ranked(list) =~= list);
    } else {
        let tail = list.drop_first();
        let rest = ranked(tail);
        let first = list.first();
        law_ranked_keeps_all(tail);
        lemma_slot_divides(rest, first.score);
        vstd::seq_lib::to_multiset_insert(rest, slot(rest, first.score), first);
        vstd::seq_lib::to_multiset_insert(tail, 0, first);
        assert(tail.insert(0, first) =~= list);
    }
}

/// A list that is ordered already is its own ranking.
pub proof fn law_ranked_keeps_order(list: Seq<SuggestionView>)
    requires
        ordered(list),
    ensures
        ranked(list) == list,
    decreases list.len(),
{
    if list.len() == 0 {
        assert(ranked(list) =~= list);
    } else {
        let tail = list.drop_first();
        assert forall|i: int, j: int| 0 <= i < j < tail.len() implies tail[i].score
            >= tail[j].score by {
            assert(tail[i] == list[i + 1] && tail[j] == list[j + 1]);
        }
        law_ranked_keeps_order(tail);
        if tail.len() > 0 {
            assert(tail[0] == list[1]);
        }
        lemma_slot(tail, list.first().score, 0);
        assert(tail.insert(0, list.first()) =~= list);
    }
}

/// Orders `list` by score, best first; suggestions of equal score keep
/// their order.
pub fn rank(list: Vec<Suggestion>) -> (sorted: Vec<Suggestion>)
    ensures
        suggestion_views(sorted@) == ranked(suggestion_views(list@)),
{
    let ghost all = suggestion_views(list@);
    let mut list = list;
    let mut sorted: Vec<Suggestion> = Vec::new();
    assert(all.skip(all.len() as int) =~= Seq::empty());
    assert(suggestion_views(sorted@) =~= Seq::empty());
    while list.len() > 0
        invariant
            list.len() <= all.len(),
            suggestion_views(list@) == all.take(list.len() as int),
            suggestion_views(sorted@) == ranked(all.skip(list.len() as int)),
        decreases list.len(),
    {
        let ghost n = list.len() as int;
        let ghost done = suggestion_views(sorted@);
        let ghost left = suggestion_views(list@);
        let next = list.pop().unwrap();
        assert(next@ == left[n - 1]);
        assert(all.take(n)[n - 1] == all[n - 1]);
        let mut at: usize = 0;
        while at < sorted.len() && sorted[at].score > next.score
            invariant
                at <= sorted.len(),
                suggestion_views(sorted@) == done,
                forall|j: int| 0 <= j < at ==> done[j].score > next.score,
            decreases sorted.len() - at,
        {
            at += 1;
        }
        proof {
            lemma_slot(done, next.score, at as int);
            let tail = all.skip(n - 1);
            assert(tail.first() == next@);
            assert(tail.drop_first() =~= all.skip(n));
        }
        sorted.insert(at, next);
        assert(suggestion_views(sorted@) =~= done.insert(at as int, next@));
        assert(suggestion_views(list@) =~= all.take(n - 1));
    }
    assert(all.skip(0) =~= all);
    sorted
}

/// An entry of the working directory, as the host read it.
#[derive(Clone, Debug, PartialEq, Eq)]
pub struct Entry {
    /// The path of the entry.
    pub path: String,
    /// The last component of the path.
    pub name: String,
    /// Whether the entry is a directory.
    pub is_dir: bool,
    /// When the entry was last modified, in milliseconds since the Unix
    /// epoch.
    pub modified_ms: u128,
}

pub struct EntryView {
    pub path: Seq<char>,
    pub name: Seq<char>,
    pub is_dir: bool,
    pub modified_ms: u128,
}

impl View for Entry {
    type V = EntryView;

    open spec fn view(&self) -> EntryView {
        EntryView {
            path: self.path@,
            name: self.name@,
            is_dir: self.is_dir,
            modified_ms: self.modified_ms,
        }
    }
}

/// The mathematical value of a list of entries.
pub open spec fn entry_views(list: Seq<Entry>) -> Seq<EntryView> {
    Seq::new(list.len(), |i: int| list[i]@)
}

/// The suggestion made from a directory that matched with `score`.
pub open spec fn dir_entry(entry: EntryView, score: i64) -> SuggestionView {
    SuggestionView {
        score,
        command: entry.name,
        display: entry.name,
        suggestion_type: SuggestionType::Dir,
        date: Some(decimal(entry.modified_ms as nat)),
    }
}

/// `list` after `entry` was seen with `score`: a directory that matches is
/// added at the end; anything else changes nothing.
pub open spec fn listed(list: Seq<SuggestionView>, entry: EntryView, score: Option<i64>) -> Seq<
    SuggestionView,
> {
    match score {
        Some(score) => if entry.is_dir {
            list.push(dir_entry(entry, score))
        } else {
            list
        },
        None => list,
    }
}

/// Records one entry of the working directory in `list`, as [`listed`]
/// says.
pub fn record_directory(list: &mut Vec<Suggestion>, entry: &Entry, score: Option<i64>)
    ensures
        suggestion_views(final(list)@) == listed(suggestion_views(old(list)@), entry@, score),
{
    let ghost before = suggestion_views(list@);
    match score {
        Some(score) => {
            if entry.is_dir {
                list.push(
                    Suggestion {
                        score,
                        command: entry.name.clone(),
                        display: entry.name.clone(),
                        suggestion_type: SuggestionType::Dir,
                        date: Some(decimal_text(entry.modified_ms)),
                    },
                );
                assert(suggestion_views(list@) =~= before.push(dir_entry(entry@, score)));
            }
        },
        None => {},
    }
}

/// The suggestions that the lines of `history` give for `input`, each
/// line matched against the whole input, in the order in which the lines
/// first occur.
pub open spec fn from_history(history: Seq<Seq<char>>, input: Seq<char>) -> Seq<SuggestionView>
    decreases history.len(),
{
    if history.len() == 0 {
        Seq::empty()
    } else {
        recorded(
            from_history(history.drop_last(), input),
            history.last(),
            score_of(history.last(), input),
        )
    }
}

/// `list` followed by the suggestions that `entries` give for `token`,
/// the path of each directory matched against the token.
pub open spec fn with_directories(
    list: Seq<SuggestionView>,
    entries: Seq<EntryView>,
    token: Seq<char>,
) -> Seq<SuggestionView>
    decreases entries.len(),
{
    if entries.len() == 0 {
        list
    } else {
        listed(
            with_directories(list, entries.drop_last(), token),
            entries.last(),
            score_of(entries.last().path, token),
        )
    }
}

/// The suggestions for `input`: those of the history and, as long as the
/// input holds no space, those of the directories for its first word; all
/// of them ranked.
pub open spec fn suggestions(
    input: Seq<char>,
    history: Seq<Seq<char>>,
    entries: Seq<EntryView>,
) -> Seq<SuggestionView> {
    let past = from_history(history, input);
    if input.contains(' ') {
        ranked(past)
    } else {
        ranked(with_directories(past, entries, first_token(input)))
    }
}

/// Whether directories are suggested for `input`: as long as it holds no
/// space. The host need not read the working directory otherwise.
pub fn wants_directories(input: &str) -> (wanted: bool)
    ensures
        wanted == !input@.contains(' '),
{
    !has_space(input)
}

/// Ranks the completions of `input`, given the lines of the shell history
/// and the entries of the working directory. The input must hold a word.
pub fn get_suggestions(input: &str, history: &Vec<String>, entries: &Vec<Entry>) -> (list: Vec<
    Suggestion,
>)
    requires
        !is_blank(input@),
    ensures
        suggestion_views(list@) == suggestions(input@, texts(history@), entry_views(entries@)),
{
    let ghost lines = texts(history@);
    let mut list: Vec<Suggestion> = Vec::new();
    let mut i: usize = 0;
    assert(lines.take(0) =~= Seq::empty());
    assert(suggestion_views(list@) =~= Seq::empty());
    while i < history.len()
        invariant
            i <= history.len(),
            lines == texts(history@),
            suggestion_views(list@) == from_history(lines.take(i as int), input@),
        decreases history.len() - i,
    {
        let line = history[i].as_str();
        let score = fuzzy_score(line, input);
        record_history(&mut list, line, score);
        proof {
            let seen = lines.take(i + 1);
            assert(seen.drop_last() =~= lines.take(i as int));
            assert(seen.last() == line@);
        }
        i += 1;
    }
    assert(lines.take(history.len() as int) =~= lines);
    if wants_directories(input) {
        let token = first_word(input);
        let ghost found = entry_views(entries@);
        let ghost past = suggestion_views(list@);
        let mut k: usize = 0;
        assert(found.take(0) =~= Seq::empty());
        while k < entries.len()
            invariant
                k <= entries.len(),
                found == entry_views(entries@),
                token@ == first_token(input@),
                suggestion_views(list@) == with_directories(past, found.take(k as int), token@),
            decreases entries.len() - k,
        {
            let entry = &entries[k];
            let score = if entry.is_dir {
                fuzzy_score(entry.path.as_str(), token.as_str())
            } else {
                None
            };
            record_directory(&mut list, entry, score);
            proof {
                let seen = found.take(k + 1);
                assert(seen.drop_last() =~= found.take(k as int));
                assert(seen.last() == entry@);
            }
            k += 1;
        }
        assert(found.take(entries.len() as int) =~= found);
    }
    rank(list)
}

} // verus!
