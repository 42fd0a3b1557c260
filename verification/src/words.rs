//! Picking a secret word from a word-list text: the text splits into lines,
//! the empty lines fall away, and one of the remaining words is chosen at
//! random and trimmed. Reading the list from disk happens outside the
//! library.

use vstd::prelude::*;

use vstd::string::StrSliceExecFns;

use crate::select::random_below;
use crate::vecops::push_char;

verus! {

/// The position of the first line break at or after `from`, or the text's
/// length when none is left.
pub open spec fn find_newline(s: Seq<char>, from: int) -> int
    decreases s.len() - from,
{
    if from < 0 || from >= s.len() {
        s.len() as int
    } else if s[from] == '\n' {
        from
    } else {
        find_newline(s, from + 1)
    }
}

/// Where `find_newline` points: at or after `from`, within the text, at a
/// line break unless none is left, and past nothing but ordinary characters.
pub proof fn lemma_find_newline_spec(s: Seq<char>, from: int)
    requires
        0 <= from <= s.len(),
    ensures
        from <= find_newline(s, from) <= s.len(),
        find_newline(s, from) < s.len() ==> s[find_newline(s, from)] == '\n',
        forall|k: int| from <= k < find_newline(s, from) ==> s[k] != '\n',
    decreases s.len() - from,
{
    if from < s.len() && s[from] != '\n' {
        lemma_find_newline_spec(s, from + 1);
    }
}

/// The lines of the text from position `from` on: the pieces between line
/// breaks, in order, line breaks dropped; a trailing break yields a final
/// empty line, as splitting on a separator does.
pub open spec fn lines_from(s: Seq<char>, from: int) -> Seq<Seq<char>>
    decreases s.len() - from,
    when 0 <= from <= s.len()
    via lines_from_decreases
{
    let j = find_newline(s, from);
    if j >= s.len() {
        seq![s.subrange(from, s.len() as int)]
    } else {
        seq![s.subrange(from, j)] + lines_from(s, j + 1)
    }
}

#[via_fn]
proof fn lines_from_decreases(s: Seq<char>, from: int) {
    lemma_find_newline_spec(s, from);
}

/// The lines of the whole text.
pub open spec fn lines_of(s: Seq<char>) -> Seq<Seq<char>> {
    lines_from(s, 0)
}

/// Whether a line holds anything.
pub open spec fn nonempty(l: Seq<char>) -> bool {
    l.len() > 0
}

/// The non-empty test, as a value for `filter`.
pub open spec fn nonempty_pred() -> spec_fn(Seq<char>) -> bool {
    |l: Seq<char>| nonempty(l)
}

/// The candidate words of a word-list text: its non-empty lines, in order.
pub open spec fn candidate_words(s: Seq<char>) -> Seq<Seq<char>> {
    lines_of(s).filter(nonempty_pred())
}

/// What trimming leaves of a word; see `trim_str`.
pub uninterp spec fn trimmed_of(s: Seq<char>) -> Seq<char>;

/// Relies on str::trim: removes leading and trailing whitespace; the result
/// depends on the characters alone, is never longer than the input, and an
/// empty input stays empty.
#[verifier::external_body]
fn trim_str(s: &str) -> (r: String)
    ensures
        r@ == trimmed_of(s@),
        r@.len() <= s@.len(),
        s@.len() == 0 ==> r@.len() == 0,
{
    String::from(s.trim())
}

/// Collects the candidate words of a word-list text: its non-empty lines, in
/// order.
pub fn collect_words(contents: &str) -> (r: Vec<String>)
    ensures
        r.deep_view() == candidate_words(contents@),
{
    let ghost s = contents@;
    let n = contents.unicode_len();
    let mut words: Vec<String> = Vec::new();
    let mut cur = String::new();
    let mut idx: usize = 0;
    let ghost mut line_start: int = 0;
    let ghost mut done: Seq<Seq<char>> = Seq::empty();
    proof {
        lemma_find_newline_spec(s, 0);
        reveal(Seq::filter);
        assert(done.filter(nonempty_pred()) =~= Seq::<Seq<char>>::empty());
    }
    while idx < n
        invariant
            n == s.len(),
            contents@ == s,
            0 <= line_start <= idx <= n,
            cur@ == s.subrange(line_start, idx as int),
            find_newline(s, line_start) >= idx,
            done + lines_from(s, line_start) =~= lines_of(s),
            words.deep_view() == done.filter(nonempty_pred()),
        decreases n - idx,
    {
        let c = contents.get_char(idx);
        proof {
            lemma_find_newline_spec(s, line_start);
        }
        if c == '\n' {
            proof {
                assert(find_newline(s, line_start) == idx);
                assert(lines_from(s, line_start) == seq![cur@] + lines_from(s, idx + 1));
                let done2 = done.push(cur@);
                assert(done2 + lines_from(s, idx + 1) =~= lines_of(s));
                assert(done2.drop_last() =~= done);
                assert(done2.last() == cur@);
            }
            if !cur.as_str().is_empty() {
                proof {
                    reveal(Seq::filter);
                    assert(words.deep_view().push(cur@) =~= done.push(cur@).filter(
                        nonempty_pred(),
                    ));
                }
                words.push(cur);
            } else {
                proof {
                    reveal(Seq::filter);
                    assert(words.deep_view() =~= done.push(cur@).filter(nonempty_pred()));
                }
            }
            cur = String::new();
            proof {
                done = done.push(s.subrange(line_start, idx as int));
                line_start = idx as int + 1;
                lemma_find_newline_spec(s, line_start);
                assert(cur@ =~= s.subrange(line_start, idx as int + 1));
            }
        } else {
            push_char(&mut cur, c);
            proof {
                assert(cur@ =~= s.subrange(line_start, idx as int + 1));
                if find_newline(s, line_start) == idx {
                    assert(s[idx as int] == '\n');
                    assert(false);
                }
            }
        }
        idx += 1;
    }
    proof {
        lemma_find_newline_spec(s, line_start);
        assert(find_newline(s, line_start) == s.len());
        assert(lines_from(s, line_start) == seq![cur@]);
        let done2 = done.push(cur@);
        assert(done2 =~= lines_of(s));
        assert(done2.drop_last() =~= done);
        assert(done2.last() == cur@);
    }
    if !cur.as_str().is_empty() {
        proof {
            reveal(Seq::filter);
            assert(words.deep_view().push(cur@) =~= done.push(cur@).filter(nonempty_pred()));
        }
        words.push(cur);
    } else {
        proof {
            reveal(Seq::filter);
            assert(words.deep_view() =~= done.push(cur@).filter(nonempty_pred()));
        }
    }
    words
}

/// Counts the lines of a text the way a line iterator hands them out: pieces
/// between line breaks, with no piece after a trailing break.
pub fn count_lines(contents: &str) -> (r: usize)
    ensures
        lines_of(contents@).last().len() == 0 ==> r == lines_of(contents@).len() - 1,
        lines_of(contents@).last().len() != 0 ==> r == lines_of(contents@).len(),
{
    let ghost s = contents@;
    let n = contents.unicode_len();
    let mut count: usize = 0;
    let mut tail_len: usize = 0;
    let mut idx: usize = 0;
    let ghost mut line_start: int = 0;
    let ghost mut done: Seq<Seq<char>> = Seq::empty();
    proof {
        lemma_find_newline_spec(s, 0);
    }
    while idx < n
        invariant
            n == s.len(),
            contents@ == s,
            0 <= line_start <= idx <= n,
            tail_len == idx - line_start,
            count <= line_start,
            find_newline(s, line_start) >= idx,
            done + lines_from(s, line_start) =~= lines_of(s),
            count == done.len(),
        decreases n - idx,
    {
        let c = contents.get_char(idx);
        proof {
            lemma_find_newline_spec(s, line_start);
        }
        if c == '\n' {
            proof {
                assert(find_newline(s, line_start) == idx);
                assert(lines_from(s, line_start) == seq![s.subrange(line_start, idx as int)]
                    + lines_from(s, idx + 1));
                done = done.push(s.subrange(line_start, idx as int));
                assert(done + lines_from(s, idx + 1) =~= lines_of(s));
                line_start = idx as int + 1;
                lemma_find_newline_spec(s, line_start);
            }
            count += 1;
            tail_len = 0;
        } else {
            proof {
                if find_newline(s, line_start) == idx {
                    assert(s[idx as int] == '\n');
                    assert(false);
                }
            }
            tail_len += 1;
        }
        idx += 1;
    }
    proof {
        lemma_find_newline_spec(s, line_start);
        assert(find_newline(s, line_start) == s.len());
        assert(lines_from(s, line_start) == seq![s.subrange(line_start, s.len() as int)]);
        let done2 = done.push(s.subrange(line_start, s.len() as int));
        assert(done2 =~= lines_of(s));
        assert(lines_of(s).last() == s.subrange(line_start, s.len() as int));
        assert(lines_of(s).last().len() == tail_len);
        assert(lines_of(s).len() == count + 1);
    }
    if tail_len == 0 {
        count
    } else {
        count + 1
    }
}

/// How many positions of `s` hold `c`.
pub open spec fn count_char(s: Seq<char>, c: char) -> nat
    decreases s.len(),
{
    if s.len() == 0 {
        0
    } else {
        count_char(s.drop_last(), c) + (if s.last() == c {
            1nat
        } else {
            0nat
        })
    }
}

/// The revealed word after one guess: a position where the secret holds the
/// guessed letter shows it; every other position keeps what it showed.
pub open spec fn reveal_guess(secret: Seq<char>, shown: Seq<char>, letter: char) -> Seq<char> {
    Seq::new(shown.len(), |i: int| if secret[i] == letter {
        letter
    } else {
        shown[i]
    })
}

/// What one guess achieved: how many secret positions hold the guessed
/// letter, and how many positions still show the placeholder afterwards.
pub struct GuessOutcome {
    pub matched: usize,
    pub hidden_left: usize,
}

/// Applies one guess to the shown word in place. No match means the guess
/// costs a life; no hidden position left means the word is won.
pub fn apply_guess(secret: &Vec<char>, shown: &mut Vec<char>, letter: char) -> (r: GuessOutcome)
    requires
        old(shown)@.len() == secret@.len(),
    ensures
        final(shown)@ == reveal_guess(secret@, old(shown)@, letter),
        r.matched == count_char(secret@, letter),
        r.hidden_left == count_char(final(shown)@, '-'),
{
    let ghost target = reveal_guess(secret@, old(shown)@, letter);
    let mut matched: usize = 0;
    let mut hidden: usize = 0;
    let mut idx: usize = 0;
    while idx < secret.len()
        invariant
            secret@.len() == old(shown)@.len(),
            shown@.len() == old(shown)@.len(),
            idx <= secret@.len(),
            target == reveal_guess(secret@, old(shown)@, letter),
            forall|j: int| 0 <= j < idx ==> shown@[j] == target[j],
            forall|j: int| idx <= j < shown@.len() ==> shown@[j] == old(shown)@[j],
            matched <= idx,
            hidden <= idx,
            matched == count_char(secret@.subrange(0, idx as int), letter),
            hidden == count_char(shown@.subrange(0, idx as int), '-'),
        decreases secret@.len() - idx,
    {
        let ghost pre_secret = secret@.subrange(0, idx as int);
        let ghost pre_shown = shown@.subrange(0, idx as int);
        if secret[idx] == letter {
            shown.set(idx, letter);
            matched += 1;
        }
        if shown[idx] == '-' {
            hidden += 1;
        }
        proof {
            assert(secret@.subrange(0, idx as int + 1).drop_last() =~= pre_secret);
            assert(secret@.subrange(0, idx as int + 1).last() == secret@[idx as int]);
            assert(shown@.subrange(0, idx as int + 1).drop_last() =~= pre_shown);
            assert(shown@.subrange(0, idx as int + 1).last() == shown@[idx as int]);
        }
        idx += 1;
    }
    proof {
        assert(shown@ =~= target);
        assert(secret@.subrange(0, secret@.len() as int) =~= secret@);
        assert(shown@.subrange(0, shown@.len() as int) =~= shown@);
    }
    GuessOutcome { matched, hidden_left: hidden }
}

/// Picks the secret word: one non-empty line of the word-list text, chosen
/// at random and trimmed. `None` exactly when the text has no non-empty
/// line.
pub fn pick_a_random_word(contents: &str) -> (r: Option<String>)
    ensures
        r is None <==> candidate_words(contents@).len() == 0,
        r is Some ==> (exists|i: int|
            0 <= i < candidate_words(contents@).len() && r->0@ == trimmed_of(
                #[trigger] candidate_words(contents@)[i],
            )),
{
    let words = collect_words(contents);
    proof {
        assert(words@.len() == words.deep_view().len());
    }
    if words.len() == 0 {
        return None;
    }
    let k = random_below(words.len());
    let w = trim_str(words[k].as_str());
    proof {
        assert(words.deep_view()[k as int] == words@[k as int]@);
    }
    Some(w)
}

} // verus!
