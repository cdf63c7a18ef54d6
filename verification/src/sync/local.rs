//! Logical units of a local repository: each first-parent commit of the
//! source branch is one change to promote.

use vstd::prelude::*;

use crate::git::{CommitView, DiffStats, GitCommit};
use crate::git::runner::strs;
use crate::text::{
    all_digits, chars_of, find_char, first_index_is, string_of, texts, words, words_of,
};

verus! {

/// One change to promote: a merge commit, or a squashed commit.
#[derive(Debug, Clone)]
pub struct LogicalUnit {
    pub merge_commit_sha: String,
    pub title: String,
    pub author: String,
    pub merged_at: i64,
    pub merge_strategy: String,
    pub commit_shas: Vec<String>,
    pub patch_ids: Vec<String>,
    pub _diff: DiffStats,
}

/// A commit with more than one parent is a merge; any other commit is
/// taken to be a squashed change.
pub open spec fn strategy_of(parent_count: int) -> Seq<char> {
    if parent_count > 1 {
        "merge"@
    } else {
        "squash"@
    }
}

/// The unit that a commit stands for, before it is enriched with its patch
/// identity and diff.
pub open spec fn unit_matches_commit(u: LogicalUnit, c: CommitView) -> bool {
    &&& u.merge_commit_sha@ == c.sha
    &&& u.title@ == c.subject
    &&& u.author@ == c.author
    &&& u.merged_at as int == c.authored_at
    &&& u.merge_strategy@ == strategy_of(c.parent_count)
    &&& strs(u.commit_shas@) == seq![c.sha]
    &&& u.patch_ids@.len() == 0
    &&& u._diff.files_changed == 0
    &&& u._diff.insertions == 0
    &&& u._diff.deletions == 0
    &&& u._diff.changed_files@.len() == 0
}

pub fn unit_from_commit(commit: GitCommit) -> (u: LogicalUnit)
    ensures
        unit_matches_commit(u, commit@),
{
    let strategy = if commit.parent_count > 1 {
        String::from_str("merge")
    } else {
        String::from_str("squash")
    };
    let ghost sha = commit.sha@;
    let shas = vec![commit.sha.clone()];
    assert(strs(shas@) =~= seq![sha]);
    LogicalUnit {
        merge_commit_sha: commit.sha,
        title: commit.subject,
        author: commit.author,
        merged_at: commit.authored_at,
        merge_strategy: strategy,
        commit_shas: shas,
        patch_ids: Vec::new(),
        _diff: DiffStats { files_changed: 0, insertions: 0, deletions: 0, changed_files: Vec::new() },
    }
}

/// One unit per commit, in the commits' order.
pub fn units_from_commits(commits: Vec<GitCommit>) -> (units: Vec<LogicalUnit>)
    ensures
        units@.len() == commits@.len(),
        forall|i: int| 0 <= i < commits@.len() ==> unit_matches_commit(#[trigger] units@[i], commits@[i]@),
{
    let mut units: Vec<LogicalUnit> = Vec::new();
    let ghost cs = commits@;
    for c in it: commits
        invariant
            cs == it.seq(),
            units@.len() == it.index(),
            forall|i: int| 0 <= i < units@.len() ==> unit_matches_commit(#[trigger] units@[i], cs[i]@),
    {
        let ghost k = it.index();
        assert(c == cs[k]);
        units.push(unit_from_commit(c));
    }
    units
}

/// Records a unit's patch identity and its diff against the target branch.
pub fn enrich_unit(unit: &mut LogicalUnit, patch: String, diff: DiffStats)
    ensures
        strs(final(unit).patch_ids@) == seq![patch@],
        final(unit)._diff == diff,
        final(unit).merge_commit_sha == old(unit).merge_commit_sha,
        final(unit).title == old(unit).title,
        final(unit).author == old(unit).author,
        final(unit).merged_at == old(unit).merged_at,
        final(unit).merge_strategy == old(unit).merge_strategy,
        final(unit).commit_shas == old(unit).commit_shas,
{
    let ghost p = patch@;
    let ids = vec![patch];
    assert(strs(ids@) =~= seq![p]);
    unit.patch_ids = ids;
    unit._diff = diff;
}

/// A ticket reference such as `ABC-123` or `team-123`: at least three bytes
/// of UTF-8, a first `-` that is not the first character, and one or more
/// ASCII digits after it, nothing else.
pub open spec fn is_ticket_word(w: Seq<char>) -> bool {
    &&& utf8_len(w) >= 3
    &&& exists|k: int|
        first_index_is(w, '-', k) && k > 0 && k + 1 < w.len() && all_digits(w.skip(k + 1))
}

/// The first word of the title that is a ticket reference.
pub open spec fn first_ticket(ws: Seq<Seq<char>>) -> Option<Seq<char>>
    decreases ws.len(),
{
    if ws.len() == 0 {
        None
    } else if is_ticket_word(ws[0]) {
        Some(ws[0])
    } else {
        first_ticket(ws.drop_first())
    }
}

fn digits_after(w: &[char], from: usize) -> (r: bool)
    requires
        from <= w.len(),
    ensures
        r == all_digits(w@.skip(from as int)),
{
    let mut i = from;
    while i < w.len()
        invariant
            from <= i <= w.len(),
            forall|j: int| from <= j < i ==> crate::text::is_digit(#[trigger] w@[j]),
        decreases w.len() - i,
    {
        let v = w[i] as u32;
        if v < 48 || v > 57 {
            assert(w@.skip(from as int)[i - from] == w@[i as int]);
            return false;
        }
        i += 1;
    }
    assert forall|j: int| 0 <= j < w@.skip(from as int).len() implies crate::text::is_digit(
        #[trigger] w@.skip(from as int)[j],
    ) by {
        assert(w@.skip(from as int)[j] == w@[from + j]);
    }
    true
}

/// The number of bytes that UTF-8 takes for one character.
pub open spec fn char_utf8_len(c: char) -> nat {
    if (c as u32) < 0x80 {
        1
    } else if (c as u32) < 0x800 {
        2
    } else if (c as u32) < 0x10000 {
        3
    } else {
        4
    }
}

/// The length in bytes of the UTF-8 encoding of a text (`str::len`).
pub open spec fn utf8_len(w: Seq<char>) -> nat
    decreases w.len(),
{
    if w.len() == 0 {
        0
    } else {
        utf8_len(w.drop_last()) + char_utf8_len(w.last())
    }
}

fn utf8_len_at_least_3(w: &[char]) -> (r: bool)
    ensures
        r == (utf8_len(w@) >= 3),
{
    let mut total: u64 = 0;
    let mut i: usize = 0;
    assert(w@.take(0) =~= seq![]);
    while i < w.len()
        invariant
            i <= w.len(),
            total as nat == utf8_len(w@.take(i as int)),
            total < 3,
        decreases w.len() - i,
    {
        let v = w[i] as u32;
        let n: u64 = if v < 0x80 {
            1
        } else if v < 0x800 {
            2
        } else if v < 0x10000 {
            3
        } else {
            4
        };
        assert(w@.take(i + 1).drop_last() =~= w@.take(i as int));
        total = total + n;
        i += 1;
        if total >= 3 {
            proof {
                lemma_utf8_len_prefix(w@, i as int);
            }
            return true;
        }
    }
    assert(w@.take(i as int) =~= w@);
    false
}

proof fn lemma_utf8_len_prefix(w: Seq<char>, i: int)
    requires
        0 <= i <= w.len(),
    ensures
        utf8_len(w.take(i)) <= utf8_len(w),
    decreases w.len(),
{
    if i < w.len() {
        lemma_utf8_len_prefix(w.drop_last(), i);
        assert(w.drop_last().take(i) =~= w.take(i));
    } else {
        assert(w.take(i) =~= w);
    }
}

fn ticket_word(w: &[char]) -> (r: bool)
    ensures
        r == is_ticket_word(w@),
{
    if !utf8_len_at_least_3(w) {
        return false;
    }
    match find_char(w, '-') {
        None => {
            assert forall|k: int| !first_index_is(w@, '-', k) by {
                if 0 <= k < w@.len() && w@[k] == '-' {
                    assert(w@.contains('-'));
                }
            }
            false
        },
        Some(idx) => {
            assert(idx < w.len());
            let ok = idx > 0 && idx + 1 < w.len() && digits_after(w, idx + 1);
            assert forall|k: int| first_index_is(w@, '-', k) implies k == idx by {
                if k < idx {
                    assert(w@[k] != '-');
                } else if k > idx {
                    assert(w@[idx as int] != '-');
                }
            }
            ok
        },
    }
}

/// The first Jira-style (`ABC-123`) or Linear-style (`team-123`) reference
/// in a title.
pub fn parse_ticket_ref(title: &str) -> (r: Option<String>)
    ensures
        r matches Some(t) ==> first_ticket(words(title@)) == Some(t@),
        r is None ==> first_ticket(words(title@)) is None,
{
    let cs = chars_of(title);
    let ws = words_of(cs.as_slice());
    let ghost all = texts(ws@);
    let mut i: usize = 0;
    assert(all.skip(0) =~= all);
    while i < ws.len()
        invariant
            i <= ws.len(),
            all == texts(ws@),
            all == words(title@),
            first_ticket(all) == first_ticket(all.skip(i as int)),
        decreases ws.len() - i,
    {
        assert(all.skip(i as int)[0] == ws@[i as int]@);
        assert(all.skip(i as int).drop_first() =~= all.skip(i + 1));
        if ticket_word(ws[i].as_slice()) {
            return Some(string_of(ws[i].as_slice()));
        }
        i += 1;
    }
    None
}

/// The ticket reference of a title is its earliest ticket word: the result
/// is a word of the title that is a ticket word, and no word before it is
/// one; there is none exactly when no word is a ticket word.
pub proof fn ticket_is_the_earliest_ticket_word(ws: Seq<Seq<char>>)
    ensures
        first_ticket(ws) is None <==> (forall|j: int| 0 <= j < ws.len() ==> !is_ticket_word(#[trigger] ws[j])),
        first_ticket(ws) matches Some(t) ==> exists|i: int|
            0 <= i < ws.len() && ws[i] == t && is_ticket_word(ws[i]) && forall|j: int|
                0 <= j < i ==> !is_ticket_word(#[trigger] ws[j]),
    decreases ws.len(),
{
    if ws.len() > 0 {
        let rest = ws.drop_first();
        ticket_is_the_earliest_ticket_word(rest);
        if is_ticket_word(ws[0]) {
            assert(ws[0] == ws[0] && forall|j: int| 0 <= j < 0 ==> !is_ticket_word(#[trigger] ws[j]));
        } else {
            assert forall|j: int| 0 < j < ws.len() implies ws[j] == rest[j - 1] by {}
            if first_ticket(rest) is None {
                assert forall|j: int| 0 <= j < ws.len() implies !is_ticket_word(#[trigger] ws[j]) by {
                    if j > 0 {
                        assert(ws[j] == rest[j - 1]);
                    }
                }
            } else {
                let t = first_ticket(rest)->0;
                let i = choose|i: int|
                    0 <= i < rest.len() && rest[i] == t && is_ticket_word(rest[i]) && forall|j: int|
                        0 <= j < i ==> !is_ticket_word(#[trigger] rest[j]);
                assert(ws[i + 1] == t);
                assert forall|j: int| 0 <= j < i + 1 implies !is_ticket_word(#[trigger] ws[j]) by {
                    if j > 0 {
                        assert(ws[j] == rest[j - 1]);
                    }
                }
                assert(exists|k: int| 0 <= k < ws.len() && is_ticket_word(ws[k])) by {
                    assert(is_ticket_word(ws[i + 1]));
                }
            }
        }
    }
}

} // verus!
