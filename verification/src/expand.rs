//! Expansion of one configuration line into the paths it matches, under a
//! budget: what is taken from the entries that a pattern yields.

use vstd::prelude::*;
use crate::pathops::opt_text;
use crate::pattern::{glob_accepts, next_entry, open_pattern};

verus! {

/// The number of matches that one pattern may contribute.
pub const MAX_GLOB_EXPANSION: usize = 256;

/// One entry that the enumeration of a pattern yields.
#[derive(Debug, PartialEq, Eq)]
pub enum Entry {
    /// A path that matches.
    Match(String),
    /// A path that could not be read while matching.
    Unreadable,
}

impl View for Entry {
    type V = Option<Seq<char>>;

    open spec fn view(&self) -> Option<Seq<char>> {
        match self {
            Entry::Match(p) => Some(p@),
            Entry::Unreadable => None,
        }
    }
}

/// The entries that a vector holds, in order.
pub open spec fn entry_views(v: Seq<Entry>) -> Seq<Option<Seq<char>>> {
    Seq::new(v.len(), |i: int| v[i]@)
}

/// What has been taken from the entries seen so far.
pub struct Collected {
    /// The matches kept, in the order in which they came.
    pub paths: Seq<Seq<char>>,
    /// How many unreadable entries were passed over.
    pub unreadable: nat,
    /// Whether a match came when the budget was spent.
    pub truncated: bool,
}

/// Nothing seen yet.
pub open spec fn nothing_collected() -> Collected {
    Collected { paths: Seq::empty(), unreadable: 0, truncated: false }
}

/// The effect of one more entry. After truncation nothing changes; a match is
/// kept while the budget lasts and truncates when it is spent; an unreadable
/// entry is counted.
pub open spec fn absorb(c: Collected, e: Option<Seq<char>>) -> Collected {
    if c.truncated {
        c
    } else {
        match e {
            Some(p) => if c.paths.len() >= MAX_GLOB_EXPANSION {
                Collected { truncated: true, ..c }
            } else {
                Collected { paths: c.paths.push(p), ..c }
            },
            None => Collected { unreadable: c.unreadable + 1, ..c },
        }
    }
}

/// What is taken from a whole run of entries.
pub open spec fn collected(entries: Seq<Option<Seq<char>>>) -> Collected
    decreases entries.len(),
{
    if entries.len() == 0 {
        nothing_collected()
    } else {
        absorb(collected(entries.drop_last()), entries.last())
    }
}

/// The matches among the entries, in order.
pub open spec fn matches_of(entries: Seq<Option<Seq<char>>>) -> Seq<Seq<char>>
    decreases entries.len(),
{
    if entries.len() == 0 {
        Seq::empty()
    } else {
        match entries.last() {
            Some(p) => matches_of(entries.drop_last()).push(p),
            None => matches_of(entries.drop_last()),
        }
    }
}

/// The first `MAX_GLOB_EXPANSION` members of `s`, or all of it where it has
/// fewer.
pub open spec fn within_budget(s: Seq<Seq<char>>) -> Seq<Seq<char>> {
    if s.len() > MAX_GLOB_EXPANSION {
        s.take(MAX_GLOB_EXPANSION as int)
    } else {
        s
    }
}

/// The paths taken are the first matches up to the budget, and the run is
/// truncated exactly when there were more matches than the budget allows.
pub proof fn lemma_collected_is_budgeted(entries: Seq<Option<Seq<char>>>)
    ensures
        collected(entries).paths == within_budget(matches_of(entries)),
        collected(entries).truncated == (matches_of(entries).len() > MAX_GLOB_EXPANSION),
        collected(entries).paths.len() <= MAX_GLOB_EXPANSION,
        collected(entries).unreadable <= entries.len(),
    decreases entries.len(),
{
    if entries.len() > 0 {
        let before = entries.drop_last();
        lemma_collected_is_budgeted(before);
        let m = matches_of(before);
        match entries.last() {
            Some(p) => {
                if m.len() >= MAX_GLOB_EXPANSION {
                    assert(m.push(p).take(MAX_GLOB_EXPANSION as int) =~= within_budget(m));
                }
            },
            None => {},
        }
    }
}

/// What one pattern contributed.
#[derive(Debug, PartialEq, Eq)]
pub struct Expansion {
    /// The matches kept, in the order in which they came.
    pub paths: Vec<String>,
    /// How many unreadable entries were passed over.
    pub unreadable: usize,
    /// Whether the pattern had more matches than the budget allows.
    pub truncated: bool,
}

impl View for Expansion {
    type V = Collected;

    open spec fn view(&self) -> Collected {
        Collected {
            paths: crate::text::texts(self.paths@),
            unreadable: self.unreadable as nat,
            truncated: self.truncated,
        }
    }
}

impl Expansion {
    /// An expansion that has seen no entry.
    pub fn new() -> (r: Expansion)
        ensures
            r@ == nothing_collected(),
    {
        let r = Expansion { paths: Vec::new(), unreadable: 0, truncated: false };
        assert(r@.paths =~= Seq::empty());
        r
    }

    /// Takes one more entry.
    pub fn offer(&mut self, entry: &Entry)
        requires
            old(self).unreadable < usize::MAX,
        ensures
            final(self)@ == absorb(old(self)@, entry@),
    {
        if !self.truncated {
            match entry {
                Entry::Match(p) => {
                    if self.paths.len() >= MAX_GLOB_EXPANSION {
                        self.truncated = true;
                    } else {
                        self.paths.push(p.clone());
                        assert(self@.paths =~= old(self)@.paths.push(p@));
                    }
                },
                Entry::Unreadable => {
                    self.unreadable = self.unreadable + 1;
                },
            }
        }
    }
}

/// Takes from a finished run of entries what the budget allows: the first
/// matches up to the budget, in order, and whether there were more.
pub fn take_matches(entries: &Vec<Entry>) -> (r: Expansion)
    ensures
        r@ == collected(entry_views(entries@)),
        r@.paths == within_budget(matches_of(entry_views(entries@))),
        r@.truncated == (matches_of(entry_views(entries@)).len() > MAX_GLOB_EXPANSION),
{
    let ghost all = entry_views(entries@);
    let mut acc = Expansion::new();
    let mut i: usize = 0;
    proof {
        lemma_collected_is_budgeted(all);
    }
    while i < entries.len()
        invariant
            i <= entries.len(),
            all == entry_views(entries@),
            acc@ == collected(all.take(i as int)),
            acc@.unreadable <= i,
        decreases entries.len() - i,
    {
        proof {
            assert(all.take(i + 1).drop_last() =~= all.take(i as int));
        }
        acc.offer(&entries[i]);
        i = i + 1;
    }
    assert(all.take(i as int) =~= all);
    acc
}

/// What became of one configuration line.
#[derive(Debug, PartialEq, Eq)]
pub enum LineOutcome {
    /// The line is a pattern; this is what it contributed.
    Expanded(Expansion),
    /// The line could not be read.
    UnreadableLine,
    /// The line is no pattern.
    InvalidPattern,
}

/// What became of one configuration line, over texts.
pub enum Outcome {
    Expanded(Collected),
    UnreadableLine,
    InvalidPattern,
}

impl View for LineOutcome {
    type V = Outcome;

    open spec fn view(&self) -> Outcome {
        match self {
            LineOutcome::Expanded(e) => Outcome::Expanded(e@),
            LineOutcome::UnreadableLine => Outcome::UnreadableLine,
            LineOutcome::InvalidPattern => Outcome::InvalidPattern,
        }
    }
}

/// What the enumeration of a pattern can leave behind: what is taken from some
/// run of entries.
pub open spec fn is_expansion(c: Collected) -> bool {
    exists|entries: Seq<Option<Seq<char>>>| c == #[trigger] collected(entries)
}

/// An expansion keeps no more paths than the budget allows, and is truncated
/// only with the budget spent.
pub proof fn lemma_expansion_bounds(c: Collected)
    requires
        is_expansion(c),
    ensures
        c.paths.len() <= MAX_GLOB_EXPANSION,
        c.truncated ==> c.paths.len() == MAX_GLOB_EXPANSION,
{
    let entries = choose|entries: Seq<Option<Seq<char>>>| c == #[trigger] collected(entries);
    lemma_collected_is_budgeted(entries);
}

/// The outcomes that a line can have. A line that could not be read (`None`)
/// is reported as unreadable, a text that is no pattern as invalid, and a
/// pattern is expanded.
pub open spec fn is_outcome_of(o: Outcome, line: Option<Seq<char>>) -> bool {
    match line {
        None => o is UnreadableLine,
        Some(l) => if glob_accepts(l) {
            o matches Outcome::Expanded(c) && is_expansion(c)
        } else {
            o is InvalidPattern
        },
    }
}

/// Enumerates the matches of an accepted pattern until they end or the budget
/// is spent.
fn drain(paths: &mut glob::Paths) -> (r: Expansion)
    ensures
        is_expansion(r@),
{
    let mut acc = Expansion::new();
    let ghost mut seen: Seq<Option<Seq<char>>> = Seq::empty();
    while !acc.truncated && acc.unreadable < usize::MAX
        invariant
            acc@ == collected(seen),
            acc@.paths.len() <= MAX_GLOB_EXPANSION,
        decreases
            (if acc.truncated { 0int } else { 1int }) + (MAX_GLOB_EXPANSION - acc@.paths.len())
                + (usize::MAX - acc.unreadable),
    {
        match next_entry(paths) {
            Some(entry) => {
                proof {
                    assert(seen.push(entry@).drop_last() =~= seen);
                    seen = seen.push(entry@);
                    lemma_collected_is_budgeted(seen);
                }
                acc.offer(&entry);
            },
            None => {
                return acc;
            },
        }
    }
    acc
}

/// Expands one configuration line.
///
/// A line that could not be read and a line that is no pattern contribute
/// nothing and are reported as such. Any other line is enumerated: its matches
/// are kept in the order in which they come, up to the budget, and entries
/// that cannot be read are counted and passed over.
pub fn parse_line(line: &Option<String>) -> (r: LineOutcome)
    ensures
        is_outcome_of(r@, opt_text(*line)),
        r matches LineOutcome::Expanded(e) ==> e.paths.len() <= MAX_GLOB_EXPANSION && (e.truncated
            ==> e.paths.len() == MAX_GLOB_EXPANSION),
{
    match line {
        None => LineOutcome::UnreadableLine,
        Some(l) => match open_pattern(l.as_str()) {
            Ok(mut paths) => {
                let e = drain(&mut paths);
                proof {
                    lemma_expansion_bounds(e@);
                }
                LineOutcome::Expanded(e)
            },
            Err(_) => LineOutcome::InvalidPattern,
        },
    }
}

} // verus!
