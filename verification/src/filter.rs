//! The decision on each argument: those whose canonical form is protected are
//! held back, the others are passed on as they were given, in their order.

use vstd::prelude::*;
use crate::normalize::{is_normal_form_of, normalize_path};
use crate::protected::contains_path;
use crate::text::texts;

verus! {

/// The positions of the arguments that are passed on, ascending: those whose
/// canonical form, given by `normal`, is not among `protected`.
pub open spec fn kept_positions(normal: Seq<Seq<char>>, protected: Seq<Seq<char>>) -> Seq<int>
    decreases normal.len(),
{
    if normal.len() == 0 {
        Seq::empty()
    } else if protected.contains(normal.last()) {
        kept_positions(normal.drop_last(), protected)
    } else {
        kept_positions(normal.drop_last(), protected).push(normal.len() - 1)
    }
}

/// The positions of the arguments that are held back, ascending: those whose
/// canonical form is among `protected`.
pub open spec fn skipped_positions(normal: Seq<Seq<char>>, protected: Seq<Seq<char>>) -> Seq<int>
    decreases normal.len(),
{
    if normal.len() == 0 {
        Seq::empty()
    } else if protected.contains(normal.last()) {
        skipped_positions(normal.drop_last(), protected).push(normal.len() - 1)
    } else {
        skipped_positions(normal.drop_last(), protected)
    }
}

/// The arguments at the given positions, in the order of the positions.
pub open spec fn pick(args: Seq<Seq<char>>, at: Seq<int>) -> Seq<Seq<char>> {
    Seq::new(at.len(), |k: int| args[at[k]])
}

/// The positions are within `0..n` and strictly ascending.
pub open spec fn ascending_below(at: Seq<int>, n: int) -> bool {
    &&& forall|k: int| 0 <= k < at.len() ==> 0 <= #[trigger] at[k] < n
    &&& forall|j: int, k: int| 0 <= j < k < at.len() ==> #[trigger] at[j] < #[trigger] at[k]
}

/// The arguments passed on form a subsequence of the arguments given: their
/// positions ascend, and a position is among them exactly when the canonical
/// form of its argument is not protected. The same holds of the arguments held
/// back, for the protected forms, so that every argument is in one of the two.
pub proof fn lemma_positions(normal: Seq<Seq<char>>, protected: Seq<Seq<char>>)
    ensures
        ascending_below(kept_positions(normal, protected), normal.len() as int),
        ascending_below(skipped_positions(normal, protected), normal.len() as int),
        forall|i: int|
            0 <= i < normal.len() ==> (kept_positions(normal, protected).contains(i)
                <==> !protected.contains(#[trigger] normal[i])),
        forall|i: int|
            0 <= i < normal.len() ==> (skipped_positions(normal, protected).contains(i)
                <==> protected.contains(#[trigger] normal[i])),
        kept_positions(normal, protected).len() + skipped_positions(normal, protected).len()
            == normal.len(),
    decreases normal.len(),
{
    if normal.len() > 0 {
        let before = normal.drop_last();
        let last = normal.len() - 1;
        lemma_positions(before, protected);
        let kept = kept_positions(normal, protected);
        let kept_before = kept_positions(before, protected);
        let skipped = skipped_positions(normal, protected);
        let skipped_before = skipped_positions(before, protected);
        assert forall|i: int| 0 <= i < normal.len() implies (kept.contains(i)
            <==> !protected.contains(#[trigger] normal[i])) by {
            if i < last {
                assert(before[i] == normal[i]);
                if kept_before.contains(i) {
                    let k = choose|k: int| 0 <= k < kept_before.len() && kept_before[k] == i;
                    assert(kept[k] == i);
                }
                if kept.contains(i) {
                    let k = choose|k: int| 0 <= k < kept.len() && kept[k] == i;
                    assert(kept_before[k] == i);
                }
            } else {
                if !protected.contains(normal[i]) {
                    assert(kept[kept.len() - 1] == i);
                }
                if kept.contains(i) && protected.contains(normal[i]) {
                    let k = choose|k: int| 0 <= k < kept.len() && kept[k] == i;
                    assert(kept_before[k] < last);
                }
            }
        }
        assert forall|i: int| 0 <= i < normal.len() implies (skipped.contains(i)
            <==> protected.contains(#[trigger] normal[i])) by {
            if i < last {
                assert(before[i] == normal[i]);
                if skipped_before.contains(i) {
                    let k = choose|k: int|
                        0 <= k < skipped_before.len() && skipped_before[k] == i;
                    assert(skipped[k] == i);
                }
                if skipped.contains(i) {
                    let k = choose|k: int| 0 <= k < skipped.len() && skipped[k] == i;
                    assert(skipped_before[k] == i);
                }
            } else {
                if protected.contains(normal[i]) {
                    assert(skipped[skipped.len() - 1] == i);
                }
                if skipped.contains(i) && !protected.contains(normal[i]) {
                    let k = choose|k: int| 0 <= k < skipped.len() && skipped[k] == i;
                    assert(skipped_before[k] < last);
                }
            }
        }
    }
}

/// With nothing protected every position is kept.
pub proof fn lemma_nothing_protected(normal: Seq<Seq<char>>, protected: Seq<Seq<char>>)
    requires
        protected.len() == 0,
    ensures
        kept_positions(normal, protected) == Seq::new(normal.len(), |i: int| i),
        skipped_positions(normal, protected).len() == 0,
    decreases normal.len(),
{
    if normal.len() > 0 {
        lemma_nothing_protected(normal.drop_last(), protected);
    }
    assert(kept_positions(normal, protected) =~= Seq::new(normal.len(), |i: int| i));
}

/// The arguments, sorted into those to pass on and those held back.
#[derive(Debug, PartialEq, Eq)]
pub struct Filtered {
    /// The arguments to pass on, as they were given and in their order.
    pub kept: Vec<String>,
    /// The position of each of them among the arguments given.
    pub kept_at: Vec<usize>,
    /// The arguments held back, as they were given and in their order.
    pub skipped: Vec<String>,
    /// The position of each of them among the arguments given.
    pub skipped_at: Vec<usize>,
}

/// The lists of a `Filtered`, as texts and mathematical positions.
pub struct FilteredText {
    pub kept: Seq<Seq<char>>,
    pub kept_at: Seq<int>,
    pub skipped: Seq<Seq<char>>,
    pub skipped_at: Seq<int>,
}

/// The positions that a vector holds, in order.
pub open spec fn places(v: Seq<usize>) -> Seq<int> {
    Seq::new(v.len(), |k: int| v[k] as int)
}

impl View for Filtered {
    type V = FilteredText;

    open spec fn view(&self) -> FilteredText {
        FilteredText {
            kept: texts(self.kept@),
            kept_at: places(self.kept_at@),
            skipped: texts(self.skipped@),
            skipped_at: places(self.skipped_at@),
        }
    }
}

/// The effect of one more argument, given at position `at`, with canonical
/// form `normal`.
pub open spec fn judged(
    f: FilteredText,
    at: int,
    arg: Seq<char>,
    normal: Seq<char>,
    protected: Seq<Seq<char>>,
) -> FilteredText {
    if protected.contains(normal) {
        FilteredText { skipped: f.skipped.push(arg), skipped_at: f.skipped_at.push(at), ..f }
    } else {
        FilteredText { kept: f.kept.push(arg), kept_at: f.kept_at.push(at), ..f }
    }
}

/// What filtering gives for arguments with the canonical forms `normal`.
pub open spec fn filtered(
    args: Seq<Seq<char>>,
    normal: Seq<Seq<char>>,
    protected: Seq<Seq<char>>,
) -> FilteredText {
    FilteredText {
        kept: pick(args, kept_positions(normal, protected)),
        kept_at: kept_positions(normal, protected),
        skipped: pick(args, skipped_positions(normal, protected)),
        skipped_at: skipped_positions(normal, protected),
    }
}

/// Filtering one argument more is judging it after the others.
pub proof fn lemma_filtered_step(
    args: Seq<Seq<char>>,
    normal: Seq<Seq<char>>,
    protected: Seq<Seq<char>>,
)
    requires
        args.len() == normal.len(),
        args.len() > 0,
    ensures
        filtered(args, normal, protected) == judged(
            filtered(args.drop_last(), normal.drop_last(), protected),
            args.len() - 1,
            args.last(),
            normal.last(),
            protected,
        ),
{
    lemma_positions(normal.drop_last(), protected);
    let now = filtered(args, normal, protected);
    let then = judged(
        filtered(args.drop_last(), normal.drop_last(), protected),
        args.len() - 1,
        args.last(),
        normal.last(),
        protected,
    );
    assert(now.kept =~= then.kept);
    assert(now.skipped =~= then.skipped);
    assert(now.kept_at =~= then.kept_at);
    assert(now.skipped_at =~= then.skipped_at);
}

impl Filtered {
    /// Nothing judged yet.
    pub fn new() -> (r: Filtered)
        ensures
            r@.kept.len() == 0,
            r@.kept_at.len() == 0,
            r@.skipped.len() == 0,
            r@.skipped_at.len() == 0,
    {
        Filtered {
            kept: Vec::new(),
            kept_at: Vec::new(),
            skipped: Vec::new(),
            skipped_at: Vec::new(),
        }
    }

    /// Sorts one more argument, given at position `at` and with the canonical
    /// form `normal`, into its list: held back where `protected` has that
    /// form, passed on otherwise.
    pub fn judge(&mut self, at: usize, arg: &str, normal: &str, protected: &Vec<String>)
        ensures
            final(self)@ == judged(old(self)@, at as int, arg@, normal@, texts(protected@)),
    {
        if contains_path(protected, normal) {
            self.skipped.push(String::from_str(arg));
            self.skipped_at.push(at);
            assert(self@.skipped =~= old(self)@.skipped.push(arg@));
            assert(self@.skipped_at =~= old(self)@.skipped_at.push(at as int));
            assert(self@.kept =~= old(self)@.kept);
            assert(self@.kept_at =~= old(self)@.kept_at);
        } else {
            self.kept.push(String::from_str(arg));
            self.kept_at.push(at);
            assert(self@.kept =~= old(self)@.kept.push(arg@));
            assert(self@.kept_at =~= old(self)@.kept_at.push(at as int));
            assert(self@.skipped =~= old(self)@.skipped);
            assert(self@.skipped_at =~= old(self)@.skipped_at);
        }
    }
}

/// Each text is a form that normalizing gives the argument at its position.
pub open spec fn are_normal_forms_of(normal: Seq<Seq<char>>, args: Seq<Seq<char>>) -> bool {
    &&& normal.len() == args.len()
    &&& forall|i: int| 0 <= i < normal.len() ==> is_normal_form_of(#[trigger] normal[i], args[i])
}

/// Sorts the arguments into those to pass on and those held back.
///
/// Every argument is brought into its canonical form and held back exactly
/// when `protected` has that form. The arguments passed on are the others, as
/// they were given and in the order in which they were given. Each list comes
/// with the positions that its members had among the arguments given: they
/// ascend, and every position is in one of the two lists.
pub fn filter_arguments(args: &Vec<String>, protected: &Vec<String>) -> (r: Filtered)
    ensures
        exists|normal: Seq<Seq<char>>|
            are_normal_forms_of(normal, texts(args@)) && r@ == #[trigger] filtered(
                texts(args@),
                normal,
                texts(protected@),
            ),
        r@.kept == pick(texts(args@), r@.kept_at),
        r@.skipped == pick(texts(args@), r@.skipped_at),
        ascending_below(r@.kept_at, args@.len() as int),
        ascending_below(r@.skipped_at, args@.len() as int),
        r@.kept.len() + r@.skipped.len() == args@.len(),
        protected@.len() == 0 ==> r@.kept == texts(args@) && r@.skipped.len() == 0,
{
    let ghost given = texts(args@);
    let ghost guarded = texts(protected@);
    let ghost mut normal: Seq<Seq<char>> = Seq::empty();
    let mut r = Filtered::new();
    let mut i: usize = 0;
    assert(r@.kept =~= filtered(given.take(0), normal, guarded).kept);
    assert(r@.skipped =~= filtered(given.take(0), normal, guarded).skipped);
    assert(r@.kept_at =~= filtered(given.take(0), normal, guarded).kept_at);
    assert(r@.skipped_at =~= filtered(given.take(0), normal, guarded).skipped_at);
    while i < args.len()
        invariant
            i <= args.len(),
            given == texts(args@),
            guarded == texts(protected@),
            are_normal_forms_of(normal, given.take(i as int)),
            r@ == filtered(given.take(i as int), normal, guarded),
        decreases args.len() - i,
    {
        let form = normalize_path(args[i].as_str());
        r.judge(i, args[i].as_str(), form.as_str(), protected);
        proof {
            let next = normal.push(form@);
            assert(next.drop_last() =~= normal);
            assert(given.take(i + 1).drop_last() =~= given.take(i as int));
            lemma_filtered_step(given.take(i + 1), next, guarded);
            normal = next;
        }
        i = i + 1;
    }
    proof {
        assert(given.take(i as int) =~= given);
        lemma_positions(normal, guarded);
        if protected@.len() == 0 {
            lemma_nothing_protected(normal, guarded);
            assert(r@.kept =~= given);
        }
    }
    r
}

} // verus!
