//! Sorting package lines into per-category buckets, and what each output
//! file then holds.

use vstd::prelude::*;
use vstd::string::*;
use crate::category::{Category, CATEGORY_COUNT};
use crate::text::{is_blank, is_blank_line};

verus! {

/// One input line together with the category chosen for it; a blank line
/// is never asked about and carries `None`.
pub type Entry = (Seq<char>, Option<Category>);

/// Five empty buckets, one per category in registry order.
pub open spec fn empty_bins() -> Seq<Seq<Seq<char>>> {
    Seq::new(CATEGORY_COUNT as nat, |k: int| Seq::<Seq<char>>::empty())
}

/// What one input line does to the buckets: a blank line changes nothing,
/// any other line is appended, as read, to the bucket of its category.
pub open spec fn step(bins: Seq<Seq<Seq<char>>>, line: Seq<char>, choice: Option<Category>) -> Seq<Seq<Seq<char>>> {
    if !is_blank(line) && choice is Some {
        let k = choice->0.index() as int;
        bins.update(k, bins[k].push(line))
    } else {
        bins
    }
}

/// The buckets after a whole run over `entries`, starting from empty ones.
pub open spec fn sorted(entries: Seq<Entry>) -> Seq<Seq<Seq<char>>>
    decreases entries.len(),
{
    if entries.len() == 0 {
        empty_bins()
    } else {
        let e = entries.last();
        step(sorted(entries.drop_last()), e.0, e.1)
    }
}

/// Every line that is not blank has a category.
pub open spec fn answered(entries: Seq<Entry>) -> bool {
    forall|i: int| 0 <= i < entries.len() && !is_blank(#[trigger] entries[i].0) ==> entries[i].1 is Some
}

/// The text of an output file: each package on a line of its own, each
/// line ended by a newline.
pub open spec fn render(packages: Seq<Seq<char>>) -> Seq<char>
    decreases packages.len(),
{
    if packages.len() == 0 {
        Seq::empty()
    } else {
        render(packages.drop_last()) + packages.last() + seq!['\n']
    }
}

/// The packages sorted so far, one bucket per category.
pub struct Buckets {
    dev: Vec<String>,
    desktop: Vec<String>,
    entertainment: Vec<String>,
    core: Vec<String>,
    misc: Vec<String>,
}

/// One file to write: which category, its file name, its text, and how
/// many packages the text holds.
pub struct OutputFile {
    pub category: Category,
    pub name: String,
    pub contents: String,
    pub count: usize,
}

/// The text of a file that holds `packages`, one per line.
pub fn render_lines(packages: &Vec<String>) -> (r: String)
    ensures
        r@ == render(packages.deep_view()),
{
    let mut r = String::new();
    let mut i: usize = 0;
    while i < packages.len()
        invariant
            i <= packages.len(),
            r@ == render(packages.deep_view().take(i as int)),
        decreases packages.len() - i,
    {
        let ghost before = packages.deep_view().take(i as int);
        r.append(packages[i].as_str());
        r.append("\n");
        proof {
            let next = packages.deep_view().take(i + 1);
            assert(next.drop_last() =~= before);
            assert(next.last() == packages@[i as int]@);
            reveal_strlit("\n");
            assert(r@ =~= render(next));
        }
        i = i + 1;
    }
    assert(packages.deep_view().take(packages.len() as int) =~= packages.deep_view());
    r
}

impl View for Buckets {
    type V = Seq<Seq<Seq<char>>>;

    closed spec fn view(&self) -> Seq<Seq<Seq<char>>> {
        seq![
            self.dev.deep_view(),
            self.desktop.deep_view(),
            self.entertainment.deep_view(),
            self.core.deep_view(),
            self.misc.deep_view(),
        ]
    }
}

impl Buckets {
    /// Five empty buckets.
    pub fn new() -> (r: Buckets)
        ensures
            r@ == empty_bins(),
    {
        let r = Buckets {
            dev: Vec::new(),
            desktop: Vec::new(),
            entertainment: Vec::new(),
            core: Vec::new(),
            misc: Vec::new(),
        };
        assert(r.dev.deep_view() =~= Seq::<Seq<char>>::empty());
        assert(r.desktop.deep_view() =~= Seq::<Seq<char>>::empty());
        assert(r.entertainment.deep_view() =~= Seq::<Seq<char>>::empty());
        assert(r.core.deep_view() =~= Seq::<Seq<char>>::empty());
        assert(r.misc.deep_view() =~= Seq::<Seq<char>>::empty());
        assert(r@ =~= empty_bins());
        r
    }

    /// Whether the user is asked for a category for this line: only for a
    /// line that is not blank.
    pub fn needs_choice(line: &str) -> (r: bool)
        ensures
            r == !is_blank(line@),
    {
        !is_blank_line(line)
    }

    /// The packages in the bucket of `c`, in the order they were added.
    pub fn packages(&self, c: Category) -> (r: &Vec<String>)
        ensures
            r.deep_view() == self@[c.index() as int],
    {
        match c {
            Category::Dev => &self.dev,
            Category::Desktop => &self.desktop,
            Category::Entertainment => &self.entertainment,
            Category::Core => &self.core,
            Category::Misc => &self.misc,
        }
    }

    fn push_into(v: &mut Vec<String>, package: String)
        ensures
            final(v).deep_view() == old(v).deep_view().push(package@),
    {
        v.push(package);
        assert(v.deep_view() =~= old(v).deep_view().push(package@));
    }

    /// Appends `package` to the bucket of `c`.
    pub fn assign(&mut self, c: Category, package: String)
        ensures
            final(self)@ == old(self)@.update(c.index() as int, old(self)@[c.index() as int].push(package@)),
    {
        match c {
            Category::Dev => Self::push_into(&mut self.dev, package),
            Category::Desktop => Self::push_into(&mut self.desktop, package),
            Category::Entertainment => Self::push_into(&mut self.entertainment, package),
            Category::Core => Self::push_into(&mut self.core, package),
            Category::Misc => Self::push_into(&mut self.misc, package),
        }
        assert(self@ =~= old(self)@.update(c.index() as int, old(self)@[c.index() as int].push(package@)));
    }

    /// Every bucket holds a list, one per category.
    pub proof fn lemma_one_bin_per_category(&self)
        ensures
            self@.len() == CATEGORY_COUNT,
    {
    }

    /// The files to write: one for each category whose bucket is not
    /// empty, in registry order, holding that bucket's packages one per
    /// line. A category with an empty bucket gets no file.
    pub fn outputs(&self) -> (r: Vec<OutputFile>)
        ensures
            forall|i: int| #![trigger r@[i]] 0 <= i < r@.len() ==> {
                let c = r@[i].category;
                &&& self@[c.index() as int].len() > 0
                &&& r@[i].name@ == c.file_name()
                &&& r@[i].contents@ == render(self@[c.index() as int])
                &&& r@[i].count == self@[c.index() as int].len()
            },
            forall|i: int, j: int| 0 <= i < j < r@.len() ==> r@[i].category.index() < r@[j].category.index(),
            forall|c: Category| self@[c.index() as int].len() > 0 <==> exists|i: int| 0 <= i < r@.len() && r@[i].category == c,
    {
        let all = Category::all();
        let mut r: Vec<OutputFile> = Vec::new();
        let mut k: usize = 0;
        while k < CATEGORY_COUNT
            invariant
                k <= CATEGORY_COUNT,
                all@ == Category::spec_all(),
                forall|i: int| #![trigger r@[i]] 0 <= i < r@.len() ==> {
                    let c = r@[i].category;
                    &&& c.index() < k
                    &&& self@[c.index() as int].len() > 0
                    &&& r@[i].name@ == c.file_name()
                    &&& r@[i].contents@ == render(self@[c.index() as int])
                    &&& r@[i].count == self@[c.index() as int].len()
                },
                forall|i: int, j: int| 0 <= i < j < r@.len() ==> r@[i].category.index() < r@[j].category.index(),
                forall|c: Category| c.index() < k ==> (self@[c.index() as int].len() > 0 <==> exists|i: int| 0 <= i < r@.len() && r@[i].category == c),
            decreases CATEGORY_COUNT - k,
        {
            let c = all[k];
            proof {
                crate::category::lemma_registry_order(c);
            }
            assert(c.index() == k);
            let packages = self.packages(c);
            if packages.len() > 0 {
                let file = OutputFile {
                    category: c,
                    name: c.filename(),
                    contents: render_lines(packages),
                    count: packages.len(),
                };
                let ghost prev = r@;
                r.push(file);
                assert(r@[r@.len() - 1].category == c);
                assert forall|d: Category| d.index() < k + 1 implies (self@[d.index() as int].len() > 0 <==> exists|i: int| 0 <= i < r@.len() && r@[i].category == d) by {
                    if d.index() < k {
                        if exists|i: int| 0 <= i < prev.len() && prev[i].category == d {
                            let i = choose|i: int| 0 <= i < prev.len() && prev[i].category == d;
                            assert(r@[i] == prev[i]);
                        }
                        if exists|i: int| 0 <= i < r@.len() && r@[i].category == d {
                            let i = choose|i: int| 0 <= i < r@.len() && r@[i].category == d;
                            assert(i != r@.len() - 1);
                            assert(prev[i] == r@[i]);
                        }
                    } else {
                        assert(d == c);
                    }
                }
            } else {
                assert forall|d: Category| d.index() < k + 1 implies (self@[d.index() as int].len() > 0 <==> exists|i: int| 0 <= i < r@.len() && r@[i].category == d) by {
                    if d.index() == k {
                        assert(d == c);
                        if exists|i: int| 0 <= i < r@.len() && r@[i].category == d {
                            let i = choose|i: int| 0 <= i < r@.len() && r@[i].category == d;
                            assert(r@[i].category.index() < k);
                        }
                    }
                }
            }
            k = k + 1;
        }
        proof {
            assert forall|c: Category| self@[c.index() as int].len() > 0 <==> exists|i: int| 0 <= i < r@.len() && r@[i].category == c by {
                crate::category::lemma_registry_order(c);
            }
        }
        r
    }

    /// Takes one input line: a blank line is dropped, any other goes, as
    /// read, into the bucket of the category chosen for it.
    pub fn take_line(&mut self, line: String, choice: Option<Category>)
        requires
            !is_blank(line@) ==> choice is Some,
        ensures
            final(self)@ == step(old(self)@, line@, choice),
    {
        if is_blank_line(line.as_str()) {
            return;
        }
        match choice {
            Some(c) => self.assign(c, line),
            None => {},
        }
    }
}

} // verus!
