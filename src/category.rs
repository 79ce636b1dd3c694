//! The closed set of categories a package can be sorted into.

use vstd::prelude::*;
use vstd::string::*;

verus! {

/// How many categories there are.
pub const CATEGORY_COUNT: usize = 5;

/// A classification bucket. The set is fixed; its order (see
/// [`Category::all`]) is the order of the choice list and of the output.
#[derive(Clone, Copy, Debug, PartialEq, Eq, Structural, Hash)]
pub enum Category {
    Dev,
    Desktop,
    Entertainment,
    Core,
    Misc,
}

impl Category {
    /// Every category, in registry order.
    pub open spec fn spec_all() -> Seq<Category> {
        seq![Category::Dev, Category::Desktop, Category::Entertainment, Category::Core, Category::Misc]
    }

    /// The position of this category in registry order.
    pub open spec fn index(self) -> nat {
        match self {
            Category::Dev => 0,
            Category::Desktop => 1,
            Category::Entertainment => 2,
            Category::Core => 3,
            Category::Misc => 4,
        }
    }

    /// The identifier shown to the user and used to name the output file.
    pub open spec fn label(self) -> Seq<char> {
        match self {
            Category::Dev => "dev"@,
            Category::Desktop => "desktop"@,
            Category::Entertainment => "entertainment"@,
            Category::Core => "core"@,
            Category::Misc => "misc"@,
        }
    }

    /// The name of the file that holds this category's packages.
    pub open spec fn file_name(self) -> Seq<char> {
        self.label() + ".txt"@
    }

    /// Every category, in registry order.
    pub fn all() -> (r: [Category; 5])
        ensures
            r@ == Self::spec_all(),
    {
        let r = [Category::Dev, Category::Desktop, Category::Entertainment, Category::Core, Category::Misc];
        assert(r@ =~= Self::spec_all());
        r
    }

    /// The category's identifier.
    pub fn as_str(&self) -> (r: &'static str)
        ensures
            r@ == self.label(),
    {
        match self {
            Category::Dev => "dev",
            Category::Desktop => "desktop",
            Category::Entertainment => "entertainment",
            Category::Core => "core",
            Category::Misc => "misc",
        }
    }

    /// The output file name, `<identifier>.txt`.
    pub fn filename(&self) -> (r: String)
        ensures
            r@ == self.file_name(),
    {
        let name = String::from_str(self.as_str());
        name.concat(".txt")
    }

    /// The category at position `i` of the registry order, if there is one.
    pub fn from_index(i: usize) -> (r: Option<Category>)
        ensures
            i < CATEGORY_COUNT ==> r == Some(Self::spec_all()[i as int]),
            i >= CATEGORY_COUNT ==> r is None,
    {
        if i < CATEGORY_COUNT {
            let all = Category::all();
            Some(all[i])
        } else {
            None
        }
    }

    /// The position of this category in registry order.
    pub fn position(&self) -> (r: usize)
        ensures
            r == self.index(),
    {
        match self {
            Category::Dev => 0,
            Category::Desktop => 1,
            Category::Entertainment => 2,
            Category::Core => 3,
            Category::Misc => 4,
        }
    }
}

/// Registry order lists each category once, at its own position.
pub proof fn lemma_registry_order(c: Category)
    ensures
        c.index() < CATEGORY_COUNT,
        Category::spec_all().len() == CATEGORY_COUNT,
        Category::spec_all()[c.index() as int] == c,
{
}

} // verus!
