//! Directory paths as sequences of component names, counted from the root.
use vstd::prelude::*;
use vstd::string::StringExecFns;

verus! {

/// The mathematical value of a path: its component names, root first.
pub type PathView = Seq<Seq<char>>;

/// An absolute directory path. The root has no components.
#[derive(Debug)]
pub struct DirPath {
    pub components: Vec<String>,
}

impl View for DirPath {
    type V = PathView;

    open spec fn view(&self) -> PathView {
        self.components@.map_values(|s: String| s@)
    }
}

/// The path of the child `name` of the directory `parent`.
pub open spec fn child_path(parent: PathView, name: Seq<char>) -> PathView {
    parent.push(name)
}

/// The parent of `path`; the root is its own parent.
pub open spec fn parent_path(path: PathView) -> PathView {
    if path.len() == 0 {
        path
    } else {
        path.drop_last()
    }
}

/// The components of `path`, each behind a slash.
pub open spec fn joined(path: PathView) -> Seq<char>
    decreases path.len(),
{
    if path.len() == 0 {
        Seq::empty()
    } else {
        joined(path.drop_last()) + seq!['/'] + path.last()
    }
}

/// The path as it is written: a slash for the root, and else each component
/// behind a slash.
pub open spec fn path_text(path: PathView) -> Seq<char> {
    if path.len() == 0 {
        seq!['/']
    } else {
        joined(path)
    }
}

impl DirPath {
    /// The root directory.
    pub fn root() -> (p: DirPath)
        ensures
            p@ == Seq::<Seq<char>>::empty(),
    {
        DirPath { components: Vec::new() }
    }

    /// The path with the given components, root first.
    pub fn from_components(components: Vec<String>) -> (p: DirPath)
        ensures
            p.components == components,
    {
        DirPath { components }
    }

    /// The number of components.
    pub fn depth(&self) -> (n: usize)
        ensures
            n == self@.len(),
    {
        self.components.len()
    }

    /// Whether this is the root directory.
    pub fn is_root(&self) -> (b: bool)
        ensures
            b == (self@.len() == 0),
    {
        self.components.len() == 0
    }

    /// The last component, which names the directory inside its parent.
    pub fn file_name(&self) -> (name: Option<&String>)
        ensures
            self@.len() == 0 ==> name is None,
            self@.len() > 0 ==> name is Some && name->0@ == self@.last(),
    {
        let n = self.components.len();
        if n == 0 {
            None
        } else {
            Some(&self.components[n - 1])
        }
    }

    /// A copy of the first `n` components.
    fn prefix(&self, n: usize) -> (p: DirPath)
        requires
            n <= self@.len(),
        ensures
            p@ == self@.take(n as int),
    {
        let mut components: Vec<String> = Vec::new();
        let mut i: usize = 0;
        while i < n
            invariant
                i <= n <= self.components@.len(),
                components@.len() == i,
                forall|k: int| 0 <= k < i ==> (#[trigger] components@[k])@ == self.components@[k]@,
            decreases n - i,
        {
            components.push(self.components[i].clone());
            i += 1;
        }
        let p = DirPath { components };
        assert(p@ =~= self@.take(n as int));
        p
    }

    /// The path of the child `name` of this directory.
    pub fn child(&self, name: &str) -> (p: DirPath)
        ensures
            p@ == child_path(self@, name@),
    {
        let mut p = self.prefix(self.components.len());
        let ghost before = p@;
        p.components.push(name.to_owned());
        assert(before =~= self@);
        assert(p@.len() == before.len() + 1);
        assert(forall|k: int| 0 <= k < before.len() ==> p@[k] == before[k]);
        assert(p@ =~= child_path(self@, name@));
        p
    }

    /// The parent directory; the root is its own parent.
    pub fn parent(&self) -> (p: DirPath)
        ensures
            p@ == parent_path(self@),
    {
        let n = self.components.len();
        let p = if n == 0 {
            self.prefix(0)
        } else {
            self.prefix(n - 1)
        };
        assert(p@ =~= parent_path(self@));
        p
    }

    /// The path as it is written.
    pub fn to_text(&self) -> (text: String)
        ensures
            text@ == path_text(self@),
    {
        proof {
            reveal_strlit("/");
        }
        if self.components.len() == 0 {
            let text = "/".to_owned();
            assert(text@ =~= seq!['/']);
            return text;
        }
        let mut text = String::new();
        let mut i: usize = 0;
        assert(self@.take(0) =~= Seq::<Seq<char>>::empty());
        while i < self.components.len()
            invariant
                i <= self.components@.len(),
                "/"@ =~= seq!['/'],
                text@ == joined(self@.take(i as int)),
            decreases self.components@.len() - i,
        {
            assert(self@.take(i + 1).drop_last() =~= self@.take(i as int));
            assert(self@.take(i + 1).last() == self.components@[i as int]@);
            text.append("/");
            text.append(self.components[i].as_str());
            i += 1;
        }
        assert(self@.take(self@.len() as int) =~= self@);
        text
    }

    /// Whether two paths name the same directory.
    pub fn equals(&self, other: &DirPath) -> (b: bool)
        ensures
            b == (self@ == other@),
    {
        if self.components.len() != other.components.len() {
            assert(self@.len() != other@.len());
            return false;
        }
        let mut i: usize = 0;
        while i < self.components.len()
            invariant
                i <= self.components@.len(),
                self.components@.len() == other.components@.len(),
                forall|k: int| 0 <= k < i ==> self@[k] == other@[k],
            decreases self.components@.len() - i,
        {
            if self.components[i] != other.components[i] {
                assert(self@[i as int] != other@[i as int]);
                return false;
            }
            i += 1;
        }
        assert(self@ =~= other@);
        true
    }
}

impl Clone for DirPath {
    fn clone(&self) -> (p: DirPath)
        ensures
            p@ == self@,
    {
        let p = self.prefix(self.components.len());
        assert(p@ =~= self@);
        p
    }
}

} // verus!
