//! Where a run takes place: the working directory and its repository root.
use vstd::prelude::*;

verus! {

pub struct Context {
    pub cwd: String,
    pub repository_root: Option<String>,
}

impl Clone for Context {
    fn clone(&self) -> (r: Self)
        ensures
            r == *self,
    {
        Context { cwd: self.cwd.clone(), repository_root: crate::message::clone_opt(&self.repository_root) }
    }
}

/// The first of `ancestors` (nearest first) that holds a `.git` entry.
pub open spec fn first_marked(ancestors: Seq<String>, has_git: Seq<bool>) -> Option<String>
    decreases ancestors.len(),
{
    if ancestors.len() == 0 || has_git.len() == 0 {
        None
    } else if has_git[0] {
        Some(ancestors[0])
    } else {
        first_marked(ancestors.drop_first(), has_git.drop_first())
    }
}

/// The repository root of a directory: the nearest of its ancestors (itself
/// first) that holds a `.git` entry. `has_git[i]` tells whether `ancestors[i]`
/// holds one.
pub fn find_repository_root(ancestors: &Vec<String>, has_git: &Vec<bool>) -> (r: Option<String>)
    requires
        ancestors@.len() == has_git@.len(),
    ensures
        r == first_marked(ancestors@, has_git@),
{
    let mut i: usize = 0;
    assert(ancestors@.skip(0) =~= ancestors@);
    assert(has_git@.skip(0) =~= has_git@);
    while i < ancestors.len()
        invariant
            i <= ancestors@.len(),
            ancestors@.len() == has_git@.len(),
            first_marked(ancestors@, has_git@) == first_marked(ancestors@.skip(i as int), has_git@.skip(i as int)),
        decreases ancestors.len() - i,
    {
        assert(ancestors@.skip(i as int).drop_first() =~= ancestors@.skip(i + 1));
        assert(has_git@.skip(i as int).drop_first() =~= has_git@.skip(i + 1));
        if has_git[i] {
            return Some(ancestors[i].clone());
        }
        i += 1;
    }
    None
}

impl Context {
    /// The context of the directory `cwd`, whose ancestors (itself first) are
    /// `ancestors`, `has_git[i]` telling whether `ancestors[i]` holds `.git`.
    pub fn from_path(cwd: String, ancestors: &Vec<String>, has_git: &Vec<bool>) -> (c: Self)
        requires
            ancestors@.len() == has_git@.len(),
        ensures
            c.cwd == cwd,
            c.repository_root == first_marked(ancestors@, has_git@),
    {
        let repository_root = find_repository_root(ancestors, has_git);
        Context { cwd, repository_root }
    }

    /// The directory that repository-wide work starts from: the repository
    /// root, or the working directory outside a repository.
    pub fn root_dir(&self) -> (r: &String)
        ensures
            r == match self.repository_root {
                Some(root) => root,
                None => self.cwd,
            },
    {
        match &self.repository_root {
            Some(root) => root,
            None => &self.cwd,
        }
    }
}

} // verus!
