//! The declared plugins of a configuration and the edits made to it.

use vstd::prelude::*;

use crate::render::Piece;

verus! {

/// Where a plugin comes from.
#[derive(Clone, Copy, Debug, PartialEq, Eq, Structural)]
pub enum SourceKind {
    /// A version-controlled repository, cloned into the cache.
    Git,
    /// A remote archive, downloaded and extracted into the cache.
    Remote,
    /// A directory on the local filesystem, used in place.
    Local,
    /// A script written inline in the configuration.
    Inline,
}

/// One declared plugin.
#[derive(Debug)]
pub struct SourceSpec {
    pub name: String,
    pub kind: SourceKind,
    /// A URL or a filesystem path, depending on `kind`.
    pub locator: String,
    /// Branch, tag or commit to check out.
    pub revision: Option<String>,
    /// Subdirectory of the fetched tree to use.
    pub subdir: Option<String>,
    /// Filename globs to include, in order.
    pub uses: Vec<String>,
    /// Template that replaces the default one for this plugin.
    pub template: Option<Vec<Piece>>,
}

/// Whether some plugin of `c` is called `name`.
pub open spec fn has_name(c: Seq<SourceSpec>, name: Seq<char>) -> bool {
    exists|i: int| 0 <= i < c.len() && #[trigger] c[i].name@ == name
}

/// No two plugins of `c` share a name.
pub open spec fn names_unique(c: Seq<SourceSpec>) -> bool {
    forall|i: int, j: int|
        0 <= i < c.len() && 0 <= j < c.len() && i != j ==> #[trigger] c[i].name@ != #[trigger] c[j].name@
}

/// The plugins of `c` that are not called `name`, in their order.
pub open spec fn without(c: Seq<SourceSpec>, name: Seq<char>) -> Seq<SourceSpec>
    decreases c.len(),
{
    if c.len() == 0 {
        Seq::empty()
    } else {
        let rest = without(c.drop_last(), name);
        if c.last().name@ == name {
            rest
        } else {
            rest.push(c.last())
        }
    }
}

/// Why an edit of the configuration was refused.
#[derive(Debug)]
pub enum EditError {
    /// A plugin of that name is already declared.
    AlreadyExists { name: String },
}

/// Looks up the position of the plugin called `name`.
pub fn find(config: &Vec<SourceSpec>, name: &String) -> (r: Option<usize>)
    ensures
        match r {
            Some(i) => i < config@.len() && config@[i as int].name@ == name@,
            None => !has_name(config@, name@),
        },
{
    let mut i: usize = 0;
    while i < config.len()
        invariant
            i <= config@.len(),
            forall|k: int| 0 <= k < i ==> #[trigger] config@[k].name@ != name@,
        decreases config@.len() - i,
    {
        if config[i].name == *name {
            return Some(i);
        }
        i = i + 1;
    }
    None
}

/// Declares a new plugin at the end of the configuration; refused when the
/// name is taken, which keeps names unique.
pub fn add(config: &mut Vec<SourceSpec>, plugin: SourceSpec) -> (r: Result<(), EditError>)
    ensures
        has_name(old(config)@, plugin.name@) ==> (r matches Err(EditError::AlreadyExists { name })
            && name@ == plugin.name@ && final(config)@ == old(config)@),
        !has_name(old(config)@, plugin.name@) ==> (r is Ok && final(config)@ == old(config)@.push(
            plugin,
        )),
        names_unique(old(config)@) ==> names_unique(final(config)@),
{
    match find(config, &plugin.name) {
        Some(_) => Err(EditError::AlreadyExists { name: plugin.name }),
        None => {
            config.push(plugin);
            Ok(())
        },
    }
}

proof fn lemma_without_step(c: Seq<SourceSpec>, name: Seq<char>, k: int)
    requires
        0 <= k < c.len(),
    ensures
        without(c.subrange(0, k + 1), name) == if c[k].name@ == name {
            without(c.subrange(0, k), name)
        } else {
            without(c.subrange(0, k), name).push(c[k])
        },
{
    assert(c.subrange(0, k + 1).drop_last() =~= c.subrange(0, k));
}

/// Takes the plugin called `name` out of the configuration; nothing changes
/// when there is none.
pub fn remove(config: &mut Vec<SourceSpec>, name: &String)
    ensures
        final(config)@ == without(old(config)@, name@),
{
    let mut rest: Vec<SourceSpec> = Vec::new();
    std::mem::swap(config, &mut rest);
    let ghost orig = rest@;
    let total: usize = rest.len();
    let ghost n = orig.len();
    let mut k: usize = 0;
    proof {
        assert(orig.subrange(0, 0) =~= Seq::<SourceSpec>::empty());
        assert(rest@ =~= orig.subrange(0, n as int));
    }
    while rest.len() > 0
        invariant
            n == orig.len(),
            n == total,
            k + rest@.len() == n,
            rest@ == orig.subrange(k as int, n as int),
            config@ == without(orig.subrange(0, k as int), name@),
        decreases rest@.len(),
    {
        let item = rest.remove(0);
        proof {
            lemma_without_step(orig, name@, k as int);
            assert(rest@ =~= orig.subrange(k + 1, n as int));
        }
        if item.name != *name {
            config.push(item);
        }
        k = k + 1;
    }
    proof {
        assert(orig.subrange(0, n as int) =~= orig);
    }
}

} // verus!
