//! Rendering of a lock into the final script.

use vstd::prelude::*;

use crate::lock::{LockedConfig, ResolvedPlugin};

verus! {

/// One piece of a template, applied once for each file of a plugin.
#[derive(Debug)]
pub enum Piece {
    /// Text copied as it is.
    Text(String),
    /// The plugin's name.
    Name,
    /// The plugin's resolved identity.
    Identity,
    /// The plugin's local directory.
    Dir,
    /// The file the template is applied to.
    File,
}

/// The text of one piece for `plugin` and `file`.
pub open spec fn piece_text(piece: Piece, plugin: ResolvedPlugin, file: Seq<char>) -> Seq<char> {
    match piece {
        Piece::Text(s) => s@,
        Piece::Name => plugin.name@,
        Piece::Identity => plugin.identity@,
        Piece::Dir => plugin.dir@,
        Piece::File => file,
    }
}

/// A template applied to one file: its pieces one after the other.
pub open spec fn apply(t: Seq<Piece>, plugin: ResolvedPlugin, file: Seq<char>) -> Seq<char>
    decreases t.len(),
{
    if t.len() == 0 {
        Seq::empty()
    } else {
        apply(t.drop_last(), plugin, file) + piece_text(t.last(), plugin, file)
    }
}

/// A template applied to each of `files` in turn.
pub open spec fn apply_all(t: Seq<Piece>, plugin: ResolvedPlugin, files: Seq<String>) -> Seq<char>
    decreases files.len(),
{
    if files.len() == 0 {
        Seq::empty()
    } else {
        apply_all(t, plugin, files.drop_last()) + apply(t, plugin, files.last()@)
    }
}

/// The template of `plugin`: its own, else `default`.
pub open spec fn template_of(plugin: ResolvedPlugin, default: Seq<Piece>) -> Seq<Piece> {
    match plugin.template {
        Some(t) => t@,
        None => default,
    }
}

/// The script of `plugins`: each plugin's text, in order.
pub open spec fn script(plugins: Seq<ResolvedPlugin>, default: Seq<Piece>) -> Seq<char>
    decreases plugins.len(),
{
    if plugins.len() == 0 {
        Seq::empty()
    } else {
        let p = plugins.last();
        script(plugins.drop_last(), default) + apply_all(template_of(p, default), p, p.files@)
    }
}

/// Rendering two locks with the same plugins gives the same text.
pub proof fn lemma_render_deterministic(l1: LockedConfig, l2: LockedConfig, default: Seq<Piece>)
    requires
        l1.plugins@ == l2.plugins@,
    ensures
        script(l1.plugins@, default) == script(l2.plugins@, default),
{
}

fn push_piece(out: &mut String, piece: &Piece, plugin: &ResolvedPlugin, file: &String)
    ensures
        final(out)@ == old(out)@ + piece_text(*piece, *plugin, file@),
{
    match piece {
        Piece::Text(s) => out.append(s.as_str()),
        Piece::Name => out.append(plugin.name.as_str()),
        Piece::Identity => out.append(plugin.identity.as_str()),
        Piece::Dir => out.append(plugin.dir.as_str()),
        Piece::File => out.append(file.as_str()),
    }
}

fn push_applied(out: &mut String, t: &Vec<Piece>, plugin: &ResolvedPlugin, file: &String)
    ensures
        final(out)@ == old(out)@ + apply(t@, *plugin, file@),
{
    let ghost start = out@;
    let mut k: usize = 0;
    while k < t.len()
        invariant
            k <= t@.len(),
            out@ == start + apply(t@.subrange(0, k as int), *plugin, file@),
        decreases t@.len() - k,
    {
        proof {
            assert(t@.subrange(0, k + 1).drop_last() =~= t@.subrange(0, k as int));
        }
        push_piece(out, &t[k], plugin, file);
        proof {
            let a = apply(t@.subrange(0, k as int), *plugin, file@);
            assert(start + a + piece_text(t@[k as int], *plugin, file@) =~= start + (a + piece_text(
                t@[k as int],
                *plugin,
                file@,
            )));
        }
        k = k + 1;
    }
    proof {
        assert(t@.subrange(0, t@.len() as int) =~= t@);
    }
}

fn push_plugin(out: &mut String, default: &Vec<Piece>, plugin: &ResolvedPlugin)
    ensures
        final(out)@ == old(out)@ + apply_all(template_of(*plugin, default@), *plugin, plugin.files@),
{
    let t = match &plugin.template {
        Some(t) => t,
        None => default,
    };
    let ghost start = out@;
    let mut j: usize = 0;
    while j < plugin.files.len()
        invariant
            j <= plugin.files@.len(),
            t@ == template_of(*plugin, default@),
            out@ == start + apply_all(t@, *plugin, plugin.files@.subrange(0, j as int)),
        decreases plugin.files@.len() - j,
    {
        let ghost fs = plugin.files@;
        proof {
            assert(fs.subrange(0, j + 1).drop_last() =~= fs.subrange(0, j as int));
        }
        push_applied(out, t, plugin, &plugin.files[j]);
        proof {
            let a = apply_all(t@, *plugin, fs.subrange(0, j as int));
            let b = apply(t@, *plugin, fs[j as int]@);
            assert(start + a + b =~= start + (a + b));
        }
        j = j + 1;
    }
    proof {
        assert(plugin.files@.subrange(0, plugin.files@.len() as int) =~= plugin.files@);
    }
}

/// Renders the script of a lock: each plugin's template (its own, else
/// `default`) applied to each of its files, plugins in their locked order,
/// nothing reordered or merged. The result depends on its arguments alone.
pub fn render(locked: &LockedConfig, default: &Vec<Piece>) -> (r: String)
    ensures
        r@ == script(locked.plugins@, default@),
{
    let mut out = String::new();
    let ghost ps = locked.plugins@;
    let mut i: usize = 0;
    while i < locked.plugins.len()
        invariant
            ps == locked.plugins@,
            i <= ps.len(),
            out@ == script(ps.subrange(0, i as int), default@),
        decreases ps.len() - i,
    {
        proof {
            assert(ps.subrange(0, i + 1).drop_last() =~= ps.subrange(0, i as int));
        }
        push_plugin(&mut out, default, &locked.plugins[i]);
        i = i + 1;
    }
    proof {
        assert(ps.subrange(0, ps.len() as int) =~= ps);
    }
    out
}

} // verus!
