//! The serializer: the manifest written back as TOML arrays of quoted specifiers.
use vstd::prelude::*;

use crate::manifest::{group_view, groups_view, Dependencies, DepsView, ManifestView, PypiDeps};
use crate::specifier::{entry_text, render_entry, Dep};

verus! {

/// Each dependency as an indented, quoted array element, one per line.
pub open spec fn entries_text(ds: DepsView) -> Seq<char>
    decreases ds.len(),
{
    if ds.len() == 0 {
        Seq::empty()
    } else {
        entries_text(ds.drop_last()) + "    \""@ + entry_text(ds.last()) + "\",\n"@
    }
}

/// `key = [`, the elements, and `]`, each on its own line.
pub open spec fn block_text(key: Seq<char>, ds: DepsView) -> Seq<char> {
    key + " = [\n"@ + entries_text(ds) + "]\n"@
}

/// Each non-empty optional group as a block, after a blank line, in order.
pub open spec fn groups_text(gs: Seq<(Seq<char>, DepsView)>) -> Seq<char>
    decreases gs.len(),
{
    if gs.len() == 0 {
        Seq::empty()
    } else {
        groups_text(gs.drop_last()) + if gs.last().1.len() > 0 {
            "\n"@ + block_text(gs.last().0, gs.last().1)
        } else {
            Seq::empty()
        }
    }
}

/// The `dependencies` block if it is non-empty, then the optional groups.
pub open spec fn manifest_text(m: ManifestView) -> Seq<char> {
    (if m.0.len() > 0 {
        block_text("dependencies"@, m.0)
    } else {
        Seq::empty()
    }) + groups_text(m.1)
}

/// Appends the block of one group to `out`.
fn push_block(out: &mut String, key: &str, ds: &Vec<Dep>)
    ensures
        final(out)@ == old(out)@ + block_text(key@, group_view(ds@)),
{
    let ghost start = out@;
    out.append(key);
    out.append(" = [\n");
    let ghost head = out@;
    let mut i: usize = 0;
    while i < ds.len()
        invariant
            i <= ds.len(),
            head == start + key@ + " = [\n"@,
            out@ == head + entries_text(group_view(ds@).subrange(0, i as int)),
        decreases ds.len() - i,
    {
        let ghost pre = group_view(ds@).subrange(0, i as int);
        let ghost upto = group_view(ds@).subrange(0, i + 1);
        assert(upto.drop_last() =~= pre);
        let line = render_entry(&ds[i]);
        out.append("    \"");
        out.append(line.as_str());
        out.append("\",\n");
        assert(out@ =~= head + entries_text(upto));
        i = i + 1;
    }
    assert(group_view(ds@).subrange(0, i as int) =~= group_view(ds@));
    out.append("]\n");
    assert(final(out)@ =~= start + block_text(key@, group_view(ds@)));
}

impl PypiDeps {
    /// The manifest's dependency arrays as TOML text: `dependencies` if non-empty, then
    /// each non-empty optional group under its own name.
    pub fn render(&self) -> (r: String)
        ensures
            r@ == manifest_text(self@),
    {
        let mut out = String::new();
        if self.dependencies.0.len() > 0 {
            push_block(&mut out, "dependencies", &self.dependencies.0);
        }
        let ghost head = out@;
        assert(head =~= if self@.0.len() > 0 {
            block_text("dependencies"@, self@.0)
        } else {
            Seq::empty()
        });
        let gs = &self.optional_dependencies;
        let mut g: usize = 0;
        while g < gs.len()
            invariant
                g <= gs.len(),
                self@.1 == groups_view(gs@),
                out@ == head + groups_text(self@.1.subrange(0, g as int)),
            decreases gs.len() - g,
        {
            let ghost upto = self@.1.subrange(0, g + 1);
            assert(upto.drop_last() =~= self@.1.subrange(0, g as int));
            let entry: &(String, Dependencies) = &gs[g];
            if entry.1.0.len() > 0 {
                out.append("\n");
                push_block(&mut out, entry.0.as_str(), &entry.1.0);
            }
            assert(out@ =~= head + groups_text(upto));
            g = g + 1;
        }
        assert(self@.1.subrange(0, g as int) =~= self@.1);
        out
    }

    /// What the tool prints: a banner line, a blank line, and the rendered manifest.
    pub fn report(&self) -> (r: String)
        ensures
            r@ == "Newest versions:\n\n"@ + manifest_text(self@),
    {
        let mut out = String::from_str("Newest versions:\n\n");
        let body = self.render();
        out.append(body.as_str());
        out
    }
}

} // verus!
