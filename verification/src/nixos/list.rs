//! The packages of the running system and of the system configuration.

use crate::order::{ascending, sort};
use crate::text::{
    from_chars, rows, slice, split, split_chars, strip_prefix, strs, to_chars, without_prefix,
};
use crate::utils::misc::base_name;
use crate::{Package, PackageAttr, PackageAttrView, PackageView};
use vstd::prelude::*;

verus! {

/// The names in the output of a query for references: of each line that is
/// not empty, what follows its last `/`, in the order of the lines.
pub open spec fn line_names(output: Seq<char>) -> Seq<Seq<char>> {
    split(output, '\n').filter(|l: Seq<char>| l.len() > 0).map_values(|l: Seq<char>| base_name(l))
}

/// The names to ask the store service about: the names in the output, in
/// ascending order.
pub open spec fn names_of(output: Seq<char>) -> Seq<Seq<char>> {
    ascending(line_names(output))
}

/// An entry of a package list as an attribute: without `pkgs.` in front,
/// where it has that.
pub open spec fn attribute_of(entry: Seq<char>) -> Seq<char> {
    match without_prefix(entry, "pkgs."@) {
        Some(a) => a,
        None => entry,
    }
}

/// The attributes of the entries of a package list.
pub open spec fn attributes_of(entries: Seq<Seq<char>>) -> Seq<Seq<char>> {
    entries.map_values(|e: Seq<char>| attribute_of(e))
}

/// The package that a row of the record store stands for: an empty version
/// is no version.
pub open spec fn listed(attr: Seq<char>, row: (String, String)) -> PackageView {
    PackageView {
        attr: PackageAttrView::NixPkgs { attr },
        pname: Some(row.0@),
        version: if row.1@.len() > 0 {
            Some(row.1@)
        } else {
            None
        },
        profile_name: None,
    }
}

/// The rows found for the attribute at position `i`; none where nothing
/// was looked up for it.
pub open spec fn rows_at(found: Seq<Vec<(String, String)>>, i: int) -> Seq<(String, String)> {
    if 0 <= i < found.len() {
        found[i]@
    } else {
        Seq::empty()
    }
}

/// The packages of a package list: for each attribute, in order, one
/// package for each row found under it.
pub open spec fn listed_packages(attrs: Seq<Seq<char>>, found: Seq<Vec<(String, String)>>) -> Seq<
    PackageView,
> {
    Seq::new(
        attrs.len(),
        |i: int| rows_at(found, i).map_values(|r: (String, String)| listed(attrs[i], r)),
    ).flatten()
}

/// The names to ask the store service about, from what `nix-store --query
/// --references` printed.
pub fn reference_names(output: &str) -> (out: Vec<String>)
    ensures
        strs(out@) == names_of(output@),
{
    let lines = split_chars(&to_chars(output), '\n');
    let ghost all = rows(lines@);
    let ghost keep = |l: Seq<char>| l.len() > 0;
    let ghost name = |l: Seq<char>| base_name(l);
    let mut names: Vec<Vec<char>> = Vec::new();
    let mut i: usize = 0;
    proof {
        assert(all.take(0) =~= Seq::empty());
        assert(all.take(0).filter(keep) =~= Seq::empty()) by {
            reveal(Seq::filter);
        }
        assert(rows(names@) =~= all.take(0).filter(keep).map_values(name));
    }
    while i < lines.len()
        invariant
            i <= lines.len(),
            all == rows(lines@),
            keep == (|l: Seq<char>| l.len() > 0),
            name == (|l: Seq<char>| base_name(l)),
            rows(names@) == all.take(i as int).filter(keep).map_values(name),
        decreases lines.len() - i,
    {
        let line = &lines[i];
        let ghost before = rows(names@);
        proof {
            assert(all.take(i + 1) =~= all.take(i as int).push(all[i as int]));
            all.take(i as int).lemma_filter_push(all[i as int], keep);
            assert(all[i as int] == line@);
        }
        if line.len() > 0 {
            let start = crate::text::after_last(line, '/');
            let base = slice(line, start, line.len());
            proof {
                assert(base@ =~= base_name(line@));
            }
            names.push(base);
            proof {
                let kept = all.take(i as int).filter(keep);
                assert(rows(names@) =~= before.push(base@));
                assert(kept.push(line@).map_values(name) =~= kept.map_values(name).push(
                    base_name(line@),
                ));
            }
        }
        i += 1;
    }
    proof {
        assert(all.take(lines@.len() as int) =~= all);
    }
    crate::text::to_strings(&sort(names))
}

/// The attributes that the entries of a package list name.
pub fn attributes(entries: &Vec<String>) -> (out: Vec<String>)
    ensures
        strs(out@) == attributes_of(strs(entries@)),
{
    let ghost want = attributes_of(strs(entries@));
    let mut out: Vec<String> = Vec::new();
    let mut i: usize = 0;
    let prefix = to_chars("pkgs.");
    proof {
        assert(strs(out@) =~= want.take(0));
    }
    while i < entries.len()
        invariant
            i <= entries.len(),
            prefix@ == "pkgs."@,
            want == attributes_of(strs(entries@)),
            strs(out@) == want.take(i as int),
        decreases entries.len() - i,
    {
        let ghost before = strs(out@);
        let entry = to_chars(entries[i].as_str());
        let attr = match strip_prefix(&entry, &prefix) {
            Some(a) => a,
            None => entry,
        };
        out.push(from_chars(&attr));
        proof {
            assert(strs(out@) =~= before.push(attr@));
            assert(want.take(i + 1) =~= want.take(i as int).push(want[i as int]));
        }
        i += 1;
    }
    proof {
        assert(want.take(entries@.len() as int) =~= want);
    }
    out
}

/// The packages of a package list, given for each of its attributes the
/// rows, of package name and version, that the record store holds under it.
pub fn list_systempackages(attrs: &Vec<String>, found: &Vec<Vec<(String, String)>>) -> (out: Vec<
    Package,
>)
    ensures
        crate::package_views(out@) == listed_packages(strs(attrs@), found@),
{
    let ghost each = Seq::new(
        attrs@.len(),
        |i: int| rows_at(found@, i).map_values(|r: (String, String)| listed(strs(attrs@)[i], r)),
    );
    let mut out: Vec<Package> = Vec::new();
    let mut i: usize = 0;
    proof {
        assert(each.take(0) =~= Seq::empty());
        assert(crate::package_views(out@) =~= Seq::empty());
    }
    while i < attrs.len()
        invariant
            i <= attrs.len(),
            each.len() == attrs@.len(),
            each == Seq::new(
                attrs@.len(),
                |i: int|
                    rows_at(found@, i).map_values(
                        |r: (String, String)| listed(strs(attrs@)[i], r),
                    ),
            ),
            crate::package_views(out@) == each.take(i as int).flatten(),
        decreases attrs.len() - i,
    {
        let ghost before = crate::package_views(out@);
        let ghost group = each[i as int];
        if i < found.len() {
            let group_rows = &found[i];
            let mut k: usize = 0;
            proof {
                assert(before + group.take(0) =~= before);
            }
            while k < group_rows.len()
                invariant
                    k <= group_rows.len(),
                    i < attrs.len(),
                    group.len() == group_rows@.len(),
                    group == group_rows@.map_values(
                        |r: (String, String)| listed(strs(attrs@)[i as int], r),
                    ),
                    crate::package_views(out@) == before + group.take(k as int),
                decreases group_rows.len() - k,
            {
                let ghost so_far = crate::package_views(out@);
                let row = &group_rows[k];
                let version = if row.1.as_str().unicode_len() > 0 {
                    Some(row.1.clone())
                } else {
                    None
                };
                let p = Package {
                    attr: PackageAttr::NixPkgs { attr: attrs[i].clone() },
                    pname: Some(row.0.clone()),
                    version,
                    profile_name: None,
                };
                out.push(p);
                proof {
                    assert(p@ == group[k as int]);
                    assert(crate::package_views(out@) =~= so_far.push(p@));
                    assert(before + group.take(k + 1) =~= (before + group.take(k as int)).push(
                        group[k as int],
                    ));
                }
                k += 1;
            }
            proof {
                assert(group.take(group_rows@.len() as int) =~= group);
            }
        } else {
            proof {
                assert(group =~= Seq::empty());
                assert(before + group =~= before);
            }
        }
        proof {
            assert(each.take(i + 1) =~= each.take(i as int).push(group));
            each.take(i as int).lemma_flatten_push(group);
        }
        i += 1;
    }
    proof {
        assert(each.take(attrs@.len() as int) =~= each);
    }
    out
}

} // verus!
