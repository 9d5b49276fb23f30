//! What the store service answers when asked which packages a set of store
//! paths belongs to.

use crate::text::{copy_opt, from_chars, join, join_chars, opt, strs};
use crate::utils::misc::{get_pname_from_storepath, pname_of};
use crate::{Package, PackageAttr, PackageAttrView, PackageView};
use vstd::prelude::*;

verus! {

/// The packages of a batch of store paths.
#[derive(Debug)]
pub struct BatchStoreResponse {
    pub packages: Vec<StoreResponse>,
}

/// The package of one store path.
#[derive(Debug)]
pub struct StoreResponse {
    /// The attribute path, piece by piece.
    pub attribute: Vec<String>,
    pub version: Option<String>,
    pub store: String,
}

/// The attribute paths of the answers, one after another.
pub open spec fn attribute_paths(packages: Seq<StoreResponse>) -> Seq<Seq<Seq<char>>> {
    packages.map_values(|p: StoreResponse| strs(p.attribute@))
}

/// The package an answer stands for: its attribute is the pieces joined by
/// dots, its name is read from the store path and the version, and is
/// absent where the path does not end in that version.
pub open spec fn package_of(answer: StoreResponse) -> PackageView {
    PackageView {
        attr: PackageAttrView::NixPkgs { attr: join(strs(answer.attribute@), '.') },
        pname: match pname_of(answer.store@, opt(answer.version)) {
            Ok(n) => Some(n),
            Err(_) => None,
        },
        version: opt(answer.version),
        profile_name: None,
    }
}

fn dotted(pieces: &Vec<String>) -> (out: String)
    ensures
        out@ == join(strs(pieces@), '.'),
{
    from_chars(&join_chars(&crate::text::to_rows(pieces), '.'))
}

impl StoreResponse {
    /// The package this answer stands for.
    pub fn package(&self) -> (p: Package)
        ensures
            p@ == package_of(*self),
    {
        let pname = match get_pname_from_storepath(self.store.as_str(), copy_opt(&self.version)) {
            Ok(n) => Some(n),
            Err(_) => None,
        };
        Package {
            attr: PackageAttr::NixPkgs { attr: dotted(&self.attribute) },
            pname,
            version: copy_opt(&self.version),
            profile_name: None,
        }
    }
}

impl BatchStoreResponse {
    /// Every piece of every attribute path, in the order of the answers.
    pub fn get_attributes(&self) -> (out: Vec<String>)
        ensures
            strs(out@) == attribute_paths(self.packages@).flatten(),
    {
        let ghost paths = attribute_paths(self.packages@);
        let mut out: Vec<String> = Vec::new();
        let mut i: usize = 0;
        proof {
            assert(paths.take(0) =~= Seq::empty());
            assert(strs(out@) =~= Seq::empty());
        }
        while i < self.packages.len()
            invariant
                i <= self.packages.len(),
                paths == attribute_paths(self.packages@),
                strs(out@) == paths.take(i as int).flatten(),
            decreases self.packages.len() - i,
        {
            let pieces = &self.packages[i].attribute;
            let ghost before = strs(out@);
            let mut k: usize = 0;
            while k < pieces.len()
                invariant
                    k <= pieces.len(),
                    strs(out@) == before + strs(pieces@).take(k as int),
                decreases pieces.len() - k,
            {
                let ghost so_far = strs(out@);
                out.push(pieces[k].clone());
                proof {
                    assert(strs(out@) =~= so_far.push(pieces@[k as int]@));
                    assert(strs(pieces@).take(k + 1) =~= strs(pieces@).take(k as int).push(
                        pieces@[k as int]@,
                    ));
                }
                k += 1;
            }
            proof {
                assert(strs(pieces@).take(pieces@.len() as int) =~= strs(pieces@));
                assert(paths.take(i + 1) =~= paths.take(i as int).push(paths[i as int]));
                paths.take(i as int).lemma_flatten_push(paths[i as int]);
            }
            i += 1;
        }
        proof {
            assert(paths.take(self.packages@.len() as int) =~= paths);
        }
        out
    }

    /// The packages the answers stand for, in their order.
    pub fn packages(&self) -> (out: Vec<Package>)
        ensures
            out@.len() == self.packages@.len(),
            forall|i: int|
                0 <= i < out@.len() ==> (#[trigger] out@[i])@ == package_of(self.packages@[i]),
    {
        let mut out: Vec<Package> = Vec::new();
        let mut i: usize = 0;
        while i < self.packages.len()
            invariant
                i <= self.packages.len(),
                out@.len() == i,
                forall|k: int|
                    0 <= k < i ==> (#[trigger] out@[k])@ == package_of(self.packages@[k]),
            decreases self.packages.len() - i,
        {
            out.push(self.packages[i].package());
            i += 1;
        }
        out
    }
}

} // verus!
