//! The manifest: the newline-joined list of collected URLs, in collection
//! order, exactly as it is written to `links.txt`.
use vstd::prelude::*;

verus! {

use vstd::string::*;
use crate::media::{IFunnyLink, LinkModel, link_url};

/// The manifest text for a list of references: their URLs in order,
/// joined by single newlines, with no trailing newline.
pub open spec fn manifest_model(ls: Seq<LinkModel>) -> Seq<char>
    decreases ls.len(),
{
    if ls.len() == 0 {
        Seq::empty()
    } else if ls.len() == 1 {
        link_url(ls[0])
    } else {
        manifest_model(ls.drop_last()) + seq!['\n'] + link_url(ls.last())
    }
}

/// The exact content of the manifest file for these references.
pub fn manifest_contents(links: &Vec<IFunnyLink>) -> (r: String)
    ensures
        r@ == manifest_model(links.deep_view()),
{
    let ghost ls = links.deep_view();
    let mut out = String::new();
    let n = links.len();
    let mut i: usize = 0;
    proof {
        reveal_strlit("\n");
        assert("\n"@ =~= seq!['\n']);
    }
    while i < n
        invariant
            i <= n,
            n == links.len(),
            ls == links.deep_view(),
            "\n"@ =~= seq!['\n'],
            out@ == manifest_model(ls.take(i as int)),
        decreases n - i,
    {
        if i > 0 {
            out.append("\n");
        }
        let u: &str = links[i].url();
        out.append(u);
        proof {
            assert(ls.take(i + 1).drop_last() =~= ls.take(i as int));
            assert(ls.take(i + 1).last() == ls[i as int]);
            if i == 0 {
                assert(out@ =~= manifest_model(ls.take(1)));
            } else {
                assert(out@ =~= manifest_model(ls.take(i as int)) + seq!['\n'] + link_url(
                    ls[i as int],
                ));
            }
        }
        i += 1;
    }
    proof {
        assert(ls.take(n as int) =~= ls);
    }
    out
}

} // verus!
