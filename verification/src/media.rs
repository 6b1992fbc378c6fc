//! Media references: one discovered media item per reference, a video
//! (`Moving`) or a still image (`Still`), each holding its source URL.
use vstd::prelude::*;

verus! {

use vstd::string::*;
use crate::numeral::{dec_str, u64_to_dec_string};

/// Specification-level value of a media reference: its kind and the
/// characters of its source URL.
pub ghost enum LinkModel {
    Moving(Seq<char>),
    Still(Seq<char>),
}

/// The URL of a reference, irrespective of its kind. Deduplication and the
/// manifest go by this value alone.
pub open spec fn link_url(l: LinkModel) -> Seq<char> {
    match l {
        LinkModel::Moving(u) => u,
        LinkModel::Still(u) => u,
    }
}

/// One discovered media item. Immutable once created; identity for
/// deduplication is the URL string, irrespective of the kind.
#[derive(Debug, Clone, PartialEq, Eq)]
pub enum IFunnyLink {
    Moving(String),
    Still(String),
}

impl View for IFunnyLink {
    type V = LinkModel;

    open spec fn view(&self) -> LinkModel {
        match self {
            IFunnyLink::Moving(u) => LinkModel::Moving(u@),
            IFunnyLink::Still(u) => LinkModel::Still(u@),
        }
    }
}

impl DeepView for IFunnyLink {
    type V = LinkModel;

    open spec fn deep_view(&self) -> LinkModel {
        self.view()
    }
}

/// Relies on `std::time::SystemTime::now` and
/// `SystemTime::duration_since(UNIX_EPOCH)`: the number of whole seconds
/// elapsed since the Unix epoch, or zero on a clock that reads earlier
/// than the epoch. Total — it never panics; nothing is assumed of the
/// clock's value.
#[verifier::external_body]
pub fn unix_secs() -> u64 {
    std::time::SystemTime::now()
        .duration_since(std::time::UNIX_EPOCH)
        .map(|d| d.as_secs())
        .unwrap_or(0)
}

/// Whether the string holds a `/` anywhere.
pub open spec fn contains_slash(s: Seq<char>) -> bool {
    exists|k: int| 0 <= k < s.len() && s[k] == '/'
}

/// The characters after the last `/` of the string; the whole string when
/// it has no `/`.
pub open spec fn last_segment(s: Seq<char>) -> Seq<char>
    decreases s.len(),
{
    if s.len() == 0 {
        s
    } else if s.last() == '/' {
        Seq::empty()
    } else {
        last_segment(s.drop_last()).push(s.last())
    }
}

proof fn lemma_last_segment_after(s: Seq<char>, i: int)
    requires
        0 <= i < s.len(),
        s[i] == '/',
        forall|k: int| i < k < s.len() ==> s[k] != '/',
    ensures
        last_segment(s) =~= s.subrange(i + 1, s.len() as int),
    decreases s.len(),
{
    if i == s.len() - 1 {
        assert(s.last() == '/');
    } else {
        assert(s[s.len() - 1] != '/');
        let t = s.drop_last();
        assert(t =~= s.subrange(0, s.len() - 1));
        lemma_last_segment_after(t, i);
        assert(t.subrange(i + 1, t.len() as int).push(s[s.len() - 1]) =~= s.subrange(
            i + 1,
            s.len() as int,
        ));
    }
}

impl IFunnyLink {
    /// The source URL of the reference, read-only.
    pub fn url(&self) -> (r: &str)
        ensures
            r@ == link_url(self@),
    {
        match self {
            IFunnyLink::Moving(u) => u.as_str(),
            IFunnyLink::Still(u) => u.as_str(),
        }
    }

    /// The name the downloaded file should carry: the last `/`-separated
    /// segment of the URL; for a URL with no `/` at all, the current Unix
    /// time in seconds written in decimal (a defensive fallback for
    /// malformed URLs).
    pub fn file_name(&self) -> (r: String)
        ensures
            contains_slash(link_url(self@)) ==> r@ == last_segment(link_url(self@)),
            !contains_slash(link_url(self@)) ==> exists|n: u64| r@ == dec_str(n as nat),
    {
        let s: &str = self.url();
        let len: usize = s.unicode_len();
        let mut i: usize = 0;
        let mut last_slash: Option<usize> = None;
        while i < len
            invariant
                len == s@.len(),
                i <= len,
                match last_slash {
                    Some(j) => j < i && s@[j as int] == '/' && (forall|k: int|
                        j < k < i ==> s@[k] != '/'),
                    None => forall|k: int| 0 <= k < i ==> s@[k] != '/',
                },
            decreases len - i,
        {
            let c = s.get_char(i);
            if c == '/' {
                last_slash = Some(i);
            }
            i += 1;
        }
        match last_slash {
            Some(j) => {
                proof {
                    assert(contains_slash(s@)) by {
                        assert(s@[j as int] == '/');
                    }
                    lemma_last_segment_after(s@, j as int);
                }
                let seg: &str = s.substring_char(j + 1, len);
                seg.to_owned()
            },
            None => {
                let t = unix_secs();
                let r = u64_to_dec_string(t);
                proof {
                    assert(exists|n: u64| r@ == dec_str(n as nat)) by {
                        assert(r@ == dec_str(t as nat));
                    }
                }
                r
            },
        }
    }
}

} // verus!
