use vstd::prelude::*;
use vstd::string::{StrSliceExecFns, StringExecFns};

use crate::ids::{uuid_text, uuid_to_text, DimensionId};

verus! {

/// An address in Hyperspace FS: a dimension and a path of segments below it.
#[derive(Debug, Clone, PartialEq, Eq, Hash)]
pub struct HyperspacePath {
    pub dimension_id: DimensionId,
    pub segments: Vec<String>,
}

/// The path text of some segments: each segment other than `/` followed by `/`.
pub open spec fn segments_text(segments: Seq<Seq<char>>) -> Seq<char>
    decreases segments.len(),
{
    if segments.len() == 0 {
        Seq::empty()
    } else {
        let rest = segments_text(segments.drop_last());
        if segments.last() == seq!['/'] {
            rest
        } else {
            rest + segments.last() + seq!['/']
        }
    }
}

/// The text of a path: `hs://<dimension uuid>/` followed by its segments.
pub open spec fn path_text(dimension_id: DimensionId, segments: Seq<Seq<char>>) -> Seq<char> {
    seq!['h', 's', ':', '/', '/'] + uuid_text(dimension_id) + seq!['/'] + segments_text(segments)
}

/// The views of some strings.
pub open spec fn string_views(strings: Seq<String>) -> Seq<Seq<char>> {
    strings.map_values(|s: String| s@)
}

/// Whether `s` is the root segment `/`.
fn is_root_segment(s: &str) -> (r: bool)
    ensures
        r == (s@ == seq!['/']),
{
    if s.unicode_len() == 1 {
        let c = s.get_char(0);
        assert(c == '/' ==> s@ =~= seq!['/']);
        c == '/'
    } else {
        false
    }
}

impl HyperspacePath {
    /// The root of a dimension: the single segment `/`.
    pub fn root(dimension_id: DimensionId) -> (p: Self)
        ensures
            p.dimension_id == dimension_id,
            string_views(p.segments@) == seq![seq!['/']],
    {
        let slash = String::from_str("/");
        proof {
            reveal_strlit("/");
        }
        assert(slash@ =~= seq!['/']);
        let mut segments: Vec<String> = Vec::new();
        segments.push(slash);
        assert(string_views(segments@) =~= seq![seq!['/']]);
        HyperspacePath { dimension_id, segments }
    }

    /// The path one segment deeper.
    pub fn push(self, segment: String) -> (p: Self)
        ensures
            p.dimension_id == self.dimension_id,
            p.segments@ == self.segments@.push(segment),
    {
        let mut p = self;
        p.segments.push(segment);
        p
    }

    /// The path's text, e.g. `hs://<dimension uuid>/projects/alpha/`.
    pub fn to_string(&self) -> (s: String)
        ensures
            s@ == path_text(self.dimension_id, string_views(self.segments@)),
    {
        let mut s = String::from_str("hs://");
        let id = uuid_to_text(self.dimension_id);
        s.append(id.as_str());
        s.append("/");
        proof {
            reveal_strlit("hs://");
            reveal_strlit("/");
        }
        let ghost views = string_views(self.segments@);
        let ghost head = seq!['h', 's', ':', '/', '/'] + uuid_text(self.dimension_id) + seq!['/'];
        assert(s@ =~= head);
        let mut i: usize = 0;
        while i < self.segments.len()
            invariant
                i <= self.segments@.len(),
                views == string_views(self.segments@),
                s@ == head + segments_text(views.take(i as int)),
            decreases self.segments@.len() - i,
        {
            let segment = self.segments[i].as_str();
            assert(views.take(i + 1).drop_last() =~= views.take(i as int));
            assert(views.take(i + 1).last() == segment@);
            if !is_root_segment(segment) {
                s.append(segment);
                s.append("/");
                proof {
                    reveal_strlit("/");
                }
            }
            i = i + 1;
        }
        assert(views.take(views.len() as int) =~= views);
        s
    }
}

} // verus!
