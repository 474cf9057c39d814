//! Path templates: the shape of the paths a route accepts.

use crate::param::ParamType;
use vstd::prelude::*;

verus! {

/// One `/`-separated part of a path template.
#[derive(Debug, Clone, PartialEq, Eq)]
pub enum Segment {
    /// Text that the path must hold as it stands.
    Literal(String),
    /// A named place in the path whose text is captured and converted to `ty`.
    Placeholder { name: String, ty: ParamType },
}

/// What a `Segment` stands for.
pub enum SegmentModel {
    Literal(Seq<char>),
    Placeholder { name: Seq<char>, ty: ParamType },
}

impl View for Segment {
    type V = SegmentModel;

    open spec fn view(&self) -> SegmentModel {
        match self {
            Segment::Literal(text) => SegmentModel::Literal(text@),
            Segment::Placeholder { name, ty } => SegmentModel::Placeholder { name: name@, ty: *ty },
        }
    }
}

/// Why a sequence of segments is no path template.
#[derive(Debug, Clone, Copy, PartialEq, Eq, Structural)]
pub enum TemplateError {
    /// The segment at this position is a placeholder without a name.
    UnnamedPlaceholder(usize),
}

/// Whether the segment is a placeholder whose name is empty.
pub open spec fn is_unnamed(seg: SegmentModel) -> bool {
    match seg {
        SegmentModel::Literal(_) => false,
        SegmentModel::Placeholder { name, ty } => name.len() == 0,
    }
}

/// Whether every placeholder among the segments has a name.
pub open spec fn well_named(segs: Seq<SegmentModel>) -> bool {
    forall|i: int| 0 <= i < segs.len() ==> !is_unnamed(#[trigger] segs[i])
}

/// The declared types of the placeholders among the segments, left to right.
pub open spec fn placeholder_types(segs: Seq<SegmentModel>) -> Seq<ParamType>
    decreases segs.len(),
{
    if segs.len() == 0 {
        Seq::empty()
    } else {
        match segs.last() {
            SegmentModel::Literal(_) => placeholder_types(segs.drop_last()),
            SegmentModel::Placeholder { name, ty } => placeholder_types(segs.drop_last()).push(ty),
        }
    }
}

/// How many of the segments are placeholders.
pub open spec fn placeholder_count(segs: Seq<SegmentModel>) -> nat
    decreases segs.len(),
{
    if segs.len() == 0 {
        0
    } else {
        match segs.last() {
            SegmentModel::Literal(_) => placeholder_count(segs.drop_last()),
            SegmentModel::Placeholder { name, ty } => placeholder_count(segs.drop_last()) + 1,
        }
    }
}

/// There is one declared type for each placeholder.
pub proof fn lemma_one_type_per_placeholder(segs: Seq<SegmentModel>)
    ensures
        placeholder_types(segs).len() == placeholder_count(segs),
    decreases segs.len(),
{
    if segs.len() > 0 {
        lemma_one_type_per_placeholder(segs.drop_last());
    }
}

/// The views of the segments, in order.
pub open spec fn segment_models(segments: Seq<Segment>) -> Seq<SegmentModel> {
    Seq::new(segments.len(), |i: int| segments[i]@)
}

/// An ordered sequence of segments in which every placeholder has a name.
/// The template without segments stands for the root path `/`.
#[derive(Debug, PartialEq, Eq)]
pub struct PathTemplate {
    segments: Vec<Segment>,
}

impl View for PathTemplate {
    type V = Seq<SegmentModel>;

    closed spec fn view(&self) -> Seq<SegmentModel> {
        segment_models(self.segments@)
    }
}

impl PathTemplate {
    #[verifier::type_invariant]
    spec fn named(&self) -> bool {
        well_named(segment_models(self.segments@))
    }

    /// The template of the root path: no segments.
    pub fn root() -> (t: PathTemplate)
        ensures
            t@.len() == 0,
    {
        let t = PathTemplate { segments: Vec::new() };
        assert(t@ =~= Seq::empty());
        t
    }

    /// Makes a template of the segments, unless one of them is a placeholder
    /// without a name: then the error names the first such segment.
    pub fn new(segments: Vec<Segment>) -> (r: Result<PathTemplate, TemplateError>)
        ensures
            match r {
                Ok(t) => t@ == segment_models(segments@) && well_named(t@),
                Err(TemplateError::UnnamedPlaceholder(i)) => {
                    &&& i < segments.len()
                    &&& is_unnamed(segments[i as int]@)
                    &&& forall|j: int| 0 <= j < i ==> !is_unnamed(#[trigger] segments[j]@)
                },
            },
    {
        let mut i: usize = 0;
        while i < segments.len()
            invariant
                i <= segments.len(),
                forall|j: int| 0 <= j < i ==> !is_unnamed(#[trigger] segments[j]@),
            decreases segments.len() - i,
        {
            match &segments[i] {
                Segment::Literal(_) => {},
                Segment::Placeholder { name, ty } => {
                    if name.as_str().is_empty() {
                        return Err(TemplateError::UnnamedPlaceholder(i));
                    }
                },
            }
            i += 1;
        }
        assert forall|j: int| 0 <= j < segments.len() implies !is_unnamed(
            #[trigger] segment_models(segments@)[j],
        ) by {
            assert(!is_unnamed(segments[j]@));
        }
        Ok(PathTemplate { segments })
    }

    /// The number of segments.
    pub fn len(&self) -> (n: usize)
        ensures
            n == self@.len(),
    {
        self.segments.len()
    }

    /// Whether this is the template of the root path.
    pub fn is_root(&self) -> (b: bool)
        ensures
            b == (self@.len() == 0),
    {
        self.segments.len() == 0
    }

    /// The segments, in order.
    pub fn segments(&self) -> (s: &Vec<Segment>)
        ensures
            segment_models(s@) == self@,
    {
        &self.segments
    }

    /// The declared types of the placeholders, left to right.
    pub fn param_types(&self) -> (types: Vec<ParamType>)
        ensures
            types@ == placeholder_types(self@),
            types@.len() == placeholder_count(self@),
    {
        let mut types: Vec<ParamType> = Vec::new();
        let mut i: usize = 0;
        while i < self.segments.len()
            invariant
                i <= self.segments.len(),
                types@ == placeholder_types(self@.subrange(0, i as int)),
            decreases self.segments.len() - i,
        {
            proof {
                let next = self@.subrange(0, i + 1);
                assert(next.drop_last() =~= self@.subrange(0, i as int));
                assert(next.last() == self.segments[i as int]@);
            }
            match &self.segments[i] {
                Segment::Literal(_) => {},
                Segment::Placeholder { name, ty } => {
                    types.push(*ty);
                },
            }
            i += 1;
        }
        proof {
            assert(self@.subrange(0, i as int) =~= self@);
            lemma_one_type_per_placeholder(self@);
        }
        types
    }
}

} // verus!
