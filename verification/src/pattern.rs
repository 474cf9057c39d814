//! Compiled patterns: the regular expression a path template is matched
//! with, its source text, and the cache that keeps each compiled expression.

use crate::template::{PathTemplate, Segment, SegmentModel};
use vstd::hash_map::StringHashMap;
use vstd::prelude::*;
use vstd::string::StringExecFns;

verus! {

/// `regex::Regex`, a compiled regular expression. Nothing inside it is visible
/// to the verifier; `regex_source` names the text it was compiled from. The
/// library makes its expressions with `regex::Regex::new` and nowhere else.
#[verifier::external_type_specification]
#[verifier::external_body]
pub struct ExRegex(regex::Regex);

/// `regex::Error`, which `regex::Regex::new` returns for a source that it
/// cannot compile.
#[verifier::external_type_specification]
#[verifier::external_body]
pub struct ExRegexError(regex::Error);

/// Whether `regex::Regex::new` returns an expression for this source rather
/// than an error.
pub uninterp spec fn regex_compiles(source: Seq<char>) -> bool;

/// The source that `regex::Regex::new` compiled the expression from, which
/// `regex::Regex::as_str` hands back.
pub uninterp spec fn regex_source(re: regex::Regex) -> Seq<char>;

/// What `regex::Regex::captures` gives for `text` with the expression compiled
/// from `source`: `None` where nothing in the text matches, else one entry for
/// each group of the expression, the whole match first, each entry the text
/// that the group matched or `None` where it took no part.
pub uninterp spec fn regex_captures(source: Seq<char>, text: Seq<char>) -> Option<
    Seq<Option<Seq<char>>>,
>;

/// `regex::Regex::new`: compiles `re` with the default settings. Claimed of
/// it: whether it returns an expression or an error depends on the source
/// alone, and the expression it returns is compiled from that source.
pub assume_specification[ regex::Regex::new ](re: &str) -> (r: Result<regex::Regex, regex::Error>)
    ensures
        r is Ok <==> regex_compiles(re@),
        r is Ok ==> regex_source(r->Ok_0) == re@,
;

/// `regex::escape`: copies `pattern`, putting a backslash before each
/// character that has a meaning in a regular expression. Claimed of it: the
/// result is `escaped` of the text, character by character.
pub assume_specification[ regex::escape ](pattern: &str) -> (r: String)
    ensures
        r@ == escaped(pattern@),
;

/// `regex::Regex::captures`, with each group that `regex::Captures::iter`
/// yields handed out as an owned copy of `regex::Match::as_str`. Claimed of
/// it: the result depends on the expression's source and the text alone, and
/// is what `regex_captures` names for them. Nothing is claimed of which texts
/// match.
#[verifier::external_body]
fn run_captures(re: &regex::Regex, text: &str) -> (r: Option<Vec<Option<String>>>)
    ensures
        r.deep_view() == regex_captures(regex_source(*re), text@),
{
    re.captures(text).map(|c| c.iter().map(|g| g.map(|m| m.as_str().to_string())).collect())
}

/// The characters that have a meaning in a regular expression.
pub open spec fn is_meta_character(c: char) -> bool {
    c == '\\' || c == '.' || c == '+' || c == '*' || c == '?' || c == '(' || c == ')' || c == '|'
        || c == '[' || c == ']' || c == '{' || c == '}' || c == '^' || c == '$' || c == '#' || c
        == '&' || c == '-' || c == '~'
}

/// `text` with a backslash before each of its meta characters.
pub open spec fn escaped(text: Seq<char>) -> Seq<char>
    decreases text.len(),
{
    if text.len() == 0 {
        Seq::empty()
    } else if is_meta_character(text.last()) {
        escaped(text.drop_last()).push('\\').push(text.last())
    } else {
        escaped(text.drop_last()).push(text.last())
    }
}

/// The expression for a placeholder: a group that takes one or more word
/// characters or hyphens.
pub open spec fn placeholder_source() -> Seq<char> {
    seq!['(', '[', '\\', 'w', '-', ']', '+', ')']
}

/// The part of the source that one segment contributes, behind its `/`.
pub open spec fn segment_source(seg: SegmentModel) -> Seq<char> {
    match seg {
        SegmentModel::Literal(text) => escaped(text),
        SegmentModel::Placeholder { name, ty } => placeholder_source(),
    }
}

/// The sources of the segments, each behind a `/`, one after another.
pub open spec fn segments_source(segs: Seq<SegmentModel>) -> Seq<char>
    decreases segs.len(),
{
    if segs.len() == 0 {
        Seq::empty()
    } else {
        segments_source(segs.drop_last()).push('/') + segment_source(segs.last())
    }
}

/// The source of the expression for a template, which is also the key under
/// which the compiled expression is cached: `^`, the segments, `$`. The
/// template without segments gives the expression for the path `/` alone.
pub open spec fn pattern_source_spec(segs: Seq<SegmentModel>) -> Seq<char> {
    if segs.len() == 0 {
        seq!['^', '/', '$']
    } else {
        (seq!['^'] + segments_source(segs)).push('$')
    }
}

/// Writes the source of the expression that matches the paths of a template
/// from start to end.
pub fn pattern_source(template: &PathTemplate) -> (source: String)
    ensures
        source@ == pattern_source_spec(template@),
{
    let segments = template.segments();
    let mut source = String::new();
    source.append("^");
    proof {
        reveal_strlit("^");
        reveal_strlit("/");
        reveal_strlit("$");
        reveal_strlit("([\\w-]+)");
        assert(source@ =~= seq!['^'] + segments_source(template@.subrange(0, 0)));
        assert("([\\w-]+)"@ =~= placeholder_source());
    }
    let mut i: usize = 0;
    while i < segments.len()
        invariant
            i <= segments.len(),
            crate::template::segment_models(segments@) == template@,
            source@ == seq!['^'] + segments_source(template@.subrange(0, i as int)),
            "/"@ == seq!['/'],
            "([\\w-]+)"@ == placeholder_source(),
        decreases segments.len() - i,
    {
        proof {
            let next = template@.subrange(0, i + 1);
            assert(next.drop_last() =~= template@.subrange(0, i as int));
            assert(next.last() == segments[i as int]@);
        }
        let ghost before = source@;
        source.append("/");
        match &segments[i] {
            Segment::Literal(text) => {
                let quoted = regex::escape(text.as_str());
                source.append(quoted.as_str());
            },
            Segment::Placeholder { name, ty } => {
                source.append("([\\w-]+)");
            },
        }
        proof {
            let done = template@.subrange(0, i as int);
            let part = segment_source(segments[i as int]@);
            assert(source@ =~= before + seq!['/'] + part);
            assert(source@ =~= seq!['^'] + (segments_source(done).push('/') + part));
        }
        i += 1;
    }
    proof {
        assert(template@.subrange(0, i as int) =~= template@);
    }
    if i == 0 {
        source.append("/");
    }
    source.append("$");
    proof {
        if i == 0 {
            assert(source@ =~= seq!['^', '/', '$']);
        } else {
            assert(source@ =~= (seq!['^'] + segments_source(template@)).push('$'));
        }
    }
    source
}

/// The texts of the groups that took part in a match, but for the whole
/// match, which stands first among the groups.
pub open spec fn captured_spec(groups: Seq<Option<Seq<char>>>) -> Seq<Seq<char>> {
    if groups.len() == 0 {
        Seq::empty()
    } else {
        present(groups.skip(1))
    }
}

/// The texts of the groups that are there, in order.
pub open spec fn present(groups: Seq<Option<Seq<char>>>) -> Seq<Seq<char>>
    decreases groups.len(),
{
    if groups.len() == 0 {
        Seq::empty()
    } else {
        match groups.last() {
            Some(text) => present(groups.drop_last()).push(text),
            None => present(groups.drop_last()),
        }
    }
}

/// The views of the strings, in order.
pub open spec fn texts(strings: Seq<String>) -> Seq<Seq<char>> {
    Seq::new(strings.len(), |i: int| strings[i]@)
}

/// The captured parameters of a match: the text of each group behind the
/// first that took part in the match, left to right.
pub fn captured_params(groups: &Vec<Option<String>>) -> (params: Vec<String>)
    ensures
        texts(params@) == captured_spec(groups.deep_view()),
{
    let mut params: Vec<String> = Vec::new();
    let ghost all = groups.deep_view();
    if groups.len() == 0 {
        assert(texts(params@) =~= Seq::empty());
        return params;
    }
    let ghost rest = all.skip(1);
    let mut i: usize = 1;
    proof {
        assert(rest.subrange(0, 0) =~= Seq::empty());
        assert(texts(params@) =~= Seq::empty());
    }
    while i < groups.len()
        invariant
            1 <= i <= groups.len(),
            all == groups.deep_view(),
            rest == all.skip(1),
            texts(params@) == present(rest.subrange(0, i - 1)),
        decreases groups.len() - i,
    {
        proof {
            let next = rest.subrange(0, i as int);
            assert(next.drop_last() =~= rest.subrange(0, i - 1));
            assert(next.last() == all[i as int]);
            assert(all[i as int] == groups[i as int].deep_view());
        }
        let ghost before = params@;
        match &groups[i] {
            Some(text) => {
                params.push(text.clone());
                proof {
                    assert(texts(params@) =~= texts(before).push(text@));
                }
            },
            None => {},
        }
        i += 1;
    }
    proof {
        assert(rest.subrange(0, i - 1) =~= rest);
    }
    params
}

/// The compiled expressions kept so far, each under its source. Expressions
/// are added and never taken out or replaced.
pub struct PatternCache {
    patterns: StringHashMap<regex::Regex>,
}

impl View for PatternCache {
    type V = Map<Seq<char>, regex::Regex>;

    closed spec fn view(&self) -> Map<Seq<char>, regex::Regex> {
        self.patterns@
    }
}

/// What a cache holds after it was asked for `source`: what it held before,
/// and under `source`, where the cache did not hold it and it compiles, some
/// expression.
pub open spec fn grown_by(
    before: Map<Seq<char>, regex::Regex>,
    after: Map<Seq<char>, regex::Regex>,
    source: Seq<char>,
) -> bool {
    &&& before.submap_of(after)
    &&& after.dom() == if regex_compiles(source) {
        before.dom().insert(source)
    } else {
        before.dom()
    }
}

impl PatternCache {
    /// Each expression in the cache was compiled from the source it is kept
    /// under.
    pub open spec fn wf(&self) -> bool {
        forall|source: Seq<char>| #[trigger]
            self@.contains_key(source) ==> regex_compiles(source) && regex_source(self@[source])
                == source
    }

    /// The sources whose compiled expressions the cache holds.
    pub open spec fn sources(&self) -> Set<Seq<char>> {
        self@.dom()
    }

    /// An empty cache.
    pub fn new() -> (cache: PatternCache)
        ensures
            cache.wf(),
            cache@ == Map::<Seq<char>, regex::Regex>::empty(),
    {
        PatternCache { patterns: StringHashMap::new() }
    }

    /// Whether the cache holds the expression compiled from `source`.
    pub fn contains(&self, source: &str) -> (b: bool)
        ensures
            b == self.sources().contains(source@),
    {
        self.patterns.contains_key(source)
    }

    /// How many expressions the cache holds.
    pub fn len(&self) -> (n: usize)
        ensures
            n == self.sources().len(),
    {
        broadcast use vstd::hash_map::group_hash_map_axioms;

        self.patterns.len()
    }

    /// The expression compiled from `source`, if the cache holds it.
    pub fn get(&self, source: &str) -> (r: Option<&regex::Regex>)
        ensures
            match r {
                Some(re) => self@.contains_key(source@) && *re == self@[source@],
                None => !self@.contains_key(source@),
            },
    {
        self.patterns.get(source)
    }
}

/// The compiled expression for `source`: the one in the cache where there is
/// one, else a newly compiled one, which is then kept in the cache.
///
/// `None` comes back exactly where the source does not compile, and the cache
/// is then left as it was. What the cache held it still holds, unchanged.
pub fn create_regex<'a>(cache: &'a mut PatternCache, source: &str) -> (r: Option<&'a regex::Regex>)
    requires
        old(cache).wf(),
    ensures
        final(cache).wf(),
        grown_by(old(cache)@, final(cache)@, source@),
        match r {
            Some(re) => regex_compiles(source@) && *re == final(cache)@[source@] && regex_source(
                *re,
            ) == source@,
            None => !regex_compiles(source@),
        },
{
    if !cache.patterns.contains_key(source) {
        match regex::Regex::new(source) {
            Ok(re) => {
                cache.patterns.insert(source.to_owned(), re);
            },
            Err(_) => {
                return None;
            },
        }
    }
    assert(cache@.dom() =~= old(cache)@.dom().insert(source@));
    cache.patterns.get(source)
}

/// The groups of the match of `text` against the expression compiled from
/// `source`; `None` where the source does not compile or nothing matches.
pub open spec fn match_spec(source: Seq<char>, text: Seq<char>) -> Option<Seq<Option<Seq<char>>>> {
    if regex_compiles(source) {
        regex_captures(source, text)
    } else {
        None
    }
}

/// Matches `text` against the expression compiled from `source`, compiling it
/// if the cache does not hold it yet. `None` where the source does not
/// compile or the text does not match; else the groups of the match. The
/// result is the same whatever the cache holds.
pub fn match_source(cache: &mut PatternCache, source: &str, text: &str) -> (r: Option<
    Vec<Option<String>>,
>)
    requires
        old(cache).wf(),
    ensures
        final(cache).wf(),
        grown_by(old(cache)@, final(cache)@, source@),
        r.deep_view() == match_spec(source@, text@),
{
    match create_regex(cache, source) {
        Some(re) => run_captures(re, text),
        None => None,
    }
}

} // verus!
