//! Paths as sequences of segments, the way `std::path::Path::components`
//! reads them: an optional root `/` first, then names, `.` and `..`.

use path_absolutize::Absolutize;
use std::path::PathBuf;
use vstd::prelude::*;
use vstd::string::*;

verus! {

/// The segment that stands for the filesystem root.
pub open spec fn root_segment() -> Seq<char> {
    seq!['/']
}

/// The segment `.`.
pub open spec fn current_segment() -> Seq<char> {
    seq!['.']
}

/// The segment `..`.
pub open spec fn parent_segment() -> Seq<char> {
    seq!['.', '.']
}

/// A segment that names a file or a directory.
pub open spec fn is_name(segment: Seq<char>) -> bool {
    segment != root_segment() && segment != current_segment() && segment != parent_segment()
}

/// A segment is never empty and holds a `/` only where it is the root.
pub open spec fn valid_segment(segment: Seq<char>) -> bool {
    segment.len() > 0 && (segment == root_segment() || !segment.contains('/'))
}

/// The segment at `i` is valid, and is the root only where it stands
/// first.
pub open spec fn valid_at(path: Seq<Seq<char>>, i: int) -> bool {
    valid_segment(path[i]) && (i > 0 ==> path[i] != root_segment())
}

/// Every segment is valid, and the root stands nowhere but first.
pub open spec fn valid_segments(path: Seq<Seq<char>>) -> bool {
    forall|i: int| 0 <= i < path.len() ==> valid_at(path, i)
}

/// Whether the path starts at the filesystem root.
pub open spec fn is_absolute(path: Seq<Seq<char>>) -> bool {
    path.len() > 0 && path[0] == root_segment()
}

/// The last segment, where it is a name.
pub open spec fn file_name_of(path: Seq<Seq<char>>) -> Option<Seq<char>> {
    if path.len() > 0 && is_name(path.last()) {
        Some(path.last())
    } else {
        None
    }
}

/// The path without its last segment; nothing for the empty path and for
/// the bare root.
pub open spec fn parent_of(path: Seq<Seq<char>>) -> Option<Seq<Seq<char>>> {
    if path.len() > 0 && path.last() != root_segment() {
        Some(path.drop_last())
    } else {
        None
    }
}

/// What is left of `path` behind `base`, where `path` starts with `base`.
pub open spec fn strip_prefix_of(path: Seq<Seq<char>>, base: Seq<Seq<char>>) -> Option<
    Seq<Seq<char>>,
> {
    if base.is_prefix_of(path) {
        Some(path.skip(base.len() as int))
    } else {
        None
    }
}

/// Whether a file name ends in a dot and `md` in either case, with
/// something in front of that dot.
pub open spec fn has_markdown_extension(name: Seq<char>) -> bool {
    let n = name.len() as int;
    n >= 4 && name[n - 3] == '.' && (name[n - 2] == 'm' || name[n - 2] == 'M') && (name[n - 1]
        == 'd' || name[n - 1] == 'D')
}

/// Whether the path names a Markdown file.
pub open spec fn is_markdown(path: Seq<Seq<char>>) -> bool {
    match file_name_of(path) {
        Some(name) => has_markdown_extension(name),
        None => false,
    }
}

/// The path with every `.` dropped and every `..` resolved against the
/// segment before it; a `..` directly under the first segment stays there.
pub open spec fn resolve_dots(path: Seq<Seq<char>>) -> Seq<Seq<char>>
    decreases path.len(),
{
    if path.len() == 0 {
        path
    } else {
        let before = resolve_dots(path.drop_last());
        let segment = path.last();
        if segment == current_segment() {
            before
        } else if segment == parent_segment() {
            if before.len() > 1 {
                before.drop_last()
            } else {
                before
            }
        } else {
            before.push(segment)
        }
    }
}

/// No segment is `.` or `..`.
pub open spec fn dot_free(path: Seq<Seq<char>>) -> bool {
    forall|i: int|
        0 <= i < path.len() ==> #[trigger] path[i] != current_segment() && path[i]
            != parent_segment()
}

/// The views of a list of strings, one segment each.
pub open spec fn segments_view(segments: Seq<String>) -> Seq<Seq<char>> {
    Seq::new(segments.len(), |i: int| segments[i]@)
}

/// Resolving the dots of a path leaves neither `.` nor `..` in it.
pub proof fn lemma_resolve_dots_dot_free(path: Seq<Seq<char>>)
    ensures
        dot_free(resolve_dots(path)),
    decreases path.len(),
{
    if path.len() > 0 {
        lemma_resolve_dots_dot_free(path.drop_last());
    }
}

/// A path without dots is its own resolved form.
pub proof fn lemma_resolve_dots_of_dot_free(path: Seq<Seq<char>>)
    requires
        dot_free(path),
    ensures
        resolve_dots(path) == path,
    decreases path.len(),
{
    if path.len() > 0 {
        let shorter = path.drop_last();
        assert forall|i: int| 0 <= i < shorter.len() implies #[trigger] shorter[i]
            != current_segment() && shorter[i] != parent_segment() by {
            assert(shorter[i] == path[i]);
        }
        lemma_resolve_dots_of_dot_free(shorter);
        assert(path[path.len() - 1] != current_segment());
        assert(shorter.push(path.last()) =~= path);
    }
}

/// Resolving the dots of a path of valid segments leaves valid segments,
/// and a rooted path stays rooted.
pub proof fn lemma_resolve_dots_valid(path: Seq<Seq<char>>)
    requires
        valid_segments(path),
    ensures
        valid_segments(resolve_dots(path)),
        resolve_dots(path).len() <= path.len(),
        is_absolute(path) ==> is_absolute(resolve_dots(path)),
    decreases path.len(),
{
    if path.len() > 0 {
        let shorter = path.drop_last();
        assert forall|i: int| 0 <= i < shorter.len() implies valid_at(shorter, i) by {
            assert(valid_at(path, i));
        }
        lemma_resolve_dots_valid(shorter);
        let before = resolve_dots(shorter);
        let segment = path.last();
        assert(valid_at(path, path.len() - 1));
        assert(root_segment()[0] == '/' && current_segment()[0] == '.' && parent_segment()[0]
            == '.');
        if path.len() > 1 && is_absolute(path) {
            assert(shorter[0] == path[0]);
        }
        if segment == current_segment() {
        } else if segment == parent_segment() {
            if before.len() > 1 {
                let after = before.drop_last();
                assert forall|i: int| 0 <= i < after.len() implies valid_at(after, i) by {
                    assert(valid_at(before, i));
                }
            }
        } else {
            let after = before.push(segment);
            assert forall|i: int| 0 <= i < after.len() implies valid_at(after, i) by {
                if i < before.len() {
                    assert(valid_at(before, i));
                }
            }
        }
    }
}

/// A path held segment by segment. Every value has valid segments.
#[derive(Debug)]
pub struct PathSegments {
    segments: Vec<String>,
}

impl View for PathSegments {
    type V = Seq<Seq<char>>;

    closed spec fn view(&self) -> Seq<Seq<char>> {
        segments_view(self.segments@)
    }
}

fn is_root_segment(segment: &String) -> (r: bool)
    ensures
        r == (segment@ == root_segment()),
{
    proof {
        reveal_strlit("/");
        assert("/"@ =~= root_segment());
    }
    *segment == "/".to_owned()
}

fn is_current_segment(segment: &String) -> (r: bool)
    ensures
        r == (segment@ == current_segment()),
{
    proof {
        reveal_strlit(".");
        assert("."@ =~= current_segment());
    }
    *segment == ".".to_owned()
}

fn is_parent_segment(segment: &String) -> (r: bool)
    ensures
        r == (segment@ == parent_segment()),
{
    proof {
        reveal_strlit("..");
        assert(".."@ =~= parent_segment());
    }
    *segment == "..".to_owned()
}

/// Whether `segment` may stand in a path.
pub fn segment_is_valid(segment: &String) -> (r: bool)
    ensures
        r == valid_segment(segment@),
{
    let text = segment.as_str();
    let n = text.unicode_len();
    if n == 0 {
        return false;
    }
    if is_root_segment(segment) {
        return true;
    }
    let mut i: usize = 0;
    while i < n
        invariant
            i <= n,
            n == text@.len(),
            text@ == segment@,
            segment@ != root_segment(),
            forall|j: int| 0 <= j < i ==> text@[j] != '/',
        decreases n - i,
    {
        if text.get_char(i) == '/' {
            assert(segment@[i as int] == '/');
            assert(segment@.contains('/'));
            return false;
        }
        i += 1;
    }
    assert(!segment@.contains('/'));
    true
}

impl PathSegments {
    #[verifier::type_invariant]
    spec fn well_formed(self) -> bool {
        valid_segments(segments_view(self.segments@))
    }

    /// The empty path.
    pub fn new() -> (r: PathSegments)
        ensures
            r@ == Seq::<Seq<char>>::empty(),
    {
        let r = PathSegments { segments: Vec::new() };
        assert(r@ =~= Seq::<Seq<char>>::empty());
        r
    }

    /// The path of these segments, where all of them are valid and the
    /// root stands nowhere but first.
    pub fn from_segments(segments: Vec<String>) -> (r: Option<PathSegments>)
        ensures
            match r {
                Some(path) => path@ == segments_view(segments@),
                None => !valid_segments(segments_view(segments@)),
            },
    {
        let ghost model = segments_view(segments@);
        let mut i: usize = 0;
        while i < segments.len()
            invariant
                i <= segments.len(),
                model == segments_view(segments@),
                forall|j: int| 0 <= j < i ==> valid_at(model, j),
            decreases segments.len() - i,
        {
            assert(model[i as int] == segments@[i as int]@);
            if !segment_is_valid(&segments[i]) || (i > 0 && is_root_segment(&segments[i])) {
                assert(!valid_at(model, i as int));
                return None;
            }
            i += 1;
        }
        Some(PathSegments { segments })
    }

    /// The segments, first to last. They are valid, as in every path.
    pub fn segments(&self) -> (r: &Vec<String>)
        ensures
            segments_view(r@) == self@,
            valid_segments(self@),
    {
        proof {
            use_type_invariant(self);
        }
        &self.segments
    }

    /// The number of segments.
    pub fn len(&self) -> (r: usize)
        ensures
            r == self@.len(),
    {
        self.segments.len()
    }

    /// The segments from `from` up to `to`, as a path of their own.
    fn slice(&self, from: usize, to: usize) -> (r: PathSegments)
        requires
            from <= to <= self@.len(),
        ensures
            r@ == self@.subrange(from as int, to as int),
    {
        proof {
            use_type_invariant(self);
        }
        let mut out: Vec<String> = Vec::new();
        let mut i: usize = from;
        while i < to
            invariant
                from <= i <= to,
                to <= self.segments@.len(),
                out@.len() == i - from,
                forall|j: int| 0 <= j < out@.len() ==> out@[j]@ == self.segments@[from + j]@,
            decreases to - i,
        {
            out.push(self.segments[i].clone());
            i += 1;
        }
        let ghost whole = segments_view(self.segments@);
        let ghost part = segments_view(out@);
        assert(part =~= whole.subrange(from as int, to as int));
        assert forall|j: int| 0 <= j < part.len() implies valid_at(part, j) by {
            assert(part[j] == whole[from + j]);
            assert(valid_at(whole, from + j));
        }
        PathSegments { segments: out }
    }

    /// A copy of the path.
    pub fn duplicate(&self) -> (r: PathSegments)
        ensures
            r@ == self@,
    {
        let r = self.slice(0, self.segments.len());
        assert(r@ =~= self@);
        r
    }

    /// Whether both paths have the same segments.
    pub fn same_as(&self, other: &PathSegments) -> (r: bool)
        ensures
            r == (self@ == other@),
    {
        if self.segments.len() != other.segments.len() {
            assert(self@.len() != other@.len());
            return false;
        }
        let mut i: usize = 0;
        while i < self.segments.len()
            invariant
                i <= self.segments@.len(),
                self.segments@.len() == other.segments@.len(),
                forall|j: int| 0 <= j < i ==> self.segments@[j]@ == other.segments@[j]@,
            decreases self.segments.len() - i,
        {
            if self.segments[i] != other.segments[i] {
                assert(self@[i as int] != other@[i as int]);
                return false;
            }
            i += 1;
        }
        assert(self@ =~= other@);
        true
    }

    /// Whether the path begins with all the segments of `base`.
    pub fn starts_with(&self, base: &PathSegments) -> (r: bool)
        ensures
            r == base@.is_prefix_of(self@),
    {
        if base.segments.len() > self.segments.len() {
            return false;
        }
        let mut i: usize = 0;
        while i < base.segments.len()
            invariant
                i <= base.segments@.len(),
                base.segments@.len() <= self.segments@.len(),
                forall|j: int| 0 <= j < i ==> self.segments@[j]@ == base.segments@[j]@,
            decreases base.segments.len() - i,
        {
            if self.segments[i] != base.segments[i] {
                assert(self@.subrange(0, base@.len() as int)[i as int] != base@[i as int]);
                return false;
            }
            i += 1;
        }
        assert(self@.subrange(0, base@.len() as int) =~= base@);
        true
    }

    /// Whether the path starts at the filesystem root.
    pub fn is_absolute(&self) -> (r: bool)
        ensures
            r == is_absolute(self@),
    {
        self.segments.len() > 0 && is_root_segment(&self.segments[0])
    }

    /// The last segment, where it names something.
    pub fn file_name(&self) -> (r: Option<String>)
        ensures
            match r {
                Some(name) => file_name_of(self@) == Some(name@),
                None => file_name_of(self@).is_none(),
            },
    {
        let n = self.segments.len();
        if n == 0 {
            return None;
        }
        let last = &self.segments[n - 1];
        assert(self@.last() == last@);
        if is_root_segment(last) || is_current_segment(last) || is_parent_segment(last) {
            None
        } else {
            Some(last.clone())
        }
    }

    /// The path without its last segment.
    pub fn parent(&self) -> (r: Option<PathSegments>)
        ensures
            match r {
                Some(dir) => parent_of(self@) == Some(dir@),
                None => parent_of(self@).is_none(),
            },
    {
        let n = self.segments.len();
        if n == 0 {
            return None;
        }
        assert(self@.last() == self.segments@[n - 1]@);
        if is_root_segment(&self.segments[n - 1]) {
            None
        } else {
            Some(self.slice(0, n - 1))
        }
    }

    /// What follows `base` in the path, where the path starts with it.
    /// Behind a base that is not empty, what follows is never absolute.
    pub fn strip_prefix(&self, base: &PathSegments) -> (r: Option<PathSegments>)
        ensures
            match r {
                Some(rest) => strip_prefix_of(self@, base@) == Some(rest@) && (base@.len() > 0
                    ==> !is_absolute(rest@)),
                None => strip_prefix_of(self@, base@).is_none(),
            },
    {
        if self.starts_with(base) {
            proof {
                use_type_invariant(self);
                if base@.len() < self@.len() {
                    assert(valid_at(self@, base@.len() as int));
                }
            }
            Some(self.slice(base.segments.len(), self.segments.len()))
        } else {
            None
        }
    }

    /// The path followed by `other`; `other` alone where it is absolute.
    pub fn join(&self, other: &PathSegments) -> (r: PathSegments)
        ensures
            r@ == if is_absolute(other@) {
                other@
            } else {
                self@ + other@
            },
    {
        if other.is_absolute() {
            return other.duplicate();
        }
        proof {
            use_type_invariant(self);
            use_type_invariant(other);
        }
        let mut out: Vec<String> = self.duplicate().segments;
        let mut i: usize = 0;
        while i < other.segments.len()
            invariant
                i <= other.segments@.len(),
                segments_view(out@) == self@ + other@.subrange(0, i as int),
            decreases other.segments.len() - i,
        {
            let ghost before = segments_view(out@);
            out.push(other.segments[i].clone());
            assert(segments_view(out@) =~= before.push(other@[i as int]));
            assert(other@.subrange(0, i as int + 1) =~= other@.subrange(0, i as int).push(
                other@[i as int],
            ));
            assert(segments_view(out@) =~= self@ + other@.subrange(0, i as int + 1));
            i += 1;
        }
        assert(other@.subrange(0, other@.len() as int) =~= other@);
        let ghost whole = self@ + other@;
        assert forall|j: int| 0 <= j < whole.len() implies valid_at(whole, j) by {
            if j < self@.len() {
                assert(valid_at(self@, j));
            } else {
                assert(valid_at(other@, j - self@.len()));
            }
        }
        PathSegments { segments: out }
    }

    /// The path followed by the one segment `name`.
    pub fn child(&self, name: &str) -> (r: PathSegments)
        requires
            valid_segment(name@),
            name@ != root_segment(),
        ensures
            r@ == self@.push(name@),
    {
        proof {
            use_type_invariant(self);
        }
        let mut out: Vec<String> = self.duplicate().segments;
        out.push(name.to_owned());
        let ghost whole = self@.push(name@);
        assert(segments_view(out@) =~= whole);
        assert forall|j: int| 0 <= j < whole.len() implies valid_at(whole, j) by {
            if j < self@.len() {
                assert(valid_at(self@, j));
            }
        }
        PathSegments { segments: out }
    }

    /// Calls `path_absolutize::Absolutize::absolutize` on the path written
    /// with `/` between its segments. For a path that starts at the root
    /// the call, where it succeeds, resolves the dots as `resolve_dots`
    /// says: it keeps the root, drops each `.`, and lets each `..` take
    /// the segment before it away unless only the root is left. The call
    /// fails where the working directory cannot be read, in which case
    /// nothing is returned. This holds on Unix, where `/` is the root.
    #[verifier::external_body]
    pub(crate) fn absolutize(&self) -> (r: Option<PathSegments>)
        requires
            is_absolute(self@),
        ensures
            r matches Some(resolved) ==> resolved@ == resolve_dots(self@),
    {
        let joined: PathBuf = self.segments.iter().collect();
        let resolved = joined.absolutize().ok()?;
        let parts = resolved.components();
        let segments = parts.map(|part| part.as_os_str().to_string_lossy().into_owned()).collect();
        Some(PathSegments { segments })
    }

    /// Lets `candidate` through where it lies under the directory `self`,
    /// and holds it back where it does not.
    pub fn confine(&self, candidate: PathSegments) -> (r: Option<PathSegments>)
        ensures
            r == if self@.is_prefix_of(candidate@) {
                Some(candidate)
            } else {
                None
            },
    {
        if candidate.starts_with(self) {
            Some(candidate)
        } else {
            None
        }
    }

    /// Whether the path names a file whose extension is `md`, in either
    /// case.
    pub fn is_markdown(&self) -> (r: bool)
        ensures
            r == is_markdown(self@),
    {
        match self.file_name() {
            None => false,
            Some(name) => {
                let text = name.as_str();
                let n = text.unicode_len();
                if n < 4 {
                    return false;
                }
                let dot = text.get_char(n - 3);
                let m = text.get_char(n - 2);
                let d = text.get_char(n - 1);
                dot == '.' && (m == 'm' || m == 'M') && (d == 'd' || d == 'D')
            },
        }
    }
}

} // verus!
