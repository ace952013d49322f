//! Filesystem paths as a root flag and a sequence of components.

use vstd::prelude::*;
use crate::text::{last_of, clone_texts, text_starts_with, texts_view, pieces, pieces_before, lemma_pieces_step};

verus! {

/// What a path denotes: whether it starts at the root, and its components.
pub type PathView = (bool, Seq<Seq<char>>);

/// A path on the local filesystem, split into its normal components.
///
/// `absolute` tells whether the path starts at the filesystem root; `parts`
/// holds the components in order, without separators.
#[derive(Clone, Debug)]
pub struct LocalPath {
    pub absolute: bool,
    pub parts: Vec<String>,
}

impl View for LocalPath {
    type V = PathView;

    open spec fn view(&self) -> PathView {
        (self.absolute, texts_view(self.parts@))
    }
}

/// Joining `rel` onto `base`: an absolute `rel` replaces `base`.
pub open spec fn join_spec(base: PathView, rel: PathView) -> PathView {
    if rel.0 {
        rel
    } else {
        (base.0, base.1 + rel.1)
    }
}

/// `base` with one more component.
pub open spec fn child_spec(base: PathView, name: Seq<char>) -> PathView {
    (base.0, base.1.push(name))
}

/// The path without its last component, where it has one.
pub open spec fn parent_spec(p: PathView) -> Option<PathView> {
    if p.1.len() == 0 {
        None
    } else {
        Some((p.0, p.1.drop_last()))
    }
}

/// The last component, where there is one.
pub open spec fn file_name_spec(p: PathView) -> Option<Seq<char>> {
    if p.1.len() == 0 {
        None
    } else {
        Some(p.1.last())
    }
}

/// Whether `p` lies at or below `base`, compared component by component.
pub open spec fn starts_with_spec(p: PathView, base: PathView) -> bool {
    &&& p.0 == base.0
    &&& base.1.len() <= p.1.len()
    &&& p.1.subrange(0, base.1.len() as int) == base.1
}

/// Whether the last component of `p` is `name`.
pub open spec fn ends_with_spec(p: PathView, name: Seq<char>) -> bool {
    p.1.len() > 0 && p.1.last() == name
}

/// The components separated by `/`.
pub open spec fn joined_parts(parts: Seq<Seq<char>>) -> Seq<char>
    decreases parts.len(),
{
    if parts.len() == 0 {
        Seq::empty()
    } else if parts.len() == 1 {
        parts[0]
    } else {
        joined_parts(parts.drop_last()) + seq!['/'] + parts.last()
    }
}

/// The text of a path: a leading `/` for an absolute path, then its components.
pub open spec fn render_spec(p: PathView) -> Seq<char> {
    if p.0 {
        seq!['/'] + joined_parts(p.1)
    } else {
        joined_parts(p.1)
    }
}

/// Whether a piece between separators is a component: not empty, not `.`.
pub open spec fn is_component(seg: Seq<char>) -> bool {
    seg.len() > 0 && seg != seq!['.']
}

/// The pieces that are components, in order.
pub open spec fn components_of(segs: Seq<Seq<char>>) -> Seq<Seq<char>>
    decreases segs.len(),
{
    if segs.len() == 0 {
        Seq::empty()
    } else {
        let rest = components_of(segs.drop_last());
        if is_component(segs.last()) {
            rest.push(segs.last())
        } else {
            rest
        }
    }
}

/// The path that a text names: absolute when it starts with `/`; its
/// components are the pieces between `/` that are neither empty nor `.`.
pub open spec fn parse_spec(s: Seq<char>) -> PathView {
    (s.len() > 0 && s[0] == '/', components_of(pieces(s, '/')))
}

/// A file name without its extension: the text before the last `.`, unless
/// that dot is the first character (a hidden file keeps its whole name).
pub open spec fn stem_spec(name: Seq<char>) -> Seq<char> {
    match last_of(name, '.') {
        Some(i) if i > 0 => name.subrange(0, i),
        _ => name,
    }
}

impl LocalPath {
    /// A path from its root flag and components.
    pub fn new(absolute: bool, parts: Vec<String>) -> (r: LocalPath)
        ensures
            r.absolute == absolute,
            r.parts@ == parts@,
    {
        LocalPath { absolute, parts }
    }

    /// The path that `text` names.
    pub fn parse(text: &str) -> (r: LocalPath)
        ensures
            r@ == parse_spec(text@),
    {
        let n = text.unicode_len();
        let ghost s = text@;
        let mut parts: Vec<String> = Vec::new();
        let mut start: usize = 0;
        let mut idx: usize = 0;
        let mut absolute = false;
        for c in it: text.chars()
            invariant
                n == s.len(),
                s == text@,
                it.seq() == s,
                idx == it.index(),
                start <= idx <= n,
                start > 0 ==> s[start - 1] == '/',
                forall|k: int| start <= k < idx ==> s[k] != '/',
                texts_view(parts@) == components_of(pieces_before(s, '/', start as int)),
                absolute == (idx > 0 && s[0] == '/'),
        {
            assert(c == s[idx as int]);
            if idx == 0 {
                absolute = c == '/';
            }
            if c == '/' {
                proof { lemma_pieces_step(s, '/', start as int, idx as int); }
                let seg = text.substring_char(start, idx);
                let ghost before = texts_view(parts@);
                let ghost segs = pieces_before(s, '/', start as int).push(seg@);
                assert(segs.drop_last() =~= pieces_before(s, '/', start as int));
                assert(pieces_before(s, '/', idx + 1) == segs);
                if !is_dot_or_empty(seg) {
                    parts.push(seg.to_owned());
                    assert(texts_view(parts@) =~= before.push(seg@));
                }
                assert(s.subrange(0, idx + 1 - 1) =~= s.subrange(0, idx as int));
                start = idx + 1;
            }
            idx = idx + 1;
        }
        proof { lemma_pieces_step(s, '/', start as int, n as int); }
        assert(s.subrange(0, n as int) =~= s);
        let seg = text.substring_char(start, n);
        let ghost before = texts_view(parts@);
        let ghost segs = pieces_before(s, '/', start as int).push(seg@);
        assert(segs.drop_last() =~= pieces_before(s, '/', start as int));
        assert(pieces(s, '/') == segs);
        if !is_dot_or_empty(seg) {
            parts.push(seg.to_owned());
            assert(texts_view(parts@) =~= before.push(seg@));
        }
        LocalPath { absolute, parts }
    }

    /// A copy of the path.
    pub fn duplicate(&self) -> (r: LocalPath)
        ensures
            r@ == self@,
    {
        let parts = clone_texts(&self.parts);
        LocalPath { absolute: self.absolute, parts }
    }

    /// Whether both paths have the same root flag and components.
    pub fn same_as(&self, other: &LocalPath) -> (r: bool)
        ensures
            r == (self@ == other@),
    {
        let r = self.parts.len() == other.parts.len() && self.starts_with(other);
        proof {
            if r {
                assert(texts_view(self.parts@).subrange(0, other.parts@.len() as int)
                    =~= texts_view(self.parts@));
            } else if self@ == other@ {
                assert(texts_view(self.parts@).len() == self.parts@.len());
                assert(texts_view(other.parts@).len() == other.parts@.len());
                assert(texts_view(self.parts@).subrange(0, other.parts@.len() as int)
                    =~= texts_view(self.parts@));
            }
        }
        r
    }

    /// `rel` taken relative to `self`; an absolute `rel` stands for itself.
    pub fn join(&self, rel: &LocalPath) -> (r: LocalPath)
        ensures
            r@ == join_spec(self@, rel@),
    {
        if rel.absolute {
            return rel.duplicate();
        }
        let mut parts = clone_texts(&self.parts);
        let mut extra = clone_texts(&rel.parts);
        let ghost before = parts@;
        parts.append(&mut extra);
        proof {
            assert(texts_view(parts@) =~= texts_view(self.parts@) + texts_view(rel.parts@));
        }
        LocalPath { absolute: self.absolute, parts }
    }

    /// The path with `name` appended as one more component.
    pub fn child(&self, name: &str) -> (r: LocalPath)
        ensures
            r@ == child_spec(self@, name@),
    {
        let mut parts = clone_texts(&self.parts);
        parts.push(name.to_owned());
        proof {
            assert(texts_view(parts@) =~= texts_view(self.parts@).push(name@));
        }
        LocalPath { absolute: self.absolute, parts }
    }

    /// The enclosing directory; `None` for a path without components.
    pub fn parent(&self) -> (r: Option<LocalPath>)
        ensures
            r matches Some(q) ==> parent_spec(self@) == Some(q@),
            r is None <==> parent_spec(self@) is None,
    {
        let n = self.parts.len();
        if n == 0 {
            return None;
        }
        let mut parts: Vec<String> = Vec::new();
        for i in 0..n - 1
            invariant
                n == self.parts@.len(),
                n > 0,
                parts@ == self.parts@.subrange(0, i as int),
        {
            parts.push(self.parts[i].clone());
            assert(parts@ =~= self.parts@.subrange(0, i + 1));
        }
        proof {
            assert(texts_view(parts@) =~= texts_view(self.parts@).drop_last());
        }
        Some(LocalPath { absolute: self.absolute, parts })
    }

    /// The last component; `None` for a path without components.
    pub fn file_name(&self) -> (r: Option<String>)
        ensures
            r matches Some(s) ==> file_name_spec(self@) == Some(s@),
            r is None <==> file_name_spec(self@) is None,
    {
        let n = self.parts.len();
        if n == 0 {
            None
        } else {
            Some(self.parts[n - 1].clone())
        }
    }

    /// Whether `self` lies at or below `base`, component by component.
    pub fn starts_with(&self, base: &LocalPath) -> (r: bool)
        ensures
            r == starts_with_spec(self@, base@),
    {
        if self.absolute != base.absolute {
            return false;
        }
        let n = base.parts.len();
        if n > self.parts.len() {
            return false;
        }
        for i in 0..n
            invariant
                n == base.parts@.len(),
                n <= self.parts@.len(),
                forall|j: int| 0 <= j < i ==> self.parts@[j]@ == base.parts@[j]@,
        {
            if self.parts[i] != base.parts[i] {
                assert(texts_view(self.parts@).subrange(0, n as int)[i as int]
                    != texts_view(base.parts@)[i as int]);
                return false;
            }
        }
        assert(texts_view(self.parts@).subrange(0, n as int) =~= texts_view(base.parts@));
        true
    }

    /// Whether the last component is `name`.
    pub fn ends_with(&self, name: &str) -> (r: bool)
        ensures
            r == ends_with_spec(self@, name@),
    {
        let n = self.parts.len();
        if n == 0 {
            return false;
        }
        let expected = name.to_owned();
        self.parts[n - 1] == expected
    }

    /// The path written out with `/` between components.
    pub fn to_text(&self) -> (r: String)
        ensures
            r@ == render_spec(self@),
    {
        let n = self.parts.len();
        let mut body = String::new();
        for i in 0..n
            invariant
                n == self.parts@.len(),
                body@ == joined_parts(texts_view(self.parts@).subrange(0, i as int)),
        {
            let ghost prev = texts_view(self.parts@).subrange(0, i as int);
            let ghost next = texts_view(self.parts@).subrange(0, i + 1);
            assert(next.drop_last() =~= prev);
            if i > 0 {
                body.append("/");
                proof { reveal_strlit("/"); }
            }
            body.append(self.parts[i].as_str());
            proof {
                if i == 0 {
                    assert(body@ =~= next[0]);
                } else {
                    assert(body@ =~= joined_parts(prev) + seq!['/'] + next.last());
                }
            }
        }
        assert(texts_view(self.parts@).subrange(0, n as int) =~= texts_view(self.parts@));
        if self.absolute {
            let mut r = String::from_str("/");
            proof { reveal_strlit("/"); }
            r.append(body.as_str());
            r
        } else {
            body
        }
    }
}

/// The file name without its extension.
pub fn file_stem(name: &str) -> (r: String)
    ensures
        r@ == stem_spec(name@),
{
    let n = name.unicode_len();
    let mut i: usize = n;
    assert(name@.subrange(0, n as int) =~= name@);
    while i > 0
        invariant
            i <= n,
            n == name@.len(),
            last_of(name@, '.') == last_of(name@.subrange(0, i as int), '.'),
        decreases i,
    {
        let ghost sub = name@.subrange(0, i as int);
        if name.get_char(i - 1) == '.' {
            assert(sub.last() == '.');
            if i - 1 > 0 {
                return name.substring_char(0, i - 1).to_owned();
            } else {
                return name.to_owned();
            }
        }
        assert(sub.drop_last() =~= name@.subrange(0, i - 1));
        i = i - 1;
    }
    assert(name@.subrange(0, 0) =~= Seq::<char>::empty());
    name.to_owned()
}

/// Whether a piece between separators is empty or `.`.
fn is_dot_or_empty(seg: &str) -> (r: bool)
    ensures
        r == !is_component(seg@),
{
    let n = seg.unicode_len();
    if n == 0 {
        return true;
    }
    if n == 1 && seg.get_char(0) == '.' {
        assert(seg@ =~= seq!['.']);
        return true;
    }
    false
}

/// Whether a file name begins with `prefix`.
pub fn name_has_prefix(name: &str, prefix: &str) -> (r: bool)
    ensures
        r == (prefix@.len() <= name@.len() && name@.subrange(0, prefix@.len() as int) == prefix@),
{
    text_starts_with(name, prefix)
}

} // verus!
