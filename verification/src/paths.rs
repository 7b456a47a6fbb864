//! Paths ordered by their components, as `std::path::Path` orders them on
//! Unix, and the choice of the zsh line-editor module among the paths that
//! discovery found.
use crate::text::chars_of;
use vstd::prelude::*;

verus! {

/// The pieces of `s` between `/` separators, empty ones included, as
/// `str::split('/')` gives them.
pub open spec fn slash_pieces(s: Seq<char>) -> Seq<Seq<char>>
    decreases s.len(),
{
    if s.len() == 0 {
        seq![Seq::<char>::empty()]
    } else {
        let rest = slash_pieces(s.drop_last());
        if s.last() == '/' {
            rest.push(Seq::<char>::empty())
        } else {
            rest.update(rest.len() - 1, rest.last().push(s.last()))
        }
    }
}

/// A path component: its kind (1 the root directory, 2 the current
/// directory, 3 the parent directory, 4 a name, which is the order of
/// `std::path::Component`'s variants) and, for a name, its text.
pub type ComponentView = (u8, Seq<char>);

/// The components one piece contributes: none for an empty piece, and none
/// for `.` unless it begins a relative path.
pub open spec fn piece_component(p: Seq<char>, first: bool) -> Seq<ComponentView> {
    if p.len() == 0 {
        Seq::empty()
    } else if p == seq!['.'] {
        if first {
            seq![(2u8, Seq::<char>::empty())]
        } else {
            Seq::empty()
        }
    } else if p == seq!['.', '.'] {
        seq![(3u8, Seq::<char>::empty())]
    } else {
        seq![(4u8, p)]
    }
}

/// The components of a run of pieces that does not begin the path.
pub open spec fn pieces_components(ps: Seq<Seq<char>>) -> Seq<ComponentView>
    decreases ps.len(),
{
    if ps.len() == 0 {
        Seq::empty()
    } else {
        pieces_components(ps.drop_last()) + piece_component(ps.last(), false)
    }
}

/// `Path::components` on Unix: a root directory for a leading `/`, then the
/// pieces between separators, with empty pieces (repeated and trailing
/// separators) and `.` pieces dropped, except a `.` that begins a relative
/// path.
pub open spec fn path_components(s: Seq<char>) -> Seq<ComponentView> {
    let ps = slash_pieces(s);
    if s.len() > 0 && s[0] == '/' {
        seq![(1u8, Seq::<char>::empty())] + pieces_components(ps)
    } else {
        piece_component(ps[0], true) + pieces_components(ps.drop_first())
    }
}

/// Text order by character code, which is the byte order of the UTF-8
/// encoding.
pub open spec fn text_less(x: Seq<char>, y: Seq<char>) -> bool
    decreases x.len(),
{
    if x.len() == 0 {
        y.len() > 0
    } else if y.len() == 0 {
        false
    } else if x[0] != y[0] {
        (x[0] as u32) < (y[0] as u32)
    } else {
        text_less(x.drop_first(), y.drop_first())
    }
}

/// The order of components: by kind, then names by text.
pub open spec fn component_less(a: ComponentView, b: ComponentView) -> bool {
    a.0 < b.0 || (a.0 == b.0 && text_less(a.1, b.1))
}

/// The lexicographic order of component lists.
pub open spec fn components_less(x: Seq<ComponentView>, y: Seq<ComponentView>) -> bool
    decreases x.len(),
{
    if x.len() == 0 {
        y.len() > 0
    } else if y.len() == 0 {
        false
    } else if x[0] != y[0] {
        component_less(x[0], y[0])
    } else {
        components_less(x.drop_first(), y.drop_first())
    }
}

/// The order of paths: by their components.
pub open spec fn path_less(x: Seq<char>, y: Seq<char>) -> bool {
    components_less(path_components(x), path_components(y))
}

/// `k` is the path that sorting `ps` stably and taking the last one gives:
/// no path is greater, and every later path is smaller.
pub open spec fn last_greatest(ps: Seq<Seq<char>>, k: int) -> bool {
    &&& 0 <= k < ps.len()
    &&& forall|i: int| 0 <= i < ps.len() ==> !path_less(#[trigger] ps[k], ps[i])
    &&& forall|i: int| k < i < ps.len() ==> path_less(#[trigger] ps[i], ps[k])
}

proof fn lemma_text_less_irrefl(x: Seq<char>)
    ensures
        !text_less(x, x),
    decreases x.len(),
{
    if x.len() > 0 {
        lemma_text_less_irrefl(x.drop_first());
    }
}

proof fn lemma_text_less_total(x: Seq<char>, y: Seq<char>)
    ensures
        x == y || text_less(x, y) || text_less(y, x),
    decreases x.len(),
{
    if x.len() > 0 && y.len() > 0 {
        if x[0] == y[0] {
            lemma_text_less_total(x.drop_first(), y.drop_first());
            if x.drop_first() == y.drop_first() {
                assert(x =~= seq![x[0]] + x.drop_first());
                assert(y =~= seq![y[0]] + y.drop_first());
            }
        } else {
            vstd::utf8::char_u32_cast(x[0], x[0] as u32);
            vstd::utf8::char_u32_cast(y[0], y[0] as u32);
        }
    } else if x.len() == 0 && y.len() == 0 {
        assert(x =~= y);
    }
}

proof fn lemma_text_less_asym(x: Seq<char>, y: Seq<char>)
    ensures
        text_less(x, y) ==> !text_less(y, x),
    decreases x.len(),
{
    if x.len() > 0 && y.len() > 0 && x[0] == y[0] {
        lemma_text_less_asym(x.drop_first(), y.drop_first());
    }
}

proof fn lemma_text_less_split(x: Seq<char>, y: Seq<char>, z: Seq<char>)
    ensures
        text_less(x, z) ==> text_less(x, y) || text_less(y, z),
    decreases x.len(),
{
    if x.len() > 0 && y.len() > 0 && z.len() > 0 {
        vstd::utf8::char_u32_cast(x[0], x[0] as u32);
        vstd::utf8::char_u32_cast(y[0], y[0] as u32);
        vstd::utf8::char_u32_cast(z[0], z[0] as u32);
        if x[0] == y[0] && y[0] == z[0] {
            lemma_text_less_split(x.drop_first(), y.drop_first(), z.drop_first());
        }
    }
}

proof fn lemma_component_less(a: ComponentView, b: ComponentView, c: ComponentView)
    ensures
        !component_less(a, a),
        a == b || component_less(a, b) || component_less(b, a),
        component_less(a, b) ==> !component_less(b, a),
        component_less(a, c) ==> component_less(a, b) || component_less(b, c),
{
    lemma_text_less_irrefl(a.1);
    lemma_text_less_total(a.1, b.1);
    lemma_text_less_asym(a.1, b.1);
    lemma_text_less_split(a.1, b.1, c.1);
}

proof fn lemma_components_less_asym(x: Seq<ComponentView>, y: Seq<ComponentView>)
    ensures
        components_less(x, y) ==> !components_less(y, x),
    decreases x.len(),
{
    if x.len() > 0 && y.len() > 0 {
        lemma_component_less(x[0], y[0], y[0]);
        if x[0] == y[0] {
            lemma_components_less_asym(x.drop_first(), y.drop_first());
        }
    }
}

proof fn lemma_components_less_split(
    x: Seq<ComponentView>,
    y: Seq<ComponentView>,
    z: Seq<ComponentView>,
)
    ensures
        components_less(x, z) ==> components_less(x, y) || components_less(y, z),
    decreases x.len(),
{
    if x.len() > 0 && y.len() > 0 && z.len() > 0 {
        let (a, b, c) = (x[0], y[0], z[0]);
        lemma_component_less(a, b, c);
        lemma_component_less(b, a, c);
        lemma_component_less(c, a, b);
        if a == b && b == c {
            lemma_components_less_split(x.drop_first(), y.drop_first(), z.drop_first());
        }
    }
}

/// No path comes before itself.
pub proof fn lemma_path_less_irrefl(x: Seq<char>)
    ensures
        !path_less(x, x),
{
    lemma_components_less_asym(path_components(x), path_components(x));
}

/// Of two paths at most one comes before the other.
pub proof fn lemma_path_less_asym(x: Seq<char>, y: Seq<char>)
    ensures
        path_less(x, y) ==> !path_less(y, x),
{
    lemma_components_less_asym(path_components(x), path_components(y));
}

/// If `x` comes before `z`, any `y` comes after `x` or before `z`.
pub proof fn lemma_path_less_split(x: Seq<char>, y: Seq<char>, z: Seq<char>)
    ensures
        path_less(x, z) ==> path_less(x, y) || path_less(y, z),
{
    lemma_components_less_split(path_components(x), path_components(y), path_components(z));
}

/// A component as computed: its kind and its text.
pub open spec fn component_view(c: (u8, Vec<char>)) -> ComponentView {
    (c.0, c.1@)
}

/// The view of a computed component list.
pub open spec fn components_view(v: Seq<(u8, Vec<char>)>) -> Seq<ComponentView> {
    v.map_values(|c: (u8, Vec<char>)| component_view(c))
}

proof fn lemma_slash_pieces_len(s: Seq<char>)
    ensures
        slash_pieces(s).len() >= 1,
    decreases s.len(),
{
    if s.len() > 0 {
        lemma_slash_pieces_len(s.drop_last());
    }
}

/// `slash_pieces(s)`, computed.
fn split_slashes(s: &Vec<char>) -> (r: Vec<Vec<char>>)
    ensures
        r@.len() == slash_pieces(s@).len(),
        forall|k: int| 0 <= k < r@.len() ==> (#[trigger] r@[k])@ == slash_pieces(s@)[k],
{
    let mut pieces: Vec<Vec<char>> = Vec::new();
    pieces.push(Vec::new());
    assert(s@.take(0) =~= Seq::<char>::empty());
    let mut i: usize = 0;
    while i < s.len()
        invariant
            i <= s.len(),
            pieces@.len() == slash_pieces(s@.take(i as int)).len(),
            forall|k: int|
                0 <= k < pieces@.len() ==> (#[trigger] pieces@[k])@ == slash_pieces(
                    s@.take(i as int),
                )[k],
        decreases s.len() - i,
    {
        proof {
            lemma_slash_pieces_len(s@.take(i as int));
            assert(s@.take(i + 1).drop_last() =~= s@.take(i as int));
        }
        let c = s[i];
        if c == '/' {
            pieces.push(Vec::new());
        } else {
            let ghost before = pieces@;
            let mut last = pieces.pop().unwrap();
            last.push(c);
            pieces.push(last);
            proof {
                assert forall|k: int| 0 <= k < pieces@.len() implies (#[trigger] pieces@[k])@
                    == slash_pieces(s@.take(i + 1))[k] by {
                    if k < pieces@.len() - 1 {
                        assert(pieces@[k] == before[k]);
                    }
                }
            }
        }
        i += 1;
    }
    assert(s@.take(s.len() as int) =~= s@);
    pieces
}

/// Whether `p` is the text `.`.
fn is_dot(p: &Vec<char>) -> (b: bool)
    ensures
        b == (p@ == seq!['.']),
{
    let b = p.len() == 1 && p[0] == '.';
    proof {
        if p@.len() == 1 && p@[0] == '.' {
            assert(p@ =~= seq!['.']);
        }
    }
    b
}

/// Whether `p` is the text `..`.
fn is_dot_dot(p: &Vec<char>) -> (b: bool)
    ensures
        b == (p@ == seq!['.', '.']),
{
    let b = p.len() == 2 && p[0] == '.' && p[1] == '.';
    proof {
        if p@.len() == 2 && p@[0] == '.' && p@[1] == '.' {
            assert(p@ =~= seq!['.', '.']);
        }
    }
    b
}

/// Appends the components of piece `p` to `out`.
fn push_piece(out: &mut Vec<(u8, Vec<char>)>, p: &Vec<char>, first: bool)
    ensures
        components_view(final(out)@) == components_view(old(out)@) + piece_component(p@, first),
{
    let ghost before = out@;
    if p.len() == 0 {
    } else if is_dot(p) {
        if first {
            out.push((2u8, Vec::new()));
        }
    } else if is_dot_dot(p) {
        out.push((3u8, Vec::new()));
    } else {
        out.push((4u8, p.clone()));
    }
    assert(components_view(out@) =~= components_view(before) + piece_component(p@, first));
}

/// `path_components(s)`, computed.
fn components_of(s: &Vec<char>) -> (r: Vec<(u8, Vec<char>)>)
    ensures
        components_view(r@) == path_components(s@),
{
    let pieces = split_slashes(s);
    let ghost ps = slash_pieces(s@);
    proof {
        lemma_slash_pieces_len(s@);
    }
    let mut out: Vec<(u8, Vec<char>)> = Vec::new();
    let absolute = s.len() > 0 && s[0] == '/';
    let start: usize;
    if absolute {
        out.push((1u8, Vec::new()));
        start = 0;
    } else {
        push_piece(&mut out, &pieces[0], true);
        start = 1;
    }
    let ghost head = components_view(out@);
    assert(ps.subrange(start as int, start as int) =~= Seq::<Seq<char>>::empty());
    let mut k: usize = start;
    while k < pieces.len()
        invariant
            start <= k <= pieces@.len() == ps.len(),
            forall|j: int| 0 <= j < pieces@.len() ==> (#[trigger] pieces@[j])@ == ps[j],
            components_view(out@) == head + pieces_components(ps.subrange(start as int, k as int)),
        decreases pieces.len() - k,
    {
        push_piece(&mut out, &pieces[k], false);
        proof {
            let sub = ps.subrange(start as int, k + 1);
            assert(sub.drop_last() =~= ps.subrange(start as int, k as int));
            assert(sub.last() == pieces@[k as int]@);
        }
        k += 1;
    }
    proof {
        if absolute {
            assert(ps.subrange(0, ps.len() as int) =~= ps);
            assert(head =~= seq![(1u8, Seq::<char>::empty())]);
        } else {
            assert(ps.subrange(1, ps.len() as int) =~= ps.drop_first());
            assert(head =~= piece_component(ps[0], true));
        }
    }
    out
}

/// `text_less(x, y)`, computed.
fn text_less_exec(x: &Vec<char>, y: &Vec<char>) -> (r: bool)
    ensures
        r == text_less(x@, y@),
{
    let mut i: usize = 0;
    assert(x@.skip(0) =~= x@);
    assert(y@.skip(0) =~= y@);
    while i < x.len() && i < y.len() && x[i] == y[i]
        invariant
            i <= x.len(),
            i <= y.len(),
            text_less(x@, y@) == text_less(x@.skip(i as int), y@.skip(i as int)),
        decreases x.len() - i,
    {
        assert(x@.skip(i as int).drop_first() =~= x@.skip(i + 1));
        assert(y@.skip(i as int).drop_first() =~= y@.skip(i + 1));
        i += 1;
    }
    if i == x.len() {
        i < y.len()
    } else if i == y.len() {
        false
    } else {
        (x[i] as u32) < (y[i] as u32)
    }
}

/// `component_less(a, b)`, computed.
fn component_less_exec(a: &(u8, Vec<char>), b: &(u8, Vec<char>)) -> (r: bool)
    ensures
        r == component_less(component_view(*a), component_view(*b)),
{
    a.0 < b.0 || (a.0 == b.0 && text_less_exec(&a.1, &b.1))
}

/// `components_less(x, y)`, computed.
fn components_less_exec(x: &Vec<(u8, Vec<char>)>, y: &Vec<(u8, Vec<char>)>) -> (r: bool)
    ensures
        r == components_less(components_view(x@), components_view(y@)),
{
    let ghost xv = components_view(x@);
    let ghost yv = components_view(y@);
    assert(xv.skip(0) =~= xv);
    assert(yv.skip(0) =~= yv);
    let mut i: usize = 0;
    while i < x.len() && i < y.len()
        invariant
            i <= x.len(),
            i <= y.len(),
            xv == components_view(x@),
            yv == components_view(y@),
            components_less(xv, yv) == components_less(xv.skip(i as int), yv.skip(i as int)),
        decreases x.len() - i,
    {
        let ab = component_less_exec(&x[i], &y[i]);
        let ba = component_less_exec(&y[i], &x[i]);
        proof {
            lemma_component_less(xv[i as int], yv[i as int], yv[i as int]);
            assert(xv.skip(i as int)[0] == xv[i as int]);
            assert(yv.skip(i as int)[0] == yv[i as int]);
        }
        if ab || ba {
            return ab;
        }
        assert(xv.skip(i as int).drop_first() =~= xv.skip(i + 1));
        assert(yv.skip(i as int).drop_first() =~= yv.skip(i + 1));
        i += 1;
    }
    i < y.len()
}

/// `path_less(x, y)`, computed.
pub fn path_less_exec(x: &str, y: &str) -> (r: bool)
    ensures
        r == path_less(x@, y@),
{
    let xc = components_of(&chars_of(x));
    let yc = components_of(&chars_of(y));
    components_less_exec(&xc, &yc)
}

/// The texts of a list of strings.
pub open spec fn texts(v: Seq<String>) -> Seq<Seq<char>> {
    v.map_values(|s: String| s@)
}

/// The path that sorting `paths` (by components, stably) and taking the
/// last one gives, or `None` when there is none.
pub fn greatest_path(paths: &Vec<String>) -> (r: Option<String>)
    ensures
        match r {
            None => paths@.len() == 0,
            Some(p) => exists|k: int| last_greatest(texts(paths@), k) && p@ == paths@[k]@,
        },
{
    if paths.len() == 0 {
        return None;
    }
    let ghost ps = texts(paths@);
    let mut best: usize = 0;
    let mut i: usize = 1;
    proof {
        lemma_path_less_irrefl(ps[0]);
    }
    while i < paths.len()
        invariant
            1 <= i <= paths@.len(),
            best < i,
            ps == texts(paths@),
            forall|j: int| 0 <= j < i ==> !path_less(#[trigger] ps[best as int], ps[j]),
            forall|j: int| best < j < i ==> path_less(#[trigger] ps[j], ps[best as int]),
        decreases paths.len() - i,
    {
        let smaller = path_less_exec(paths[i].as_str(), paths[best].as_str());
        proof {
            assert(ps[i as int] == paths@[i as int]@);
            assert(ps[best as int] == paths@[best as int]@);
        }
        if !smaller {
            proof {
                lemma_path_less_irrefl(ps[i as int]);
                assert forall|j: int| 0 <= j < i + 1 implies !path_less(
                    #[trigger] ps[i as int],
                    ps[j],
                ) by {
                    if j < i {
                        lemma_path_less_split(ps[i as int], ps[best as int], ps[j]);
                    }
                }
            }
            best = i;
        } else {
            proof {
                lemma_path_less_asym(ps[i as int], ps[best as int]);
            }
        }
        i += 1;
    }
    proof {
        assert(last_greatest(ps, best as int));
    }
    Some(paths[best].clone())
}

/// The index of the first non-empty list of `lists`, if there is one.
pub open spec fn first_nonempty(lists: Seq<Vec<String>>, j: int) -> bool {
    &&& 0 <= j < lists.len()
    &&& lists[j]@.len() > 0
    &&& forall|i: int| 0 <= i < j ==> (#[trigger] lists[i])@.len() == 0
}

/// The zsh line-editor module to trace, given the paths that each search
/// pattern matched, in pattern order: the greatest path of the first
/// pattern that matched any, or `None` when none matched.
pub fn choose_zle_module(matches_per_pattern: &Vec<Vec<String>>) -> (r: Option<String>)
    ensures
        match r {
            None => forall|i: int|
                0 <= i < matches_per_pattern@.len() ==> (#[trigger] matches_per_pattern@[i])@.len()
                    == 0,
            Some(p) => exists|j: int, k: int|
                first_nonempty(matches_per_pattern@, j) && last_greatest(
                    texts(matches_per_pattern@[j]@),
                    k,
                ) && p@ == matches_per_pattern@[j]@[k]@,
        },
{
    let mut i: usize = 0;
    while i < matches_per_pattern.len()
        invariant
            i <= matches_per_pattern@.len(),
            forall|j: int| 0 <= j < i ==> (#[trigger] matches_per_pattern@[j])@.len() == 0,
        decreases matches_per_pattern.len() - i,
    {
        let found = greatest_path(&matches_per_pattern[i]);
        match found {
            Some(p) => {
                assert(first_nonempty(matches_per_pattern@, i as int));
                return Some(p);
            },
            None => {},
        }
        i += 1;
    }
    None
}

} // verus!
