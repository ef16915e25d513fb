//! Unix paths as the library sees them: strings read component by component,
//! as `std::path::Path` reads them. Comparison, prefixes and names are all
//! defined over the components, never over the raw characters.
use vstd::prelude::*;
use crate::text::{chars_eq, chars_of, split_at_char, split_char, lemma_split_by_nonempty, Sep};

verus! {

/// One component of a path.
pub ghost enum Comp {
    /// The leading `/` of an absolute path.
    Root,
    /// A leading `.` of a relative path.
    Cur,
    /// `..`.
    Parent,
    /// Any other name.
    Normal(Seq<char>),
}

/// A component of a path, in executable form.
pub enum Component {
    Root,
    Cur,
    Parent,
    Normal(Vec<char>),
}

impl View for Component {
    type V = Comp;

    open spec fn view(&self) -> Comp {
        match self {
            Component::Root => Comp::Root,
            Component::Cur => Comp::Cur,
            Component::Parent => Comp::Parent,
            Component::Normal(v) => Comp::Normal(v@),
        }
    }
}

/// The view of each component of `v`.
pub open spec fn comps_view(v: Seq<Component>) -> Seq<Comp> {
    v.map_values(|c: Component| c@)
}

/// `.`
pub open spec fn dot() -> Seq<char> {
    seq!['.']
}

/// `..`
pub open spec fn dot_dot() -> Seq<char> {
    seq!['.', '.']
}

/// A piece between separators that names something.
pub open spec fn is_named(p: Seq<char>) -> bool {
    p.len() > 0 && p != dot()
}

/// The component a named piece stands for.
pub open spec fn comp_of(p: Seq<char>) -> Comp {
    if p == dot_dot() {
        Comp::Parent
    } else {
        Comp::Normal(p)
    }
}

/// The components of the pieces `ps`: empty pieces and `.` are dropped.
pub open spec fn named_comps(ps: Seq<Seq<char>>) -> Seq<Comp>
    decreases ps.len(),
{
    if ps.len() == 0 {
        Seq::empty()
    } else if is_named(ps.last()) {
        named_comps(ps.drop_last()).push(comp_of(ps.last()))
    } else {
        named_comps(ps.drop_last())
    }
}

/// Whether a path is absolute.
pub open spec fn is_absolute(s: Seq<char>) -> bool {
    s.len() > 0 && s[0] == '/'
}

/// The components of a path (`Path::components`): the root of an absolute
/// path, a leading `.` of a relative path, then every named piece between
/// `/` separators, `..` as a parent step.
pub open spec fn components(s: Seq<char>) -> Seq<Comp> {
    let pieces = split_at_char(s, '/');
    if is_absolute(s) {
        seq![Comp::Root] + named_comps(pieces.drop_first())
    } else if pieces[0] == dot() {
        seq![Comp::Cur] + named_comps(pieces.drop_first())
    } else {
        named_comps(pieces)
    }
}

/// Two paths are equal (`Path == Path`).
pub open spec fn path_eq(a: Seq<char>, b: Seq<char>) -> bool {
    components(a) == components(b)
}

/// `Path::starts_with`: the components of `base` begin the components of `p`.
pub open spec fn path_starts_with(p: Seq<char>, base: Seq<char>) -> bool {
    components(base).is_prefix_of(components(p))
}

/// `Path::ends_with`: the components of `tail` end the components of `p`.
pub open spec fn path_ends_with(p: Seq<char>, tail: Seq<char>) -> bool {
    components(tail).is_suffix_of(components(p))
}

/// `Path::file_name`: the last component, when it is a name.
pub open spec fn file_name(p: Seq<char>) -> Option<Seq<char>> {
    let c = components(p);
    if c.len() > 0 && c.last() is Normal {
        Some(c.last()->Normal_0)
    } else {
        None
    }
}

/// `Path::parent` compared with `q`: `p` has a last component that is not
/// the root, and the components before it are those of `q`.
pub open spec fn parent_is(p: Seq<char>, q: Seq<char>) -> bool {
    let c = components(p);
    c.len() > 0 && !(c.last() is Root) && c.drop_last() == components(q)
}

/// `Path::extension`: what follows the last `.` of the file name, when that
/// `.` is not its first character.
pub open spec fn extension(p: Seq<char>) -> Option<Seq<char>> {
    match file_name(p) {
        Some(name) => match last_dot(name) {
            Some(i) => if i > 0 {
                Some(name.skip(i + 1))
            } else {
                None
            },
            None => None,
        },
        None => None,
    }
}

/// The index of the last `.` in `s`.
pub open spec fn last_dot(s: Seq<char>) -> Option<int>
    decreases s.len(),
{
    if s.len() == 0 {
        None
    } else if s.last() == '.' {
        Some(s.len() - 1)
    } else {
        last_dot(s.drop_last())
    }
}

// ---------------------------------------------------------------------------
// Order
// ---------------------------------------------------------------------------

/// Code-point (equivalently UTF-8 byte) lexicographic order: `a < b`.
pub open spec fn lex_lt(a: Seq<char>, b: Seq<char>) -> bool
    decreases a.len(),
{
    if a.len() == 0 {
        b.len() > 0
    } else if b.len() == 0 {
        false
    } else if a[0] != b[0] {
        (a[0] as int) < (b[0] as int)
    } else {
        lex_lt(a.drop_first(), b.drop_first())
    }
}

/// The rank of a component kind in `std::path::Component`'s order.
pub open spec fn comp_rank(c: Comp) -> int {
    match c {
        Comp::Root => 1,
        Comp::Cur => 2,
        Comp::Parent => 3,
        Comp::Normal(_) => 4,
    }
}

/// `x < y` for components.
pub open spec fn comp_lt(x: Comp, y: Comp) -> bool {
    if comp_rank(x) != comp_rank(y) {
        comp_rank(x) < comp_rank(y)
    } else {
        match (x, y) {
            (Comp::Normal(a), Comp::Normal(b)) => lex_lt(a, b),
            _ => false,
        }
    }
}

/// Lexicographic order of component sequences.
pub open spec fn comps_lt(a: Seq<Comp>, b: Seq<Comp>) -> bool
    decreases a.len(),
{
    if a.len() == 0 {
        b.len() > 0
    } else if b.len() == 0 {
        false
    } else if a[0] != b[0] {
        comp_lt(a[0], b[0])
    } else {
        comps_lt(a.drop_first(), b.drop_first())
    }
}

/// `a < b` as paths (`Path::cmp`).
pub open spec fn path_lt(a: Seq<char>, b: Seq<char>) -> bool {
    comps_lt(components(a), components(b))
}

pub proof fn lemma_lex_lt_irreflexive(a: Seq<char>)
    ensures
        !lex_lt(a, a),
    decreases a.len(),
{
    if a.len() > 0 {
        lemma_lex_lt_irreflexive(a.drop_first());
    }
}

pub proof fn lemma_lex_lt_trans(a: Seq<char>, b: Seq<char>, c: Seq<char>)
    requires
        lex_lt(a, b),
        lex_lt(b, c),
    ensures
        lex_lt(a, c),
    decreases a.len(),
{
    if a.len() > 0 && b.len() > 0 && c.len() > 0 {
        if a[0] == b[0] && b[0] == c[0] {
            lemma_lex_lt_trans(a.drop_first(), b.drop_first(), c.drop_first());
        }
    }
}

pub proof fn lemma_lex_lt_total(a: Seq<char>, b: Seq<char>)
    ensures
        a == b || lex_lt(a, b) || lex_lt(b, a),
    decreases a.len(),
{
    if a.len() > 0 && b.len() > 0 && a[0] == b[0] {
        lemma_lex_lt_total(a.drop_first(), b.drop_first());
        if a.drop_first() == b.drop_first() {
            assert(a =~= seq![a[0]] + a.drop_first());
            assert(b =~= seq![b[0]] + b.drop_first());
        }
    } else if a.len() == 0 && b.len() == 0 {
        assert(a =~= b);
    } else if a.len() > 0 && b.len() > 0 {
        assert((a[0] as int) != (b[0] as int));
    }
}

pub proof fn lemma_lex_lt_asym(a: Seq<char>, b: Seq<char>)
    requires
        lex_lt(a, b),
    ensures
        !lex_lt(b, a),
{
    if lex_lt(b, a) {
        lemma_lex_lt_trans(a, b, a);
        lemma_lex_lt_irreflexive(a);
    }
}

pub proof fn lemma_comp_lt_irreflexive(x: Comp)
    ensures
        !comp_lt(x, x),
{
    if let Comp::Normal(a) = x {
        lemma_lex_lt_irreflexive(a);
    }
}

pub proof fn lemma_comp_lt_trans(x: Comp, y: Comp, z: Comp)
    requires
        comp_lt(x, y),
        comp_lt(y, z),
    ensures
        comp_lt(x, z),
{
    if let (Comp::Normal(a), Comp::Normal(b), Comp::Normal(c)) = (x, y, z) {
        lemma_lex_lt_trans(a, b, c);
    }
}

pub proof fn lemma_comp_lt_total(x: Comp, y: Comp)
    ensures
        x == y || comp_lt(x, y) || comp_lt(y, x),
{
    if let (Comp::Normal(a), Comp::Normal(b)) = (x, y) {
        lemma_lex_lt_total(a, b);
    }
}

pub proof fn lemma_comps_lt_irreflexive(a: Seq<Comp>)
    ensures
        !comps_lt(a, a),
    decreases a.len(),
{
    if a.len() > 0 {
        lemma_comps_lt_irreflexive(a.drop_first());
    }
}

pub proof fn lemma_comps_lt_trans(a: Seq<Comp>, b: Seq<Comp>, c: Seq<Comp>)
    requires
        comps_lt(a, b),
        comps_lt(b, c),
    ensures
        comps_lt(a, c),
    decreases a.len(),
{
    if a.len() > 0 && b.len() > 0 && c.len() > 0 {
        if a[0] == b[0] && b[0] == c[0] {
            lemma_comps_lt_trans(a.drop_first(), b.drop_first(), c.drop_first());
        } else if a[0] == b[0] {
        } else if b[0] == c[0] {
        } else {
            lemma_comp_lt_trans(a[0], b[0], c[0]);
            if a[0] == c[0] {
                lemma_comp_lt_irreflexive(a[0]);
                lemma_comp_lt_trans(a[0], b[0], a[0]);
            }
        }
    }
}

pub proof fn lemma_comps_lt_total(a: Seq<Comp>, b: Seq<Comp>)
    ensures
        a == b || comps_lt(a, b) || comps_lt(b, a),
    decreases a.len(),
{
    if a.len() > 0 && b.len() > 0 && a[0] == b[0] {
        lemma_comps_lt_total(a.drop_first(), b.drop_first());
        if a.drop_first() == b.drop_first() {
            assert(a =~= seq![a[0]] + a.drop_first());
            assert(b =~= seq![b[0]] + b.drop_first());
        }
    } else if a.len() == 0 && b.len() == 0 {
        assert(a =~= b);
    } else if a.len() > 0 && b.len() > 0 {
        lemma_comp_lt_total(a[0], b[0]);
    }
}

pub proof fn lemma_comps_lt_asym(a: Seq<Comp>, b: Seq<Comp>)
    requires
        comps_lt(a, b),
    ensures
        !comps_lt(b, a),
{
    if comps_lt(b, a) {
        lemma_comps_lt_trans(a, b, a);
        lemma_comps_lt_irreflexive(a);
    }
}

// ---------------------------------------------------------------------------
// Executable component operations
// ---------------------------------------------------------------------------

proof fn lemma_named_comps_push(ps: Seq<Seq<char>>, p: Seq<char>)
    ensures
        named_comps(ps.push(p)) == (if is_named(p) {
            named_comps(ps).push(comp_of(p))
        } else {
            named_comps(ps)
        }),
{
    assert(ps.push(p).drop_last() =~= ps);
}

/// The components of the pieces `pieces[from..]`.
fn named_components(pieces: &Vec<Vec<char>>, from: usize) -> (res: Vec<Component>)
    requires
        from <= pieces@.len(),
    ensures
        comps_view(res@) == named_comps(pieces@.skip(from as int).map_values(|v: Vec<char>| v@)),
{
    let ghost views = pieces@.skip(from as int).map_values(|v: Vec<char>| v@);
    let mut res: Vec<Component> = Vec::new();
    let mut i: usize = from;
    while i < pieces.len()
        invariant
            from <= i <= pieces@.len(),
            views == pieces@.skip(from as int).map_values(|v: Vec<char>| v@),
            comps_view(res@) == named_comps(views.take(i - from)),
        decreases pieces@.len() - i,
    {
        let p = &pieces[i];
        let ghost before = views.take(i - from);
        proof {
            assert(views.take(i - from + 1) =~= before.push(p@));
            lemma_named_comps_push(before, p@);
        }
        let is_dot = p.len() == 1 && p[0] == '.';
        proof {
            if p@ == dot() {
                assert(p@.len() == 1 && p@[0] == '.');
            }
            if p@.len() == 1 && p@[0] == '.' {
                assert(p@ =~= dot());
            }
        }
        if p.len() > 0 && !is_dot {
            let is_dot_dot = p.len() == 2 && p[0] == '.' && p[1] == '.';
            proof {
                if p@ == dot_dot() {
                    assert(p@.len() == 2 && p@[0] == '.' && p@[1] == '.');
                }
                if is_dot_dot {
                    assert(p@ =~= dot_dot());
                }
            }
            let c = if is_dot_dot {
                Component::Parent
            } else {
                Component::Normal(p.clone())
            };
            let ghost prev = res@;
            let ghost cv = c@;
            res.push(c);
            proof {
                assert(comps_view(res@) =~= comps_view(prev).push(cv));
            }
        }
        i = i + 1;
    }
    assert(views.take(i - from) =~= views);
    res
}

/// The components of the path `s`.
pub fn path_components(s: &Vec<char>) -> (res: Vec<Component>)
    ensures
        comps_view(res@) == components(s@),
{
    let pieces = split_char(s, '/');
    let ghost pv = split_at_char(s@, '/');
    proof {
        lemma_split_by_nonempty(s@, Sep::Char('/'));
        assert(pieces@.map_values(|v: Vec<char>| v@) =~= pv);
        assert(pieces@.skip(1).map_values(|v: Vec<char>| v@) =~= pv.drop_first());
        assert(pieces@.skip(0).map_values(|v: Vec<char>| v@) =~= pv);
    }
    if s.len() > 0 && s[0] == '/' {
        let rest = named_components(&pieces, 1);
        let mut res: Vec<Component> = Vec::new();
        res.push(Component::Root);
        let mut i: usize = 0;
        let ghost r0 = res@;
        while i < rest.len()
            invariant
                i <= rest@.len(),
                comps_view(res@) == seq![Comp::Root] + comps_view(rest@.take(i as int)),
            decreases rest@.len() - i,
        {
            let c = clone_component(&rest[i]);
            let ghost prev = res@;
            res.push(c);
            i = i + 1;
            proof {
                assert(comps_view(rest@.take(i as int)) =~= comps_view(rest@.take(i - 1)).push(
                    rest@[i - 1]@,
                ));
                assert(comps_view(res@) =~= comps_view(prev).push(rest@[i - 1]@));
            }
        }
        assert(rest@.take(rest@.len() as int) =~= rest@);
        res
    } else {
        let first_is_dot = pieces[0].len() == 1 && pieces[0][0] == '.';
        proof {
            if pv[0] == dot() {
                assert(pieces@[0]@.len() == 1 && pieces@[0]@[0] == '.');
            }
            if first_is_dot {
                assert(pieces@[0]@ =~= dot());
            }
        }
        if first_is_dot {
            let rest = named_components(&pieces, 1);
            let mut res: Vec<Component> = Vec::new();
            res.push(Component::Cur);
            let mut i: usize = 0;
            while i < rest.len()
                invariant
                    i <= rest@.len(),
                    comps_view(res@) == seq![Comp::Cur] + comps_view(rest@.take(i as int)),
                decreases rest@.len() - i,
            {
                let c = clone_component(&rest[i]);
                let ghost prev = res@;
                res.push(c);
                i = i + 1;
                proof {
                    assert(comps_view(rest@.take(i as int)) =~= comps_view(rest@.take(i - 1)).push(
                        rest@[i - 1]@,
                    ));
                    assert(comps_view(res@) =~= comps_view(prev).push(rest@[i - 1]@));
                }
            }
            assert(rest@.take(rest@.len() as int) =~= rest@);
            res
        } else {
            named_components(&pieces, 0)
        }
    }
}

/// A copy of a component.
pub fn clone_component(c: &Component) -> (res: Component)
    ensures
        res@ == c@,
{
    match c {
        Component::Root => Component::Root,
        Component::Cur => Component::Cur,
        Component::Parent => Component::Parent,
        Component::Normal(v) => Component::Normal(v.clone()),
    }
}

/// Whether two components are equal.
pub fn component_eq(x: &Component, y: &Component) -> (res: bool)
    ensures
        res == (x@ == y@),
{
    match (x, y) {
        (Component::Root, Component::Root) => true,
        (Component::Cur, Component::Cur) => true,
        (Component::Parent, Component::Parent) => true,
        (Component::Normal(a), Component::Normal(b)) => chars_eq(a, b),
        _ => false,
    }
}

/// The rank of a component kind.
fn rank(x: &Component) -> (res: u8)
    ensures
        res as int == comp_rank(x@),
{
    match x {
        Component::Root => 1,
        Component::Cur => 2,
        Component::Parent => 3,
        Component::Normal(_) => 4,
    }
}

/// Whether `a` comes before `b` in code-point order.
pub fn chars_lt(a: &Vec<char>, b: &Vec<char>) -> (res: bool)
    ensures
        res == lex_lt(a@, b@),
{
    let mut i: usize = 0;
    assert(a@.skip(0) =~= a@);
    assert(b@.skip(0) =~= b@);
    while i < a.len() && i < b.len() && a[i] == b[i]
        invariant
            i <= a@.len(),
            i <= b@.len(),
            a@.take(i as int) == b@.take(i as int),
            lex_lt(a@, b@) == lex_lt(a@.skip(i as int), b@.skip(i as int)),
        decreases a@.len() - i,
    {
        proof {
            let sa = a@.skip(i as int);
            let sb = b@.skip(i as int);
            assert(sa.drop_first() =~= a@.skip(i + 1));
            assert(sb.drop_first() =~= b@.skip(i + 1));
            assert(a@.take(i + 1) =~= a@.take(i as int).push(a@[i as int]));
            assert(b@.take(i + 1) =~= b@.take(i as int).push(b@[i as int]));
        }
        i = i + 1;
    }
    if i == a.len() {
        i < b.len()
    } else if i == b.len() {
        false
    } else {
        proof {
            assert(a@.skip(i as int)[0] == a@[i as int]);
            assert(b@.skip(i as int)[0] == b@[i as int]);
        }
        a[i] < b[i]
    }
}

/// Whether `x < y` as components.
pub fn component_lt(x: &Component, y: &Component) -> (res: bool)
    ensures
        res == comp_lt(x@, y@),
{
    let rx = rank(x);
    let ry = rank(y);
    if rx != ry {
        rx < ry
    } else {
        match (x, y) {
            (Component::Normal(a), Component::Normal(b)) => chars_lt(a, b),
            _ => false,
        }
    }
}

/// Whether the component sequence `a` comes before `b`.
pub fn components_lt(a: &Vec<Component>, b: &Vec<Component>) -> (res: bool)
    ensures
        res == comps_lt(comps_view(a@), comps_view(b@)),
{
    let ghost av = comps_view(a@);
    let ghost bv = comps_view(b@);
    let mut i: usize = 0;
    assert(av.skip(0) =~= av);
    assert(bv.skip(0) =~= bv);
    while i < a.len() && i < b.len() && component_eq(&a[i], &b[i])
        invariant
            av == comps_view(a@),
            bv == comps_view(b@),
            i <= a@.len(),
            i <= b@.len(),
            comps_lt(av, bv) == comps_lt(av.skip(i as int), bv.skip(i as int)),
        decreases a@.len() - i,
    {
        proof {
            assert(av.skip(i as int).drop_first() =~= av.skip(i + 1));
            assert(bv.skip(i as int).drop_first() =~= bv.skip(i + 1));
        }
        i = i + 1;
    }
    if i == a.len() {
        i < b.len()
    } else if i == b.len() {
        false
    } else {
        proof {
            assert(av.skip(i as int)[0] == a@[i as int]@);
            assert(bv.skip(i as int)[0] == b@[i as int]@);
        }
        component_lt(&a[i], &b[i])
    }
}

/// Whether the component sequences are equal.
pub fn components_eq(a: &Vec<Component>, b: &Vec<Component>) -> (res: bool)
    ensures
        res == (comps_view(a@) == comps_view(b@)),
{
    if a.len() != b.len() {
        assert(comps_view(a@).len() != comps_view(b@).len());
        return false;
    }
    let mut i: usize = 0;
    while i < a.len()
        invariant
            i <= a@.len(),
            a@.len() == b@.len(),
            forall|j: int| 0 <= j < i ==> a@[j]@ == b@[j]@,
        decreases a@.len() - i,
    {
        if !component_eq(&a[i], &b[i]) {
            assert(comps_view(a@)[i as int] != comps_view(b@)[i as int]);
            return false;
        }
        i = i + 1;
    }
    assert(comps_view(a@) =~= comps_view(b@));
    true
}

/// Whether `a` begins with the components of `b`.
pub fn components_start_with(a: &Vec<Component>, b: &Vec<Component>) -> (res: bool)
    ensures
        res == comps_view(b@).is_prefix_of(comps_view(a@)),
{
    if b.len() > a.len() {
        return false;
    }
    let mut i: usize = 0;
    while i < b.len()
        invariant
            i <= b@.len() <= a@.len(),
            forall|j: int| 0 <= j < i ==> a@[j]@ == b@[j]@,
        decreases b@.len() - i,
    {
        if !component_eq(&a[i], &b[i]) {
            assert(comps_view(a@)[i as int] != comps_view(b@)[i as int]);
            return false;
        }
        i = i + 1;
    }
    assert(comps_view(b@) =~= comps_view(a@).take(b@.len() as int));
    true
}

/// `a == b` as paths.
pub fn paths_equal(a: &str, b: &str) -> (res: bool)
    ensures
        res == path_eq(a@, b@),
{
    let ca = path_components(&chars_of(a));
    let cb = path_components(&chars_of(b));
    components_eq(&ca, &cb)
}

/// `a < b` as paths.
pub fn path_less(a: &str, b: &str) -> (res: bool)
    ensures
        res == path_lt(a@, b@),
{
    let ca = path_components(&chars_of(a));
    let cb = path_components(&chars_of(b));
    components_lt(&ca, &cb)
}

/// `Path::starts_with`.
pub fn starts_with_path(p: &str, base: &str) -> (res: bool)
    ensures
        res == path_starts_with(p@, base@),
{
    let cp = path_components(&chars_of(p));
    let cb = path_components(&chars_of(base));
    components_start_with(&cp, &cb)
}

/// `Path::file_name`.
pub fn file_name_of(p: &str) -> (res: Option<Vec<char>>)
    ensures
        match res {
            Some(v) => file_name(p@) == Some(v@),
            None => file_name(p@) is None,
        },
{
    let c = path_components(&chars_of(p));
    if c.len() == 0 {
        return None;
    }
    match &c[c.len() - 1] {
        Component::Normal(v) => Some(v.clone()),
        _ => None,
    }
}

/// Whether the components of `b` end those of `a`.
pub fn components_end_with(a: &Vec<Component>, b: &Vec<Component>) -> (res: bool)
    ensures
        res == comps_view(b@).is_suffix_of(comps_view(a@)),
{
    if b.len() > a.len() {
        return false;
    }
    let off = a.len() - b.len();
    let mut i: usize = 0;
    while i < b.len()
        invariant
            a@.len() == a.len(),
            off + b@.len() == a@.len(),
            i <= b@.len(),
            forall|j: int| 0 <= j < i ==> a@[off + j]@ == b@[j]@,
        decreases b@.len() - i,
    {
        if !component_eq(&a[off + i], &b[i]) {
            assert(comps_view(a@).subrange(off as int, a@.len() as int)[i as int] != comps_view(b@)[i as int]);
            return false;
        }
        i = i + 1;
    }
    assert(comps_view(b@) =~= comps_view(a@).subrange(off as int, a@.len() as int));
    true
}

/// `Path::ends_with`.
pub fn ends_with_path(p: &str, tail: &str) -> (res: bool)
    ensures
        res == path_ends_with(p@, tail@),
{
    let cp = path_components(&chars_of(p));
    let ct = path_components(&chars_of(tail));
    components_end_with(&cp, &ct)
}

/// Whether the parent of `p` is the path `q`.
pub fn parent_is_path(p: &str, q: &str) -> (res: bool)
    ensures
        res == parent_is(p@, q@),
{
    let mut cp = path_components(&chars_of(p));
    let cq = path_components(&chars_of(q));
    if cp.len() == 0 {
        return false;
    }
    let ghost full = comps_view(cp@);
    let last = cp.pop().unwrap();
    proof {
        assert(full.last() == last@);
        assert(comps_view(cp@) =~= full.drop_last());
    }
    match last {
        Component::Root => false,
        _ => components_eq(&cp, &cq),
    }
}

} // verus!
