//! The route table: resolving a URL path to a route and producing the
//! canonical path of a route.

use vstd::prelude::*;
use crate::text::same_text;

verus! {

/// The tag of a route, without any payload.
#[derive(Clone, Copy, Debug, PartialEq, Eq, Structural)]
pub enum RouteKind {
    Home,
    Profile,
    Comms,
    Circles,
    Tree,
    Settings,
    SystemInfo,
    NotFound,
}

/// A destination of the application. `NotFound` keeps the segments of the
/// unmatched path, in order.
#[derive(Clone, Debug, PartialEq, Eq)]
pub enum Route {
    Home,
    Profile,
    Comms,
    Circles,
    Tree,
    Settings,
    SystemInfo,
    NotFound { route: Vec<String> },
}

/// The mathematical value of a `Route`: its segments as character sequences.
pub enum RouteView {
    Home,
    Profile,
    Comms,
    Circles,
    Tree,
    Settings,
    SystemInfo,
    NotFound(Seq<Seq<char>>),
}

/// The characters of each string of `v`, in order.
pub open spec fn texts(v: Seq<String>) -> Seq<Seq<char>> {
    v.map_values(|s: String| s@)
}

impl View for Route {
    type V = RouteView;

    open spec fn view(&self) -> RouteView {
        match self {
            Route::Home => RouteView::Home,
            Route::Profile => RouteView::Profile,
            Route::Comms => RouteView::Comms,
            Route::Circles => RouteView::Circles,
            Route::Tree => RouteView::Tree,
            Route::Settings => RouteView::Settings,
            Route::SystemInfo => RouteView::SystemInfo,
            Route::NotFound { route } => RouteView::NotFound(texts(route@)),
        }
    }
}

impl RouteView {
    pub open spec fn kind(self) -> RouteKind {
        match self {
            RouteView::Home => RouteKind::Home,
            RouteView::Profile => RouteKind::Profile,
            RouteView::Comms => RouteKind::Comms,
            RouteView::Circles => RouteKind::Circles,
            RouteView::Tree => RouteKind::Tree,
            RouteView::Settings => RouteKind::Settings,
            RouteView::SystemInfo => RouteKind::SystemInfo,
            RouteView::NotFound(_) => RouteKind::NotFound,
        }
    }
}

/// `s` cut at every `/`: the pieces between the separators, empty ones
/// included, so there is one piece more than there are separators.
pub open spec fn pieces(s: Seq<char>) -> Seq<Seq<char>>
    decreases s.len(),
{
    if s.len() == 0 {
        seq![Seq::empty()]
    } else {
        let rest = pieces(s.drop_first());
        if s[0] == '/' {
            seq![Seq::empty()] + rest
        } else {
            rest.update(0, seq![s[0]] + rest[0])
        }
    }
}

pub open spec fn nonempty_piece() -> spec_fn(Seq<char>) -> bool {
    |x: Seq<char>| x.len() > 0
}

/// The segments of a path: its pieces with the empty ones left out.
pub open spec fn segments(s: Seq<char>) -> Seq<Seq<char>> {
    pieces(s).filter(nonempty_piece())
}

/// The segments written one after another with a `/` between each two.
pub open spec fn join(segs: Seq<Seq<char>>) -> Seq<char>
    decreases segs.len(),
{
    if segs.len() == 0 {
        Seq::empty()
    } else if segs.len() == 1 {
        segs[0]
    } else {
        segs[0] + seq!['/'] + join(segs.drop_first())
    }
}

pub open spec fn slash_free(s: Seq<char>) -> bool {
    forall|i: int| 0 <= i < s.len() ==> s[i] != '/'
}

/// The route that a path resolves to: the configured paths in priority
/// order, and every other path caught by `NotFound`.
pub open spec fn route_for(p: Seq<char>) -> RouteView {
    if p == "/"@ {
        RouteView::Home
    } else if p == "/profile"@ {
        RouteView::Profile
    } else if p == "/comms"@ {
        RouteView::Comms
    } else if p == "/circles"@ {
        RouteView::Circles
    } else if p == "/trees"@ {
        RouteView::Tree
    } else if p == "/settings"@ {
        RouteView::Settings
    } else if p == "/system-info"@ {
        RouteView::SystemInfo
    } else {
        RouteView::NotFound(segments(p))
    }
}

/// The canonical path of a route.
pub open spec fn path_of(r: RouteView) -> Seq<char> {
    match r {
        RouteView::Home => "/"@,
        RouteView::Profile => "/profile"@,
        RouteView::Comms => "/comms"@,
        RouteView::Circles => "/circles"@,
        RouteView::Tree => "/trees"@,
        RouteView::Settings => "/settings"@,
        RouteView::SystemInfo => "/system-info"@,
        RouteView::NotFound(segs) => "/"@ + join(segs),
    }
}

/// Whether `p` is one of the configured paths.
pub open spec fn is_configured_path(p: Seq<char>) -> bool {
    !(route_for(p) is NotFound)
}

/// A path in the form that `path_of` writes for `NotFound`: a leading `/`,
/// no trailing `/`, and no two `/` in a row.
pub open spec fn is_canonical_path(p: Seq<char>) -> bool {
    &&& p.len() >= 2
    &&& p[0] == '/'
    &&& p.last() != '/'
    &&& forall|i: int| 0 <= i < p.len() - 1 ==> !(#[trigger] p[i] == '/' && p[i + 1] == '/')
}

proof fn lemma_pieces_len(s: Seq<char>)
    ensures
        pieces(s).len() >= 1,
    decreases s.len(),
{
    if s.len() > 0 {
        lemma_pieces_len(s.drop_first());
    }
}

/// A slash-free prefix joins the first piece of what follows it.
proof fn lemma_pieces_prefix(u: Seq<char>, w: Seq<char>)
    requires
        slash_free(u),
    ensures
        pieces(u + w) == pieces(w).update(0, u + pieces(w)[0]),
    decreases u.len(),
{
    lemma_pieces_len(w);
    let pw = pieces(w);
    if u.len() == 0 {
        assert(u + w =~= w);
        assert(u + pw[0] =~= pw[0]);
        assert(pw.update(0, u + pw[0]) =~= pw);
    } else {
        let u1 = u.drop_first();
        assert(slash_free(u1));
        lemma_pieces_prefix(u1, w);
        assert((u + w).drop_first() =~= u1 + w);
        assert((u + w)[0] == u[0]);
        assert(seq![u[0]] + (u1 + pw[0]) =~= u + pw[0]);
        assert(pw.update(0, u1 + pw[0]).update(0, u + pw[0]) =~= pw.update(0, u + pw[0]));
    }
}

/// Cutting at a `/` that follows a slash-free prefix.
proof fn lemma_cut_at_slash(u: Seq<char>, v: Seq<char>)
    requires
        slash_free(u),
    ensures
        pieces(u + seq!['/'] + v) == seq![u] + pieces(v),
        segments(u + seq!['/'] + v) == (if u.len() > 0 {
            seq![u]
        } else {
            Seq::empty()
        }) + segments(v),
{
    let w = seq!['/'] + v;
    assert(u + seq!['/'] + v =~= u + w);
    lemma_pieces_prefix(u, w);
    assert(w.drop_first() =~= v);
    assert(pieces(w) == seq![Seq::<char>::empty()] + pieces(v));
    assert(u + Seq::<char>::empty() =~= u);
    assert(pieces(w).update(0, u + pieces(w)[0]) =~= seq![u] + pieces(v));
    pieces(v).lemma_filter_prepend(u, nonempty_piece());
}

/// A slash-free text is one piece.
proof fn lemma_cut_slash_free(u: Seq<char>)
    requires
        slash_free(u),
    ensures
        pieces(u) == seq![u],
        segments(u) == (if u.len() > 0 {
            seq![u]
        } else {
            Seq::empty()
        }),
{
    lemma_pieces_prefix(u, Seq::empty());
    assert(u + Seq::<char>::empty() =~= u);
    assert(pieces(Seq::<char>::empty()) == seq![Seq::<char>::empty()]);
    assert(seq![Seq::<char>::empty()].update(0, u) =~= seq![u]);
    Seq::<Seq<char>>::empty().lemma_filter_prepend(u, nonempty_piece());
    assert(seq![u] + Seq::<Seq<char>>::empty() =~= seq![u]);
    reveal(Seq::filter);
    assert(Seq::<Seq<char>>::empty().filter(nonempty_piece()) =~= Seq::<Seq<char>>::empty());
}

proof fn lemma_join_push(segs: Seq<Seq<char>>, x: Seq<char>)
    ensures
        join(segs.push(x)) == if segs.len() == 0 {
            x
        } else {
            join(segs) + seq!['/'] + x
        },
    decreases segs.len(),
{
    if segs.len() == 0 {
        assert(segs.push(x) =~= seq![x]);
    } else if segs.len() == 1 {
        assert(segs.push(x).drop_first() =~= seq![x]);
        assert(join(seq![x]) == x);
        assert(join(segs) == segs[0]);
    } else {
        lemma_join_push(segs.drop_first(), x);
        assert(segs.push(x).drop_first() =~= segs.drop_first().push(x));
        assert(segs.push(x)[0] == segs[0]);
        assert(segs[0] + seq!['/'] + (join(segs.drop_first()) + seq!['/'] + x) =~= (segs[0]
            + seq!['/'] + join(segs.drop_first())) + seq!['/'] + x);
    }
}

/// Joining the pieces of a text gives the text back.
proof fn lemma_join_pieces(s: Seq<char>)
    ensures
        join(pieces(s)) == s,
    decreases s.len(),
{
    if s.len() > 0 {
        let s1 = s.drop_first();
        let r = pieces(s1);
        lemma_join_pieces(s1);
        lemma_pieces_len(s1);
        if s[0] == '/' {
            let e = Seq::<char>::empty();
            assert((seq![e] + r).drop_first() =~= r);
            assert(e + seq!['/'] + s1 =~= s);
        } else {
            let r2 = r.update(0, seq![s[0]] + r[0]);
            if r.len() == 1 {
                assert(seq![s[0]] + r[0] =~= s);
            } else {
                assert(r2.drop_first() =~= r.drop_first());
                assert((seq![s[0]] + r[0]) + seq!['/'] + join(r.drop_first()) =~= seq![s[0]] + (r[0]
                    + seq!['/'] + join(r.drop_first())));
                assert(seq![s[0]] + s1 =~= s);
            }
        }
    }
}

/// A text with no `/` at either end and none doubled has no empty piece.
proof fn lemma_clean_pieces(s: Seq<char>)
    requires
        s.len() > 0,
        s[0] != '/',
        s.last() != '/',
        forall|i: int| 0 <= i < s.len() - 1 ==> !(#[trigger] s[i] == '/' && s[i + 1] == '/'),
    ensures
        forall|k: int| 0 <= k < pieces(s).len() ==> (#[trigger] pieces(s)[k]).len() > 0,
    decreases s.len(),
{
    let s1 = s.drop_first();
    lemma_pieces_len(s1);
    if s1.len() == 0 {
        assert(pieces(s1) == seq![Seq::<char>::empty()]);
    } else if s1[0] == '/' {
        let s2 = s1.drop_first();
        assert(s2.len() > 0) by {
            if s2.len() == 0 {
                assert(s.last() == s1[0]);
            }
        }
        assert(s2[0] == s[2]);
        assert(s2.last() == s.last());
        assert forall|i: int| 0 <= i < s2.len() - 1 implies !(#[trigger] s2[i] == '/' && s2[i + 1] == '/') by {
            assert(s2[i] == s[i + 2] && s2[i + 1] == s[i + 3]);
        }
        lemma_clean_pieces(s2);
        lemma_pieces_len(s2);
    } else {
        assert forall|i: int| 0 <= i < s1.len() - 1 implies !(#[trigger] s1[i] == '/' && s1[i + 1] == '/') by {
            assert(s1[i] == s[i + 1] && s1[i + 1] == s[i + 2]);
        }
        lemma_clean_pieces(s1);
    }
}

proof fn lemma_filter_keeps_all(x: Seq<Seq<char>>)
    requires
        forall|k: int| 0 <= k < x.len() ==> (#[trigger] x[k]).len() > 0,
    ensures
        x.filter(nonempty_piece()) == x,
    decreases x.len(),
{
    reveal(Seq::filter);
    if x.len() > 0 {
        lemma_filter_keeps_all(x.drop_last());
        assert(x.drop_last().push(x.last()) =~= x);
    }
}

proof fn reveal_configured_paths()
    ensures
        "/"@ =~= seq!['/'],
        "/profile"@ =~= seq!['/', 'p', 'r', 'o', 'f', 'i', 'l', 'e'],
        "/comms"@ =~= seq!['/', 'c', 'o', 'm', 'm', 's'],
        "/circles"@ =~= seq!['/', 'c', 'i', 'r', 'c', 'l', 'e', 's'],
        "/trees"@ =~= seq!['/', 't', 'r', 'e', 'e', 's'],
        "/settings"@ =~= seq!['/', 's', 'e', 't', 't', 'i', 'n', 'g', 's'],
        "/system-info"@ =~= seq!['/', 's', 'y', 's', 't', 'e', 'm', '-', 'i', 'n', 'f', 'o'],
{
    reveal_strlit("/");
    reveal_strlit("/profile");
    reveal_strlit("/comms");
    reveal_strlit("/circles");
    reveal_strlit("/trees");
    reveal_strlit("/settings");
    reveal_strlit("/system-info");
}

/// Every configured path resolves to the route it names, and the path of
/// that route is the same path again.
pub proof fn lemma_configured_round_trip(r: RouteView)
    requires
        !(r is NotFound),
    ensures
        route_for(path_of(r)) == r,
        path_of(route_for(path_of(r))) == path_of(r),
{
    reveal_configured_paths();
    let p = path_of(r);
    if !(r is Home) {
        assert(p.len() != 1 || p[0] != '/');
        assert(p != "/"@);
    }
    if !(r is Home) && !(r is Profile) {
        assert(p.len() != 8 || p[1] != 'p');
        assert(p != "/profile"@);
    }
    if !(r is Home) && !(r is Profile) && !(r is Comms) {
        assert(p.len() != 6 || p[1] != 'c');
        assert(p != "/comms"@);
    }
    if !(r is Home) && !(r is Profile) && !(r is Comms) && !(r is Circles) {
        assert(p.len() != 8 || p[1] != 'c');
        assert(p != "/circles"@);
    }
    if r is Settings || r is SystemInfo {
        assert(p != "/trees"@);
    }
    if r is SystemInfo {
        assert(p != "/settings"@);
    }
}

/// A path that names no configured route resolves to `NotFound` with the
/// path's segments; when the path is canonical, the path of that route is
/// the same path again.
pub proof fn lemma_unmatched_round_trip(p: Seq<char>)
    requires
        !is_configured_path(p),
    ensures
        route_for(p) == RouteView::NotFound(segments(p)),
        is_canonical_path(p) ==> path_of(route_for(p)) == p,
{
    if is_canonical_path(p) {
        let s = p.drop_first();
        assert(s[0] != '/') by {
            assert(p[0] == '/' && p[1] == s[0]);
        }
        assert(s.last() == p.last());
        assert forall|i: int| 0 <= i < s.len() - 1 implies !(#[trigger] s[i] == '/' && s[i + 1]
            == '/') by {
            assert(s[i] == p[i + 1] && s[i + 1] == p[i + 2]);
        }
        lemma_clean_pieces(s);
        lemma_filter_keeps_all(pieces(s));
        assert(pieces(p) == seq![Seq::<char>::empty()] + pieces(s));
        pieces(s).lemma_filter_prepend(Seq::<char>::empty(), nonempty_piece());
        assert(Seq::<Seq<char>>::empty() + pieces(s) =~= pieces(s));
        assert(segments(p) == pieces(s));
        lemma_join_pieces(s);
        reveal_strlit("/");
        assert("/"@ + s =~= p);
    }
}

/// The route with tag `k` and no payload.
pub open spec fn bare_route(k: RouteKind) -> RouteView {
    match k {
        RouteKind::Home => RouteView::Home,
        RouteKind::Profile => RouteView::Profile,
        RouteKind::Comms => RouteView::Comms,
        RouteKind::Circles => RouteView::Circles,
        RouteKind::Tree => RouteView::Tree,
        RouteKind::Settings => RouteView::Settings,
        RouteKind::SystemInfo => RouteView::SystemInfo,
        RouteKind::NotFound => RouteView::NotFound(Seq::empty()),
    }
}

impl Route {
    /// The route with tag `k`; for `NotFound`, one without segments.
    pub fn of_kind(k: RouteKind) -> (r: Route)
        ensures
            r@ == bare_route(k),
            r@.kind() == k,
    {
        match k {
            RouteKind::Home => Route::Home,
            RouteKind::Profile => Route::Profile,
            RouteKind::Comms => Route::Comms,
            RouteKind::Circles => Route::Circles,
            RouteKind::Tree => Route::Tree,
            RouteKind::Settings => Route::Settings,
            RouteKind::SystemInfo => Route::SystemInfo,
            RouteKind::NotFound => {
                let r = Route::NotFound { route: Vec::new() };
                assert(texts(Seq::<String>::empty()) =~= Seq::<Seq<char>>::empty());
                r
            },
        }
    }

    /// The tag of this route.
    pub fn kind(&self) -> (r: RouteKind)
        ensures
            r == self@.kind(),
    {
        match self {
            Route::Home => RouteKind::Home,
            Route::Profile => RouteKind::Profile,
            Route::Comms => RouteKind::Comms,
            Route::Circles => RouteKind::Circles,
            Route::Tree => RouteKind::Tree,
            Route::Settings => RouteKind::Settings,
            Route::SystemInfo => RouteKind::SystemInfo,
            Route::NotFound { .. } => RouteKind::NotFound,
        }
    }

    /// Whether the two routes have the same tag; payloads are not compared.
    pub fn same_variant(&self, other: &Route) -> (r: bool)
        ensures
            r == (self@.kind() == other@.kind()),
    {
        self.kind() == other.kind()
    }
}

/// The segments of `path`: the texts between its `/` separators, with the
/// empty ones left out.
pub fn split_segments(path: &str) -> (r: Vec<String>)
    ensures
        texts(r@) == segments(path@),
{
    let n = path.unicode_len();
    let mut out: Vec<String> = Vec::new();
    let mut start: usize = 0;
    let mut i: usize = 0;
    proof {
        assert(path@.subrange(0, n as int) =~= path@);
        assert(texts(out@) =~= Seq::<Seq<char>>::empty());
        assert(Seq::<Seq<char>>::empty() + segments(path@) =~= segments(path@));
    }
    while i < n
        invariant
            n == path@.len(),
            start <= i <= n,
            slash_free(path@.subrange(start as int, i as int)),
            texts(out@) + segments(path@.subrange(start as int, n as int)) == segments(path@),
        decreases n - i,
    {
        if path.get_char(i) == '/' {
            let ghost u = path@.subrange(start as int, i as int);
            let ghost v = path@.subrange(i + 1, n as int);
            proof {
                assert(path@.subrange(start as int, n as int) =~= u + seq!['/'] + v);
                lemma_cut_at_slash(u, v);
            }
            if i > start {
                let piece = String::from_str(path.substring_char(start, i));
                let ghost before = out@;
                out.push(piece);
                proof {
                    assert(texts(out@) =~= texts(before) + seq![u]);
                    assert(texts(before) + seq![u] + segments(v) =~= texts(before) + (seq![u]
                        + segments(v)));
                }
            } else {
                proof {
                    assert(Seq::<Seq<char>>::empty() + segments(v) =~= segments(v));
                }
            }
            start = i + 1;
        }
        i = i + 1;
        proof {
            assert forall|j: int| 0 <= j < path@.subrange(start as int, i as int).len() implies
                #[trigger] path@.subrange(start as int, i as int)[j] != '/' by {
                if i - 1 >= start {
                    assert(path@.subrange(start as int, i as int)[j] == path@[start + j]);
                    if start + j < i - 1 {
                        assert(path@.subrange(start as int, (i - 1) as int)[j] == path@[start + j]);
                    }
                }
            }
        }
    }
    let ghost u = path@.subrange(start as int, n as int);
    proof {
        lemma_cut_slash_free(u);
    }
    if n > start {
        let piece = String::from_str(path.substring_char(start, n));
        let ghost before = out@;
        out.push(piece);
        proof {
            assert(texts(out@) =~= texts(before) + seq![u]);
        }
    } else {
        proof {
            assert(texts(out@) + Seq::<Seq<char>>::empty() =~= texts(out@));
        }
    }
    out
}

/// The segments written one after another with a `/` between each two.
pub fn join_segments(segs: &Vec<String>) -> (r: String)
    ensures
        r@ == join(texts(segs@)),
{
    let mut r = String::new();
    let mut i: usize = 0;
    proof {
        reveal_strlit("/");
        assert(texts(segs@).subrange(0, 0) =~= Seq::<Seq<char>>::empty());
    }
    while i < segs.len()
        invariant
            i <= segs@.len(),
            "/"@ == seq!['/'],
            r@ == join(texts(segs@).subrange(0, i as int)),
        decreases segs@.len() - i,
    {
        proof {
            lemma_join_push(texts(segs@).subrange(0, i as int), segs@[i as int]@);
            assert(texts(segs@).subrange(0, i + 1) =~= texts(segs@).subrange(0, i as int).push(
                segs@[i as int]@,
            ));
        }
        if i > 0 {
            r.append("/");
        }
        r.append(segs[i].as_str());
        i = i + 1;
    }
    proof {
        assert(texts(segs@).subrange(0, segs@.len() as int) =~= texts(segs@));
    }
    r
}

/// The route that `path` resolves to. Every path resolves: one that matches
/// no configured path gives `NotFound` with its segments.
pub fn resolve(path: &str) -> (r: Route)
    ensures
        r@ == route_for(path@),
{
    if same_text(path, "/") {
        Route::Home
    } else if same_text(path, "/profile") {
        Route::Profile
    } else if same_text(path, "/comms") {
        Route::Comms
    } else if same_text(path, "/circles") {
        Route::Circles
    } else if same_text(path, "/trees") {
        Route::Tree
    } else if same_text(path, "/settings") {
        Route::Settings
    } else if same_text(path, "/system-info") {
        Route::SystemInfo
    } else {
        Route::NotFound { route: split_segments(path) }
    }
}

/// The canonical path of `route`; for `NotFound`, a `/` followed by its
/// segments joined with `/`.
pub fn path_for(route: &Route) -> (r: String)
    ensures
        r@ == path_of(route@),
{
    match route {
        Route::Home => String::from_str("/"),
        Route::Profile => String::from_str("/profile"),
        Route::Comms => String::from_str("/comms"),
        Route::Circles => String::from_str("/circles"),
        Route::Tree => String::from_str("/trees"),
        Route::Settings => String::from_str("/settings"),
        Route::SystemInfo => String::from_str("/system-info"),
        Route::NotFound { route } => {
            let mut p = String::from_str("/");
            let rest = join_segments(route);
            p.append(rest.as_str());
            p
        },
    }
}

} // verus!
