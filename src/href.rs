//! Resolution of a link's target against the route its action is mounted on.

use vstd::prelude::*;
use crate::text::{has_prefix, lemma_pieces_nonempty, pieces, push_char, starts_with};

verus! {

/// Each piece followed by a `/`.
pub open spec fn terminated(t: Seq<Seq<char>>) -> Seq<char>
    decreases t.len(),
{
    if t.len() == 0 {
        Seq::empty()
    } else {
        terminated(t.drop_last()) + t.last() + seq!['/']
    }
}

/// The pieces joined with `/` between them.
pub open spec fn join_pieces(t: Seq<Seq<char>>) -> Seq<char> {
    if t.len() == 0 {
        Seq::empty()
    } else {
        terminated(t.drop_last()) + t.last()
    }
}

/// `s` with every `:` taken out.
pub open spec fn without_colons(s: Seq<char>) -> Seq<char>
    decreases s.len(),
{
    if s.len() == 0 {
        Seq::empty()
    } else if s.last() == ':' {
        without_colons(s.drop_last())
    } else {
        without_colons(s.drop_last()).push(s.last())
    }
}

/// A path parameter `:id` becomes the placeholder `{{params.id}}`; any other
/// segment stays as it is.
pub open spec fn template_segment(seg: Seq<char>) -> Seq<char> {
    if seg.len() > 0 && seg[0] == ':' {
        "{{params."@ + without_colons(seg) + "}}"@
    } else {
        seg
    }
}

/// The mount route with each path parameter replaced by its placeholder.
pub open spec fn templated_route(route: Seq<char>) -> Seq<char> {
    join_pieces(pieces(route, '/').map_values(|seg: Seq<char>| template_segment(seg)))
}

/// An href that needs no rewriting: it already carries the mount route, is a
/// URL, or is rooted at `/`.
pub open spec fn is_qualified(href: Seq<char>, route: Seq<char>) -> bool {
    starts_with(href, route) || starts_with(href, "http"@) || starts_with(href, "/"@)
}

/// The canonical href of a link declared under `route`.
pub open spec fn resolved_href(href: Seq<char>, route: Seq<char>) -> Seq<char> {
    if is_qualified(href, route) {
        href
    } else {
        templated_route(route) + href
    }
}

/// Appends the placeholder form of `route[start..end]` to `out`.
fn append_segment(out: &mut String, route: &str, start: usize, end: usize)
    requires
        start <= end <= route@.len(),
    ensures
        final(out)@ == old(out)@ + template_segment(route@.subrange(start as int, end as int)),
{
    let ghost seg = route@.subrange(start as int, end as int);
    if start < end && route.get_char(start) == ':' {
        out.append("{{params.");
        let ghost base = out@;
        let mut i: usize = start;
        while i < end
            invariant
                start <= i <= end,
                end <= route@.len(),
                out@ == base + without_colons(route@.subrange(start as int, i as int)),
            decreases end - i,
        {
            let c = route.get_char(i);
            assert(route@.subrange(start as int, i + 1).drop_last() =~= route@.subrange(
                start as int,
                i as int,
            ));
            if c != ':' {
                push_char(out, c);
            }
            i += 1;
        }
        out.append("}}");
    } else {
        out.append(route.substring_char(start, end));
    }
}

/// The mount route with each `:name` segment replaced by `{{params.name}}`.
pub fn template_route(route: &str) -> (r: String)
    ensures
        r@ == templated_route(route@),
{
    let n = route.unicode_len();
    let mut out = String::new();
    let mut start: usize = 0;
    let mut i: usize = 0;
    proof {
        assert(route@.subrange(0, 0) =~= Seq::<char>::empty());
        assert(pieces(Seq::<char>::empty(), '/').drop_last() =~= Seq::<Seq<char>>::empty());
        assert(pieces(Seq::<char>::empty(), '/').drop_last().map_values(
            |seg: Seq<char>| template_segment(seg),
        ) =~= Seq::<Seq<char>>::empty());
    }
    while i < n
        invariant
            n == route@.len(),
            start <= i <= n,
            pieces(route@.subrange(0, i as int), '/').len() >= 1,
            pieces(route@.subrange(0, i as int), '/').last() == route@.subrange(
                start as int,
                i as int,
            ),
            out@ == terminated(
                pieces(route@.subrange(0, i as int), '/').drop_last().map_values(
                    |seg: Seq<char>| template_segment(seg),
                ),
            ),
        decreases n - i,
    {
        let ghost pre = route@.subrange(0, i as int);
        let ghost segs = pieces(pre, '/');
        let ghost next = route@.subrange(0, i + 1);
        assert(next.drop_last() =~= pre);
        let c = route.get_char(i);
        if c == '/' {
            append_segment(&mut out, route, start, i);
            push_char(&mut out, '/');
            proof {
                let f = |seg: Seq<char>| template_segment(seg);
                let m = pieces(next, '/').drop_last().map_values(f);
                assert(pieces(next, '/').drop_last() =~= segs);
                assert(m.drop_last() =~= segs.drop_last().map_values(f));
                assert(route@.subrange(i + 1, i + 1) =~= Seq::<char>::empty());
            }
            start = i + 1;
        } else {
            proof {
                let f = |seg: Seq<char>| template_segment(seg);
                assert(pieces(next, '/').drop_last() =~= segs.drop_last());
                assert(route@.subrange(start as int, i + 1) =~= route@.subrange(
                    start as int,
                    i as int,
                ).push(c));
            }
        }
        i += 1;
    }
    proof {
        lemma_pieces_nonempty(route@, '/');
    }
    append_segment(&mut out, route, start, n);
    proof {
        let f = |seg: Seq<char>| template_segment(seg);
        assert(route@.subrange(0, n as int) =~= route@);
        let m = pieces(route@, '/').map_values(f);
        assert(m.drop_last() =~= pieces(route@, '/').drop_last().map_values(f));
    }
    out
}

/// The canonical href of a link declared under the mount route `route`:
/// an href that is already qualified is kept; any other is appended, as it
/// stands, to the templated mount route.
pub fn resolve(href: &str, route: &str) -> (r: String)
    ensures
        r@ == resolved_href(href@, route@),
{
    if has_prefix(href, route) || has_prefix(href, "http") || has_prefix(href, "/") {
        String::from_str(href)
    } else {
        let mut out = template_route(route);
        out.append(href);
        out
    }
}

} // verus!
