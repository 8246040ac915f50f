use vstd::prelude::*;
use vstd::string::StringExecFns;

verus! {

/// The routable views of the application.
#[derive(Clone, Copy, PartialEq, Eq, Structural, Debug)]
pub enum Page {
    Home,
    About,
    NotFound,
}

/// The page a path resolves to: the empty path is home, the single segment
/// "about" is the about page, and every other path degrades to not-found.
pub open spec fn spec_resolve_page(segments: Seq<Seq<char>>) -> Page {
    if segments.len() == 0 {
        Page::Home
    } else if segments.len() == 1 && segments[0] == "about"@ {
        Page::About
    } else {
        Page::NotFound
    }
}

/// The document title derived for a path: the base title, prefixed for the
/// about and not-found pages.
pub open spec fn spec_title(segments: Seq<Seq<char>>, base: Seq<char>) -> Seq<char> {
    match spec_resolve_page(segments) {
        Page::Home => base,
        Page::About => "About - "@ + base,
        Page::NotFound => "404 - "@ + base,
    }
}

/// Map a URL's path segments to a page and the title to display for it.
/// Total and deterministic: every input resolves to exactly one page.
pub fn resolve(segments: &Vec<String>, base_title: &str) -> (r: (Page, String))
    ensures
        r.0 == spec_resolve_page(segments@.map_values(|s: String| s@)),
        r.1@ == spec_title(segments@.map_values(|s: String| s@), base_title@),
{
    let ghost seg_views = segments@.map_values(|s: String| s@);
    if segments.len() == 0 {
        (Page::Home, base_title.to_owned())
    } else if segments.len() == 1 {
        let about: String = "about".to_owned();
        if segments[0] == about {
            proof {
                assert(seg_views[0] == segments@[0]@);
            }
            (Page::About, "About - ".to_owned().concat(base_title))
        } else {
            proof {
                assert(seg_views[0] == segments@[0]@);
            }
            (Page::NotFound, "404 - ".to_owned().concat(base_title))
        }
    } else {
        (Page::NotFound, "404 - ".to_owned().concat(base_title))
    }
}

/// Router totality: every path resolves to some page, and the three page
/// shapes are exactly the empty path, the single segment "about", and the
/// rest.
pub proof fn lemma_router_totality(segments: Seq<Seq<char>>)
    ensures
        spec_resolve_page(segments) == Page::Home <==> segments.len() == 0,
        spec_resolve_page(segments) == Page::About <==> (segments.len() == 1 && segments[0]
            == "about"@),
        spec_resolve_page(segments) == Page::NotFound <==> (segments.len() > 1 || (segments.len()
            == 1 && segments[0] != "about"@)),
{
}

} // verus!
