use crate::view::{escaped, push_escaped, View};
use vstd::prelude::*;
use vstd::view::View as _;

verus! {

const PAGE_OPEN: &'static str = "<!DOCTYPE html><html lang=\"en\" class=\"h-full dark\"><head><title>";

const PAGE_HEAD: &'static str = "</title><link rel=\"icon\" href=\"data:image/svg+xml,<svg xmlns=%22http://www.w3.org/2000/svg%22 viewBox=%220 0 100 100%22><text y=%22.9em%22 font-size=%2290%22>&#127925;</text></svg>\"><meta name=\"viewport\" content=\"width=device-width, initial-scale=1.0\"><link rel=\"stylesheet\" href=\"/assets/styles.css?version=14\"><script src=\"https://unpkg.com/htmx.org@2.0.0\"></script></head><body class=\"text-black bg-white dark:text-white dark:bg-neutral-900\" hx-history=\"false\" hx-boost=\"true\"><div class=\"sticky top-0 flex bg-inherit flex-col\"><nav class=\"w-full text-xl px-3 py-2 bg-slate-800 flex gap-3 items-center\"><a href=\"https://www.festorkestret.dk/\"><img class=\"w-60 p-2\" src=\"https://www.festorkestret.dk/wp-content/uploads/2018/06/FO-font-white.png\"></a>Setliste</nav>";

const PAGE_BODY: &'static str = "</div><div class=\"flex w-full justify-center p-4\">";

const PAGE_CLOSE: &'static str = "</div><script src=\"/assets/scripts/htmx-config.js?version=2\"></script></body></html>";

/// A whole page: head with `title`, the navigation bar followed by `before`,
/// then `component` as the body.
pub closed spec fn page_text(component: Seq<char>, before: Seq<char>, title: Seq<char>) -> Seq<char> {
    PAGE_OPEN@ + escaped(title) + PAGE_HEAD@ + before + PAGE_BODY@ + component + PAGE_CLOSE@
}

/// A page with nothing below the navigation bar but `component`.
pub fn page(component: View, title: &str) -> (r: View)
    ensures
        r@ == page_text(component@, Seq::empty(), title@),
{
    page_inner(component, View::empty(), title)
}

/// A page with `before` shown right below the navigation bar, above `component`.
pub fn page_with_view_before(component: View, before: View, title: &str) -> (r: View)
    ensures
        r@ == page_text(component@, before@, title@),
{
    page_inner(component, before, title)
}

fn page_inner(component: View, before: View, title: &str) -> (r: View)
    ensures
        r@ == page_text(component@, before@, title@),
{
    let mut out = String::from_str(PAGE_OPEN);
    push_escaped(&mut out, title);
    out.append(PAGE_HEAD);
    out.append(before.as_str());
    out.append(PAGE_BODY);
    out.append(component.as_str());
    out.append(PAGE_CLOSE);
    View::new(out)
}

const INDEX_BODY: &'static str = "<div class=\"flex flex-col gap-4\"><h1 class=\"text-lg\">Stem på hvilke sange FestOrkestret spiller efter pausen</h1><a class=\"p-2 text-lg text-center text-white bg-blue-500 rounded transition-colors hover:bg-blue-400\" href=\"/vote\">Stem her</a></div>";

/// The landing page, which leads to the voting page.
pub closed spec fn index_text() -> Seq<char> {
    page_text(INDEX_BODY@, Seq::empty(), "Festorkestret Setlist"@)
}

/// The landing page.
pub fn index_page() -> (r: View)
    ensures
        r@ == index_text(),
{
    page(View::new(String::from_str(INDEX_BODY)), "Festorkestret Setlist")
}

} // verus!
