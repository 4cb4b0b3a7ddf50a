use vstd::prelude::*;

verus! {

/// The page sent when a template fails to render.
pub open spec fn render_failure_page() -> Seq<char> {
    "Failed to render template"@
}

/// The HTML of a page: the rendered template, or a fixed message when
/// rendering failed.
pub fn render(rendered: Option<String>) -> (html: String)
    ensures
        html@ == match rendered {
            Some(page) => page@,
            None => render_failure_page(),
        },
{
    match rendered {
        Some(page) => page,
        None => "Failed to render template".to_owned(),
    }
}

} // verus!
