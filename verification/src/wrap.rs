//! The document wrapper: puts the rendered body into a fixed standalone HTML
//! shell with a style block and a title, and, in live mode, appends the
//! reload-listener script fragment.

use vstd::prelude::*;
use vstd::string::StringExecFns;

verus! {

/// The script fragment a live document carries: it opens an event stream to
/// `/reload` and reloads the page on any message.
pub open spec fn reload_script() -> Seq<char> {
    "\n<script>\n    const es = new EventSource('/reload');\n    es.onmessage = () => location.reload();\n</script>\n"@
}

/// The complete document: doctype, style block, title, body, and — in live
/// mode only — the reload-listener script.
pub open spec fn spec_wrap_html(
    body: Seq<char>,
    title: Seq<char>,
    style: Seq<char>,
    live: bool,
) -> Seq<char> {
    "<!DOCTYPE html><head><style>"@ + style + "</style><title>"@ + title
        + "</title></head><body>"@ + body + (if live {
        reload_script()
    } else {
        Seq::empty()
    }) + "</body>"@
}

/// Wraps the rendered body in the standalone HTML shell.
pub fn wrap_html(body: &str, title: &str, style: &str, live: bool) -> (r: String)
    ensures
        r@ == spec_wrap_html(body@, title@, style@, live),
{
    let mut r = String::new();
    r.append("<!DOCTYPE html><head><style>");
    r.append(style);
    r.append("</style><title>");
    r.append(title);
    r.append("</title></head><body>");
    r.append(body);
    if live {
        r.append(
            "\n<script>\n    const es = new EventSource('/reload');\n    es.onmessage = () => location.reload();\n</script>\n",
        );
    }
    r.append("</body>");
    proof {
        assert(r@ =~= spec_wrap_html(body@, title@, style@, live));
    }
    r
}

} // verus!
