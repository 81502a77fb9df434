use vstd::prelude::*;

use crate::text::{chars_to_string, to_chars};

verus! {

pub const PAGE_HEAD: &'static str = r#"<!DOCTYPE html>
<html>

<head>
    <link rel="stylesheet" href="https://cdnjs.cloudflare.com/ajax/libs/highlight.js/11.9.0/styles/github.min.css">
    <script src="https://cdnjs.cloudflare.com/ajax/libs/highlight.js/11.9.0/highlight.min.js"></script>
    <link rel="stylesheet"
        href="https://cdnjs.cloudflare.com/ajax/libs/github-markdown-css/5.6.1/github-markdown.min.css">
    <style>
        .markdown-body {
            --fontStack-monospace: JetBrains Mono, ui-monospace,
                SFMono-Regular,
                SF Mono,
                Menlo,
                Consolas,
                Liberation Mono,
                monospace !important;
    }

        .markdown-body {
            box-sizing: border-box;
            min-width: 200px;
            max-width: 980px;
            margin: 0 auto;
            padding: 45px;
    }

        @media (max-width: 767px) {
            .markdown-body {
                padding: 15px;
            }
        }
    </style>
    <script>
        hljs.highlightAll();
    </script>
    <link rel="stylesheet" href="https://cdn.jsdelivr.net/npm/katex@0.16.11/dist/katex.min.css"
        integrity="sha384-nB0miv6/jRmo5UMMR1wu3Gz6NLsoTkbqJghGIsx//Rlm+ZU03BU6SQNC66uf4l5+" crossorigin="anonymous">

    <!-- The loading of KaTeX is deferred to speed up page rendering -->
    <script defer src="https://cdn.jsdelivr.net/npm/katex@0.16.11/dist/katex.min.js"
        integrity="sha384-7zkQWkzuo3B5mTepMUcHkMB5jZaolc2xDwL6VFqjFALcbeS9Ggm/Yr2r3Dy4lfFg"
        crossorigin="anonymous"></script>

    <!-- To automatically render math in text elements, include the auto-render extension: -->
    <script defer src="https://cdn.jsdelivr.net/npm/katex@0.16.11/dist/contrib/auto-render.min.js"
        integrity="sha384-43gviWU0YVjaDtb/GhzOouOXtZMP/7XUzwPTstBeZFe/+rCMvRwr4yROQP43s0Xk" crossorigin="anonymous"
        onload="renderMathInElement(document.body, {
            delimiters: [
                { left: '$$', right: '$$', display: true },
                { left: '$', right: '$', display: false },
            ]
        });"></script>
</head>

<body class="markdown-body">
"#;

pub const PAGE_FOOT: &'static str = r#"
</body>

</html>
"#;

/// Rewrites bracket-style math delimiters to dollar-style ones, which
/// both the markdown parser and the math renderer accept: `\[` and `\]`
/// become `$$`, `\(` and `\)` become `$`; everything else is kept.
pub open spec fn spec_math_rewrite_from(s: Seq<char>, i: int) -> Seq<char>
    decreases s.len() - i,
{
    if !(0 <= i < s.len()) {
        Seq::empty()
    } else if i + 2 <= s.len() && s[i] == '\\' && (s[i + 1] == '[' || s[i + 1] == ']') {
        "$$"@ + spec_math_rewrite_from(s, i + 2)
    } else if i + 2 <= s.len() && s[i] == '\\' && (s[i + 1] == '(' || s[i + 1] == ')') {
        "$"@ + spec_math_rewrite_from(s, i + 2)
    } else {
        seq![s[i]] + spec_math_rewrite_from(s, i + 1)
    }
}

/// The text with its math delimiters rewritten.
pub open spec fn spec_math_rewrite(s: Seq<char>) -> Seq<char> {
    spec_math_rewrite_from(s, 0)
}

fn math_rewrite(s: &Vec<char>) -> (r: Vec<char>)
    ensures
        r@ == spec_math_rewrite(s@),
{
    let n = s.len();
    let mut out: Vec<char> = Vec::new();
    let mut i: usize = 0;
    while i < n
        invariant
            i <= n,
            n == s@.len(),
            spec_math_rewrite(s@) == out@ + spec_math_rewrite_from(s@, i as int),
        decreases n - i,
    {
        let c = s[i];
        if c == '\\' && i + 1 < n && (s[i + 1] == '[' || s[i + 1] == ']') {
            let ghost pre = out@;
            out.push('$');
            out.push('$');
            proof {
                reveal_strlit("$$");
                assert(out@ =~= pre + "$$"@);
                assert(spec_math_rewrite_from(s@, i as int) == "$$"@ + spec_math_rewrite_from(
                    s@,
                    i + 2,
                ));
                assert(spec_math_rewrite(s@) == out@ + spec_math_rewrite_from(s@, i + 2));
            }
            i += 2;
        } else if c == '\\' && i + 1 < n && (s[i + 1] == '(' || s[i + 1] == ')') {
            let ghost pre = out@;
            out.push('$');
            proof {
                reveal_strlit("$");
                assert(out@ =~= pre + "$"@);
                assert(spec_math_rewrite_from(s@, i as int) == "$"@ + spec_math_rewrite_from(
                    s@,
                    i + 2,
                ));
                assert(spec_math_rewrite(s@) == out@ + spec_math_rewrite_from(s@, i + 2));
            }
            i += 2;
        } else {
            let ghost pre = out@;
            out.push(c);
            proof {
                assert(out@ =~= pre + seq![c]);
                assert(spec_math_rewrite_from(s@, i as int) == seq![c] + spec_math_rewrite_from(
                    s@,
                    i + 1,
                ));
                assert(spec_math_rewrite(s@) == out@ + spec_math_rewrite_from(s@, i + 1));
            }
            i += 1;
        }
    }
    proof {
        assert(out@ =~= spec_math_rewrite(s@));
    }
    out
}

/// The HTML that the markdown renderer produces for a text; it depends
/// on the text alone.
pub uninterp spec fn markdown_html_of(s: Seq<char>) -> Seq<char>;

/// Relies on pulldown_cmark: `Parser::new_ext` over the text with tables
/// enabled, rendered by `html::push_html` into an empty string. The
/// result is a function of the text alone.
#[verifier::external_body]
fn render_markdown(s: &str) -> (r: String)
    ensures
        r@ == markdown_html_of(s@),
{
    let parser = pulldown_cmark::Parser::new_ext(s, pulldown_cmark::Options::ENABLE_TABLES);
    let mut html = String::new();
    pulldown_cmark::html::push_html(&mut html, parser);
    html
}

/// Renders chat markdown to HTML: math delimiters are rewritten to the
/// dollar style first, then the markdown renderer runs with tables
/// enabled.
pub fn markdown_to_html(markdown: &str) -> (r: String)
    ensures
        r@ == markdown_html_of(spec_math_rewrite(markdown@)),
{
    let chars = to_chars(markdown);
    let rewritten = math_rewrite(&chars);
    let text = chars_to_string(&rewritten);
    render_markdown(text.as_str())
}

/// Wraps rendered HTML in the page a headless browser screenshots: the
/// markdown stylesheet, code highlighting, and the math renderer wired
/// to the dollar-style delimiters.
pub fn render(html: &str) -> (r: String)
    ensures
        r@ == PAGE_HEAD@ + html@ + PAGE_FOOT@,
{
    let mut page = String::from_str(PAGE_HEAD);
    page.append(html);
    page.append(PAGE_FOOT);
    page
}

} // verus!
