use render::markdown::{sanitize, ConverterOptions, RenderError};
use render::policy::AllowlistPolicy;
use render::{markdown_to_html, MarkdownRenderer};

const REL: &str = "nofollow noopener noreferrer";

fn clean(html: &str, base: Option<&str>) -> String {
    sanitize(html, &AllowlistPolicy::new(base))
}

#[test]
fn converter_switches_are_all_on() {
    let options = ConverterOptions::documentation();
    assert!(options.autolink);
    assert!(options.strikethrough);
    assert!(options.table);
    assert!(options.tagfilter);
    assert!(options.tasklist);
    assert!(options.raw_html);
}

#[test]
fn render_never_fails() {
    for text in ["", "\u{0}", "<", "<a href=", "[x](", "```", "&#xZZ;", "<!-- x", "]]>"] {
        let result: Result<String, RenderError> = markdown_to_html(text, Some("::::"));
        assert!(result.is_ok());
    }
}

#[test]
fn renderer_renders_as_the_entry_point_does() {
    let text = "# Title\n\n[hi](/hi) and <b onclick=\"x()\">bold</b>\n";
    for base in [None, Some("https://github.com/org/repo"), Some("https://example.com/")] {
        let renderer = MarkdownRenderer::new(base);
        assert_eq!(renderer.to_html(text).unwrap(), markdown_to_html(text, base).unwrap());
        assert_eq!(renderer.policy().link_rel(), REL);
    }
}

#[test]
fn script_is_written_as_escaped_text() {
    let result = markdown_to_html("<script>alert(1)</script>", None).unwrap();
    assert!(result.contains("&lt;script&gt;alert(1)&lt;/script&gt;"));
    assert!(!result.contains("<script"));
    assert!(!result.contains("</script"));
}

#[test]
fn relative_link_is_anchored_at_trusted_base() {
    let result = markdown_to_html("[hi](/hi)", Some("https://github.com/org/repo")).unwrap();
    assert_eq!(
        result,
        format!(
            "<p><a href=\"https://github.com/org/repo/blob/master/hi\" rel=\"{}\">hi</a></p>\n",
            REL
        )
    );
}

#[test]
fn relative_link_loses_its_target_under_untrusted_base() {
    let result = markdown_to_html("[hi](/hi)", Some("https://example.com/org/repo")).unwrap();
    assert_eq!(result, format!("<p><a rel=\"{}\">hi</a></p>\n", REL));
}

#[test]
fn forbidden_class_is_stripped_and_tag_kept() {
    assert_eq!(clean("<p class=\"bad-class\">text</p>", None), "<p>text</p>");
}

#[test]
fn relative_urls_are_removed_without_base() {
    let html = "<a href=\"there\">a</a><a href=\"/hi\">b</a><a href=\"//example.com/x\">c</a>\
                <img src=\"pic.png\" alt=\"pic\"><a href=\"#top\">d</a><a href=\"\">e</a>";
    let result = clean(html, None);
    assert!(!result.contains("href"));
    assert!(!result.contains("src"));
    assert_eq!(
        result,
        format!(
            "<a rel=\"{0}\">a</a><a rel=\"{0}\">b</a><a rel=\"{0}\">c</a>\
             <img alt=\"pic\"><a rel=\"{0}\">d</a><a rel=\"{0}\">e</a>",
            REL
        )
    );
}

#[test]
fn relative_image_source_is_anchored_at_trusted_base() {
    let result = clean("<img src=\"logo.png\" alt=\"logo\">", Some("https://gitlab.com/org/repo/"));
    assert_eq!(
        result,
        "<img src=\"https://gitlab.com/org/repo/blob/master/logo.png\" alt=\"logo\">"
    );
}

#[test]
fn absolute_urls_pass_through_under_every_base() {
    let html = "<a href=\"https://crates.io/crates/x?y=1#z\">x</a><img src=\"http://example.com/a.png\">";
    let expected = format!(
        "<a href=\"https://crates.io/crates/x?y=1#z\" rel=\"{}\">x</a><img src=\"http://example.com/a.png\">",
        REL
    );
    for base in [None, Some("https://github.com/org/repo"), Some("https://example.com/"), Some("")] {
        assert_eq!(clean(html, base), expected);
    }
}

#[test]
fn link_relation_cannot_be_set_by_the_input() {
    let expected = format!("<a href=\"https://example.com/\" rel=\"{}\">x</a>", REL);
    assert_eq!(clean("<a href=\"https://example.com/\" rel=\"follow\">x</a>", None), expected);
    assert_eq!(clean("<a href=\"https://example.com/\" rel=\"\">x</a>", None), expected);
    assert_eq!(clean("<a rel=\"opener\" href=\"https://example.com/\">x</a>", None), expected);
    assert_eq!(clean("<a href=\"https://example.com/\">x</a>", None), expected);
    assert_eq!(clean("<a>x</a>", None), format!("<a rel=\"{}\">x</a>", REL));
}

#[test]
fn tags_outside_the_table_lose_their_markers() {
    let result = clean("<div><marquee>fish &amp; chips</marquee> <h4>four</h4></div>", None);
    assert_eq!(result, "fish &amp; chips four");
    for name in ["div", "marquee", "h4"] {
        assert!(!result.contains(&format!("<{}", name)));
        assert!(!result.contains(&format!("</{}", name)));
    }
}

#[test]
fn text_is_escaped() {
    assert_eq!(clean("a < b & c > d", None), "a &lt; b &amp; c &gt; d");
}

#[test]
fn attributes_outside_the_table_are_removed() {
    assert_eq!(
        clean("<img src=\"https://example.com/a.png\" onerror=\"x()\" width=\"3\" style=\"y\">", None),
        "<img src=\"https://example.com/a.png\" width=\"3\">"
    );
    assert_eq!(clean("<p align=\"center\" id=\"x\">t</p>", None), "<p>t</p>");
    assert_eq!(
        clean("<a target=\"_blank\" href=\"https://example.com/\" onclick=\"x()\">t</a>", None),
        format!("<a target=\"_blank\" href=\"https://example.com/\" rel=\"{}\">t</a>", REL)
    );
}

#[test]
fn urls_with_other_schemes_are_removed() {
    assert_eq!(
        clean("<a href=\"javascript:alert(1)\">x</a>", Some("https://github.com/org/repo")),
        format!("<a rel=\"{}\">x</a>", REL)
    );
}

#[test]
fn only_listed_class_tokens_survive() {
    assert_eq!(
        clean("<code class=\"language-rust\">x</code>", None),
        "<code class=\"language-rust\">x</code>"
    );
    assert_eq!(
        clean("<code class=\"evil language-rust worse yaml\">x</code>", None),
        "<code class=\"language-rust yaml\">x</code>"
    );
    assert_eq!(clean("<code class=\"evil\">x</code>", None), "<code>x</code>");
    assert_eq!(clean("<code class=\"\">x</code>", None), "<code>x</code>");
    assert_eq!(clean("<pre class=\"language-rust\">x</pre>", None), "<pre>x</pre>");
    assert_eq!(clean("<span class=\"yaml\">x</span>", None), "<span>x</span>");
}

#[test]
fn cleaning_twice_changes_nothing() {
    let inputs = [
        "",
        "plain text",
        "a < b & c",
        "<p class=\"bad-class\">text</p>",
        "<a href=\"/hi\" rel=\"x\" onclick=\"y()\">hi</a>",
        "<a href=\"https://example.com/\">x</a>",
        "<div><code class=\"language-rust evil\">fn main() {}</code></div>",
        "<img src=\"a.png\" alt=\"a\" width=\"1\"><input type=\"checkbox\" checked disabled>",
        "<table><thead><tr><th>h</th></tr></thead><tbody><tr><td>d</td></tr></tbody></table>",
        "&lt;script&gt;alert(1)&lt;/script&gt;",
        "<script>alert(1)</script><style>p{}</style>after",
    ];
    for base in [None, Some("https://github.com/org/repo"), Some("https://example.com/")] {
        let policy = AllowlistPolicy::new(base);
        for input in inputs {
            let once = sanitize(input, &policy);
            let twice = sanitize(&once, &policy);
            assert_eq!(twice, once);
        }
    }
}

#[test]
fn rendered_output_is_already_clean() {
    let texts = [
        "foo_readme\n\n<script>alert('Hello World')</script>",
        "[hi](/hi) and [there](there) and <https://example.com/>",
        "| a | b |\n|---|---|\n| 1 | 2 |\n\n- [x] done\n- [ ] open\n\n~~gone~~",
        "```rust\nfn main() {}\n```\n\n<p class='bad-class'>Hello World!</p>",
    ];
    for base in [None, Some("https://bitbucket.org/org/repo"), Some("https://example.com/")] {
        let policy = AllowlistPolicy::new(base);
        for text in texts {
            let html = markdown_to_html(text, base).unwrap();
            assert_eq!(sanitize(&html, &policy), html);
        }
    }
}

#[test]
fn strikethrough_is_converted() {
    assert_eq!(markdown_to_html("~~gone~~", None).unwrap(), "<p><del>gone</del></p>\n");
}

#[test]
fn bare_url_becomes_a_link() {
    assert_eq!(
        markdown_to_html("see https://example.com/page", None).unwrap(),
        format!(
            "<p>see <a href=\"https://example.com/page\" rel=\"{}\">https://example.com/page</a></p>\n",
            REL
        )
    );
}

#[test]
fn table_is_converted() {
    assert_eq!(
        markdown_to_html("| a | b |\n|---|---|\n| 1 | 2 |\n", None).unwrap(),
        "<table>\n<thead>\n<tr>\n<th>a</th>\n<th>b</th>\n</tr>\n</thead>\n<tbody>\n<tr>\n<td>1</td>\n<td>2</td>\n</tr>\n</tbody>\n</table>\n"
    );
}

#[test]
fn task_list_keeps_its_checkboxes() {
    let result = markdown_to_html("- [x] done\n- [ ] open\n", None).unwrap();
    assert_eq!(
        result,
        "<ul>\n<li><input type=\"checkbox\" checked=\"\" disabled=\"\"> done</li>\n<li><input type=\"checkbox\" disabled=\"\"> open</li>\n</ul>\n"
    );
}

#[test]
fn heading_and_emphasis_are_converted() {
    assert_eq!(
        markdown_to_html("# Title\n\nsome *text* and **more**\n", None).unwrap(),
        "<h1>Title</h1>\n<p>some <em>text</em> and <strong>more</strong></p>\n"
    );
}

#[test]
fn script_content_is_dropped_by_the_cleaner() {
    assert_eq!(clean("<script>alert(1)</script>after", None), "after");
}
